//! Detection of chapter and volume titles.

use vstd::prelude::*;
use super::scorer::{
    chapter_score, choice_matches, ends_sentence, ends_with_sentence_ending, has_prev, leading_chapter_marker,
    leading_marker, lines_chars, str_views, ChapterScore, ScoreCalculator, ScoringFactors,
};
use crate::error::KafError;
use crate::model::{DEFAULT_CHAPTER_MATCH, DEFAULT_VOLUME_MATCH};
use crate::text::{chars_of, contains_str, has_prefix, push_str, string_of, trim, trim_chars, views};
use crate::utils::regex::{compile, matches_pattern, pattern_matches, regex_valid, CompiledPattern};

verus! {

/// Alternative appended to the default chapter pattern: `Chapter N` in any case.
pub const CHAPTER_CASE_ALTERNATIVE: &'static str = r"|(?i:^Chapter\s*\d+)";

/// The pattern of subchapter numbers such as `1.2`.
pub const SUBCHAPTER_PATTERN: &'static str = r"^\d+\.\d+";

/// The default chapter title pattern of the detector.
pub open spec fn chapter_pattern() -> Seq<char> {
    DEFAULT_CHAPTER_MATCH@ + CHAPTER_CASE_ALTERNATIVE@
}

/// Characters of separator lines.
pub open spec fn is_separator_char(c: char) -> bool {
    c == '-' || c == '－' || c == '−' || c == '–' || c == '‒' || c == '―' || c == '—' || c == '_'
        || c == '＝' || c == '=' || c == '＊' || c == '*' || c == '～' || c == '~'
}

/// A line of at least four separator characters.
pub open spec fn is_separator(t: Seq<char>) -> bool {
    t.len() >= 4 && forall|i: int| 0 <= i < t.len() ==> is_separator_char(#[trigger] t[i])
}

/// Whether the separator line `j` counts: looking back past other separator
/// lines, it follows a blank line, the start of the text, or a finished
/// sentence.
pub open spec fn separator_active(ls: Seq<Seq<char>>, j: int) -> bool
    decreases j,
{
    if j <= 0 {
        true
    } else {
        let t = trim(ls[j - 1]);
        if t.len() == 0 {
            true
        } else if is_separator(t) {
            separator_active(ls, j - 1)
        } else {
            ends_sentence(t)
        }
    }
}

/// Line `i` after blanking: an active separator line becomes empty.
pub open spec fn blanked_line(ls: Seq<Seq<char>>, i: int) -> Seq<char> {
    let t = trim(ls[i]);
    if t.len() > 0 && is_separator(t) && separator_active(ls, i) {
        Seq::<char>::empty()
    } else {
        ls[i]
    }
}

/// The lines with active separator lines blanked.
pub open spec fn blanked(ls: Seq<Seq<char>>) -> Seq<Seq<char>> {
    Seq::new(ls.len(), |i: int| blanked_line(ls, i))
}

/// A CJK ideograph.
pub open spec fn is_cjk(c: char) -> bool {
    (0x3400 <= c as u32 && c as u32 <= 0x4DBF) || (0x4E00 <= c as u32 && c as u32 <= 0x9FFF)
}

/// A `第N章` marker directly followed by an ideograph, as in ordinary prose.
pub open spec fn glued(t: Seq<char>) -> bool {
    match leading_marker(t) {
        Some((_, a)) => a < t.len() && is_cjk(t[a]),
        None => false,
    }
}

/// The state of a detector that contracts speak of.
pub struct DetectorView {
    pub factors: ScoringFactors,
    pub volume_threshold: u32,
    pub max_title_length: usize,
}

/// The trimmed line has the form of a chapter title.
pub open spec fn chapter_format(t: Seq<char>, pattern: Option<Seq<char>>) -> bool {
    match pattern {
        Some(p) => pattern_matches(p, t),
        None => pattern_matches(chapter_pattern(), t) && !glued(t),
    }
}

/// The trimmed line has the form of a volume title.
pub open spec fn volume_format(t: Seq<char>, pattern: Option<Seq<char>>) -> bool {
    match pattern {
        Some(p) => pattern_matches(p, t),
        None => pattern_matches(DEFAULT_VOLUME_MATCH@, t) && !glued(t),
    }
}

/// The score of `text` when it is detected as a chapter title at line `n`.
pub open spec fn chapter_detection(d: DetectorView, text: Seq<char>, n: int, ls: Seq<Seq<char>>,
    pattern: Option<Seq<char>>) -> Option<ChapterScore> {
    let t = trim(text);
    if !chapter_format(t, pattern) {
        None
    } else if t.len() > d.max_title_length {
        None
    } else if has_prev(n, ls.len() as int) && trim(ls[n - 1]).len() > 0 && !ends_sentence(trim(ls[n - 1])) {
        None
    } else {
        let s = chapter_score(text, n, ls, pattern, d.max_title_length as nat, d.factors);
        if s.total_score >= d.factors.min_threshold as int * 1000 { Some(s) } else { None }
    }
}

/// Law: a `第N章` marker glued to the ideograph after it is prose. With
/// the default patterns, a line whose trimmed text opens with `第`, a run
/// of numerals and a marker (`章`, `回`, `节`, `集`, `幕`, `卷`, `部`)
/// directly followed by a CJK ideograph is detected neither as a chapter
/// nor as a volume title, whatever its context.
pub proof fn lemma_glued_marker_is_prose(d: DetectorView, text: Seq<char>, n: int, ls: Seq<Seq<char>>)
    requires
        leading_marker(trim(text)) matches Some((_, a)) && a < trim(text).len() && {
            let c = trim(text)[a] as u32;
            (0x3400 <= c && c <= 0x4DBF) || (0x4E00 <= c && c <= 0x9FFF)
        },
    ensures
        chapter_detection(d, text, n, ls, None) is None,
        volume_detection(d, text, n, ls, None) is None,
{
}

/// The score of `text` when it is detected as a volume title at line `n`.
pub open spec fn volume_detection(d: DetectorView, text: Seq<char>, n: int, ls: Seq<Seq<char>>,
    pattern: Option<Seq<char>>) -> Option<ChapterScore> {
    let t = trim(text);
    if !volume_format(t, pattern) {
        None
    } else if t.len() > d.max_title_length {
        None
    } else {
        let s = chapter_score(text, n, ls, pattern, d.max_title_length as nat, d.factors);
        if s.total_score >= d.volume_threshold as int * 1000 { Some(s) } else { None }
    }
}

/// The outcome of a detection.
#[derive(Debug, Clone, Copy)]
pub struct ChapterMatchResult {
    pub is_match: bool,
    pub score: ChapterScore,
    pub match_type: MatchType,
}

/// Kinds of titles.
#[derive(Debug, Clone, Copy, PartialEq, Eq, Structural)]
pub enum MatchType {
    Volume,
    Chapter,
    SubChapter,
    Part,
    NoMatch,
}

/// A detection result of the given kind for a score.
pub open spec fn found(s: Option<ChapterScore>, kind: MatchType) -> Option<ChapterMatchResult> {
    match s {
        Some(score) => Some(ChapterMatchResult { is_match: true, score, match_type: kind }),
        None => None,
    }
}

/// Whether `c` is a separator character.
fn separator_char(c: char) -> (r: bool)
    ensures
        r == is_separator_char(c),
{
    c == '-' || c == '－' || c == '−' || c == '–' || c == '‒' || c == '―' || c == '—' || c == '_'
        || c == '＝' || c == '=' || c == '＊' || c == '*' || c == '～' || c == '~'
}

/// Whether the trimmed line `t` is a separator line.
pub fn is_separator_line(t: &[char]) -> (r: bool)
    ensures
        r == is_separator(t@),
{
    if t.len() < 4 {
        return false;
    }
    let mut i: usize = 0;
    while i < t.len()
        invariant
            i <= t.len(),
            forall|k: int| 0 <= k < i ==> is_separator_char(#[trigger] t@[k]),
        decreases t.len() - i,
    {
        if !separator_char(t[i]) {
            return false;
        }
        i = i + 1;
    }
    true
}

/// Whether the separator line `idx` counts.
fn separator_is_active(ls: &[Vec<char>], idx: usize) -> (r: bool)
    requires
        idx < ls.len(),
    ensures
        r == separator_active(views(ls@), idx as int),
{
    let ghost vs = views(ls@);
    let mut j = idx;
    while j > 0
        invariant
            j <= idx < ls.len(),
            vs == views(ls@),
            separator_active(vs, idx as int) == separator_active(vs, j as int),
        decreases j,
    {
        assert(vs[j - 1] == ls@[j - 1]@);
        let t = trim_chars(&ls[j - 1]);
        if t.len() == 0 {
            return true;
        }
        if is_separator_line(&t) {
            j = j - 1;
        } else {
            return ends_with_sentence_ending(&t);
        }
    }
    true
}

/// The lines with active separator lines blanked; the detection context
/// of a text.
pub fn blank_separator_lines(ls: &[Vec<char>]) -> (r: Vec<Vec<char>>)
    ensures
        views(r@) == blanked(views(ls@)),
{
    let ghost vs = views(ls@);
    let mut r: Vec<Vec<char>> = Vec::new();
    let mut i: usize = 0;
    while i < ls.len()
        invariant
            i <= ls.len(),
            vs == views(ls@),
            r@.len() == i,
            forall|k: int| 0 <= k < i ==> #[trigger] r@[k]@ == blanked_line(vs, k),
        decreases ls.len() - i,
    {
        assert(vs[i as int] == ls@[i as int]@);
        let t = trim_chars(&ls[i]);
        let line = if t.len() > 0 && is_separator_line(&t) && separator_is_active(ls, i) {
            Vec::new()
        } else {
            let mut c = Vec::new();
            crate::text::extend_chars(&mut c, &ls[i]);
            c
        };
        assert(line@ == blanked_line(vs, i as int));
        r.push(line);
        i = i + 1;
    }
    assert(views(r@) =~= blanked(vs));
    r
}

/// Whether `c` is a CJK ideograph.
fn cjk(c: char) -> (r: bool)
    ensures
        r == is_cjk(c),
{
    (0x3400 <= c as u32 && c as u32 <= 0x4DBF) || (0x4E00 <= c as u32 && c as u32 <= 0x9FFF)
}

/// Whether a `第N章` marker at the start of `t` is directly followed by an
/// ideograph.
fn has_glued_cjk_after_marker(t: &[char]) -> (r: bool)
    ensures
        r == glued(t@),
{
    match leading_chapter_marker(t) {
        Some((_, after)) => after < t.len() && cjk(t[after]),
        None => false,
    }
}

/// Detects chapter and volume titles.
pub struct ChapterDetector {
    calculator: ScoreCalculator,
    volume_threshold: u32,
    max_title_length: usize,
    chapter_re: Option<CompiledPattern>,
    volume_re: Option<CompiledPattern>,
}

impl ChapterDetector {
    /// The compiled default patterns are those of the default rules.
    pub closed spec fn wf(self) -> bool {
        &&& match self.chapter_re {
            Some(c) => c.pattern() == chapter_pattern() && regex_valid(chapter_pattern()),
            None => !regex_valid(chapter_pattern()),
        }
        &&& match self.volume_re {
            Some(c) => c.pattern() == DEFAULT_VOLUME_MATCH@ && regex_valid(DEFAULT_VOLUME_MATCH@),
            None => !regex_valid(DEFAULT_VOLUME_MATCH@),
        }
    }

    /// The settings contracts speak of.
    pub closed spec fn view(self) -> DetectorView {
        DetectorView {
            factors: self.calculator.spec_factors(),
            volume_threshold: self.volume_threshold,
            max_title_length: self.max_title_length,
        }
    }

    /// A detector with the default weights, a volume threshold of 0.5 and
    /// a longest title of 35 characters.
    pub fn new() -> (r: Self)
        ensures
            r.wf(),
            r.view().volume_threshold == 500,
            r.view().max_title_length == 35,
            r.view().factors == (ScoringFactors {
                regex_weight: 300,
                line_position_weight: 400,
                length_weight: 100,
                context_weight: 100,
                format_weight: 100,
                min_threshold: 500,
            }),
    {
        let mut p = DEFAULT_CHAPTER_MATCH.to_owned();
        push_str(&mut p, CHAPTER_CASE_ALTERNATIVE);
        let chapter_re = match compile(p.as_str()) {
            Ok(c) => Some(c),
            Err(_) => None,
        };
        let volume_re = match compile(DEFAULT_VOLUME_MATCH) {
            Ok(c) => Some(c),
            Err(_) => None,
        };
        ChapterDetector {
            calculator: ScoreCalculator::new(),
            volume_threshold: 500,
            max_title_length: 35,
            chapter_re,
            volume_re,
        }
    }

    /// The same detector with another longest title.
    pub fn with_max_title_length(self, max_title_length: usize) -> (r: Self)
        requires
            self.wf(),
        ensures
            r.wf(),
            r.view() == (DetectorView { max_title_length, ..self.view() }),
    {
        ChapterDetector { max_title_length, ..self }
    }

    /// Whether the trimmed line matches the default pattern `re`.
    fn default_match(re: &Option<CompiledPattern>, t: &[char], pattern: Ghost<Seq<char>>) -> (r: bool)
        requires
            match re {
                Some(c) => c.pattern() == pattern@ && regex_valid(pattern@),
                None => !regex_valid(pattern@),
            },
        ensures
            r == pattern_matches(pattern@, t@),
    {
        match re {
            Some(c) => c.is_match(string_of(t).as_str()),
            None => false,
        }
    }

    /// Chapter detection of `text` at line `n`, with a custom pattern that
    /// compiled or none.
    pub fn detect_chapter_chars(&self, text: &[char], n: usize, ls: &[Vec<char>],
        choice: Option<&Option<CompiledPattern>>, pattern: Ghost<Option<Seq<char>>>) -> (r: Option<ChapterMatchResult>)
        requires
            self.wf(),
            choice_matches(choice, pattern@),
            !(choice matches Some(None)),
        ensures
            r == found(chapter_detection(self.view(), text@, n as int, views(ls@), pattern@), MatchType::Chapter),
    {
        let t = trim_chars(text);
        let has_format = match choice {
            Some(Some(c)) => c.is_match(string_of(&t).as_str()),
            _ => Self::default_match(&self.chapter_re, &t, Ghost(chapter_pattern())) && !has_glued_cjk_after_marker(&t),
        };
        if !has_format {
            return None;
        }
        if t.len() > self.max_title_length {
            return None;
        }
        if n > 0 && n < ls.len() {
            assert(views(ls@)[n - 1] == ls@[n - 1]@);
            let prev = trim_chars(&ls[n - 1]);
            if prev.len() > 0 && !ends_with_sentence_ending(&prev) {
                return None;
            }
        }
        let score = self.calculator.score_chars(text, n, ls, choice, pattern, self.max_title_length);
        if score.passes_threshold(self.calculator.factors()) {
            Some(ChapterMatchResult { is_match: true, score, match_type: MatchType::Chapter })
        } else {
            None
        }
    }

    /// Volume detection of `text` at line `n`, with a custom pattern that
    /// compiled or none.
    pub fn detect_volume_chars(&self, text: &[char], n: usize, ls: &[Vec<char>],
        choice: Option<&Option<CompiledPattern>>, pattern: Ghost<Option<Seq<char>>>) -> (r: Option<ChapterMatchResult>)
        requires
            self.wf(),
            choice_matches(choice, pattern@),
            !(choice matches Some(None)),
        ensures
            r == found(volume_detection(self.view(), text@, n as int, views(ls@), pattern@), MatchType::Volume),
    {
        let t = trim_chars(text);
        let has_format = match choice {
            Some(Some(c)) => c.is_match(string_of(&t).as_str()),
            _ => Self::default_match(&self.volume_re, &t, Ghost(DEFAULT_VOLUME_MATCH@)) && !has_glued_cjk_after_marker(&t),
        };
        if !has_format {
            return None;
        }
        if t.len() > self.max_title_length {
            return None;
        }
        let score = self.calculator.score_chars(text, n, ls, choice, pattern, self.max_title_length);
        if score.total_score >= self.volume_threshold as u64 * 1000 {
            Some(ChapterMatchResult { is_match: true, score, match_type: MatchType::Volume })
        } else {
            None
        }
    }

    /// Detects a chapter title; a custom pattern that does not compile is
    /// an error.
    pub fn try_detect_chapter(&self, text: &str, line_num: usize, lines: &[&str], custom_pattern: Option<&str>)
        -> (r: Result<Option<ChapterMatchResult>, KafError>)
        requires
            self.wf(),
        ensures
            match custom_pattern {
                Some(p) if !regex_valid(p@) => r matches Err(KafError::Regex(_)),
                _ => r == Ok::<Option<ChapterMatchResult>, KafError>(found(chapter_detection(self.view(), text@,
                    line_num as int, str_views(lines@), match custom_pattern { Some(p) => Some(p@), None => None }),
                    MatchType::Chapter)),
            },
    {
        let compiled = match custom_pattern {
            Some(p) => match compile(p) {
                Ok(c) => Some(Some(c)),
                Err(e) => return Err(KafError::Regex(e)),
            },
            None => None,
        };
        let t = chars_of(text);
        let ls = lines_chars(lines);
        let choice = match compiled { Some(ref x) => Some(x), None => None };
        Ok(self.detect_chapter_chars(&t, line_num, &ls, choice, Ghost(match custom_pattern { Some(p) => Some(p@), None => None })))
    }

    /// Detects a chapter title; a custom pattern that does not compile
    /// detects nothing.
    pub fn detect_chapter(&self, text: &str, line_num: usize, lines: &[&str], custom_pattern: Option<&str>)
        -> (r: Option<ChapterMatchResult>)
        requires
            self.wf(),
        ensures
            match custom_pattern {
                Some(p) if !regex_valid(p@) => r is None,
                _ => r == found(chapter_detection(self.view(), text@, line_num as int, str_views(lines@),
                    match custom_pattern { Some(p) => Some(p@), None => None }), MatchType::Chapter),
            },
    {
        match self.try_detect_chapter(text, line_num, lines, custom_pattern) {
            Ok(r) => r,
            Err(_) => None,
        }
    }

    /// Detects a volume title; a custom pattern that does not compile is an
    /// error.
    pub fn try_detect_volume(&self, text: &str, line_num: usize, lines: &[&str], custom_pattern: Option<&str>)
        -> (r: Result<Option<ChapterMatchResult>, KafError>)
        requires
            self.wf(),
        ensures
            match custom_pattern {
                Some(p) if !regex_valid(p@) => r matches Err(KafError::Regex(_)),
                _ => r == Ok::<Option<ChapterMatchResult>, KafError>(found(volume_detection(self.view(), text@,
                    line_num as int, str_views(lines@), match custom_pattern { Some(p) => Some(p@), None => None }),
                    MatchType::Volume)),
            },
    {
        let compiled = match custom_pattern {
            Some(p) => match compile(p) {
                Ok(c) => Some(Some(c)),
                Err(e) => return Err(KafError::Regex(e)),
            },
            None => None,
        };
        let t = chars_of(text);
        let ls = lines_chars(lines);
        let choice = match compiled { Some(ref x) => Some(x), None => None };
        Ok(self.detect_volume_chars(&t, line_num, &ls, choice, Ghost(match custom_pattern { Some(p) => Some(p@), None => None })))
    }

    /// Detects a volume title; a custom pattern that does not compile
    /// detects nothing.
    pub fn detect_volume(&self, text: &str, line_num: usize, lines: &[&str], custom_pattern: Option<&str>)
        -> (r: Option<ChapterMatchResult>)
        requires
            self.wf(),
        ensures
            match custom_pattern {
                Some(p) if !regex_valid(p@) => r is None,
                _ => r == found(volume_detection(self.view(), text@, line_num as int, str_views(lines@),
                    match custom_pattern { Some(p) => Some(p@), None => None }), MatchType::Volume),
            },
    {
        match self.try_detect_volume(text, line_num, lines, custom_pattern) {
            Ok(r) => r,
            Err(_) => None,
        }
    }

    /// Detects a subchapter title: a trimmed line starting with two spaces,
    /// a tab, or a number such as `1.2`, not too long, scoring at least 0.45.
    pub fn detect_subchapter(&self, text: &str, line_num: usize, lines: &[&str]) -> (r: Option<ChapterMatchResult>)
        ensures
            r == found({
                let t = trim(text@);
                if !(has_prefix(t, "  "@) || has_prefix(t, "\t"@) || pattern_matches(SUBCHAPTER_PATTERN@, t)) {
                    None
                } else if t.len() > self.view().max_title_length {
                    None
                } else {
                    let s = chapter_score(text@, line_num as int, str_views(lines@), None,
                        self.view().max_title_length as nat, self.view().factors);
                    if s.total_score >= 450_000 { Some(s) } else { None }
                }
            }, MatchType::SubChapter),
    {
        let t = chars_of(text);
        let tt = trim_chars(&t);
        let has_prefix = crate::text::starts_with_str(&tt, "  ") || crate::text::starts_with_str(&tt, "\t")
            || matches_pattern(SUBCHAPTER_PATTERN, string_of(&tt).as_str());
        if !has_prefix {
            return None;
        }
        if tt.len() > self.max_title_length {
            return None;
        }
        let ls = lines_chars(lines);
        let score = self.calculator.score_chars(&t, line_num, &ls, None, Ghost(None), self.max_title_length);
        if score.total_score >= 450_000 {
            Some(ChapterMatchResult { is_match: true, score, match_type: MatchType::SubChapter })
        } else {
            None
        }
    }

    /// Detects a part title: a line containing `篇` or `部分`, not too long,
    /// scoring at least 0.45.
    pub fn detect_part(&self, text: &str, line_num: usize, lines: &[&str]) -> (r: Option<ChapterMatchResult>)
        ensures
            r == found({
                let t = trim(text@);
                if !(crate::text::contains_seq(t, "篇"@) || crate::text::contains_seq(t, "部分"@)) {
                    None
                } else if t.len() > self.view().max_title_length {
                    None
                } else {
                    let s = chapter_score(text@, line_num as int, str_views(lines@), None,
                        self.view().max_title_length as nat, self.view().factors);
                    if s.total_score >= 450_000 { Some(s) } else { None }
                }
            }, MatchType::Part),
    {
        let t = chars_of(text);
        let tt = trim_chars(&t);
        if !contains_str(&tt, "篇") && !contains_str(&tt, "部分") {
            return None;
        }
        if tt.len() > self.max_title_length {
            return None;
        }
        let ls = lines_chars(lines);
        let score = self.calculator.score_chars(&t, line_num, &ls, None, Ghost(None), self.max_title_length);
        if score.total_score >= 450_000 {
            Some(ChapterMatchResult { is_match: true, score, match_type: MatchType::Part })
        } else {
            None
        }
    }

    /// Every chapter title among `lines`: its line number, the trimmed
    /// line and the detection; blank lines are skipped.
    pub fn detect_all_chapters(&self, lines: &[&str], custom_pattern: Option<&str>)
        -> (r: Vec<(usize, String, ChapterMatchResult)>)
        requires
            self.wf(),
        ensures
            forall|k: int| 0 <= k < r@.len() ==> {
                let (n, t, m) = #[trigger] r@[k];
                &&& n < lines@.len()
                &&& t@ == trim(lines@[n as int]@)
                &&& t@.len() > 0
                &&& Some(m) == found(chapter_detection(self.view(), t@, n as int, str_views(lines@),
                    match custom_pattern { Some(p) => Some(p@), None => None }), MatchType::Chapter)
            },
            forall|k: int, j: int| 0 <= k < j < r@.len() ==> r@[k].0 < r@[j].0,
            custom_pattern is None || regex_valid(custom_pattern->0@) ==>
                forall|n: int| 0 <= n < lines@.len() && trim(lines@[n]@).len() > 0
                    && found(chapter_detection(self.view(), trim(lines@[n]@), n, str_views(lines@),
                    match custom_pattern { Some(p) => Some(p@), None => None }), MatchType::Chapter) is Some
                    ==> exists|k: int| 0 <= k < r@.len() && r@[k].0 == n,
    {
        let ghost pat = match custom_pattern { Some(p) => Some(p@), None => None };
        let mut results: Vec<(usize, String, ChapterMatchResult)> = Vec::new();
        let compiled = match custom_pattern {
            Some(p) => match compile(p) {
                Ok(c) => Some(Some(c)),
                Err(_) => return results,
            },
            None => None,
        };
        let choice = match compiled { Some(ref x) => Some(x), None => None };
        let ls = lines_chars(lines);
        let mut i: usize = 0;
        while i < lines.len()
            invariant
                i <= lines@.len(),
                self.wf(),
                views(ls@) == str_views(lines@),
                choice_matches(choice, pat),
                !(choice matches Some(None)),
                pat == match custom_pattern { Some(p) => Some(p@), None => None },
                forall|k: int| 0 <= k < results@.len() ==> {
                    let (n, t, m) = #[trigger] results@[k];
                    &&& n < i
                    &&& t@ == trim(lines@[n as int]@)
                    &&& t@.len() > 0
                    &&& Some(m) == found(chapter_detection(self.view(), t@, n as int, str_views(lines@), pat), MatchType::Chapter)
                },
                forall|k: int, j: int| 0 <= k < j < results@.len() ==> results@[k].0 < results@[j].0,
                forall|n: int| 0 <= n < i && trim(lines@[n]@).len() > 0
                    && found(chapter_detection(self.view(), trim(lines@[n]@), n, str_views(lines@), pat), MatchType::Chapter) is Some
                    ==> exists|k: int| 0 <= k < results@.len() && results@[k].0 == n,
            decreases lines.len() - i,
        {
            assert(views(ls@)[i as int] == lines@[i as int]@);
            let t = trim_chars(&ls[i]);
            if t.len() > 0 {
                let ghost before = results@;
                if let Some(m) = self.detect_chapter_chars(&t, i, &ls, choice, Ghost(pat)) {
                    results.push((i, string_of(&t), m));
                    assert(results@[results@.len() - 1].0 == i);
                    assert forall|n: int| 0 <= n < i + 1 && trim(lines@[n]@).len() > 0
                        && found(chapter_detection(self.view(), trim(lines@[n]@), n, str_views(lines@), pat), MatchType::Chapter) is Some
                        implies exists|k: int| 0 <= k < results@.len() && results@[k].0 == n by {
                        if n < i {
                            let k = choose|k: int| 0 <= k < before.len() && before[k].0 == n;
                            assert(results@[k] == before[k]);
                        } else {
                            assert(results@[results@.len() - 1].0 == n);
                        }
                    }
                }
            }
            i = i + 1;
        }
        results
    }

    /// Replaces the scoring weights.
    pub fn set_scoring_factors(&mut self, factors: ScoringFactors)
        requires
            old(self).wf(),
        ensures
            final(self).wf(),
            final(self).view() == (DetectorView { factors, ..old(self).view() }),
    {
        self.calculator.set_factors(factors);
    }

    /// The lowest total score of a volume title, in thousandths.
    pub fn volume_threshold(&self) -> (r: u32)
        ensures
            r == self.view().volume_threshold,
    {
        self.volume_threshold
    }

    /// The score calculator.
    pub fn calculator(&self) -> (r: &ScoreCalculator)
        ensures
            r.spec_factors() == self.view().factors,
    {
        &self.calculator
    }
}

} // verus!
