//! Scoring of chapter title candidates.
//!
//! Scores are fixed-point numbers: each partial score and each weight is in
//! thousandths (1000 stands for 1.0), so the weighted total is in
//! millionths.

use vstd::prelude::*;
use crate::text::{
    ascii_lower_seq, ascii_lowercase, byte_len, byte_len_exec, chars_eq, chars_eq_str, chars_of,
    contains_char, contains_seq, contains_str, ends_with_str, has_prefix, has_suffix, starts_with,
    starts_with_str, string_of, trim, trim_chars, views, dec, decimal, digit_char,
};
use crate::utils::regex::{compile, pattern_matches, regex_matches, regex_valid, CompiledPattern};

verus! {

/// Whether `c` ends a sentence.
pub open spec fn is_sentence_ending(c: char) -> bool {
    c == '。' || c == '！' || c == '？' || c == '.' || c == '!' || c == '?' || c == '"'
        || c == '”' || c == '…' || c == '」' || c == '』' || c == '）' || c == ')'
}

/// Whether `s` ends with a sentence ending.
pub open spec fn ends_sentence(s: Seq<char>) -> bool {
    s.len() > 0 && is_sentence_ending(s.last())
}

/// Whether `c` ends a sentence.
pub fn sentence_ending(c: char) -> (r: bool)
    ensures
        r == is_sentence_ending(c),
{
    c == '。' || c == '！' || c == '？' || c == '.' || c == '!' || c == '?' || c == '"'
        || c == '”' || c == '…' || c == '」' || c == '』' || c == '）' || c == ')'
}

/// Whether `s` ends with a sentence ending.
pub fn ends_with_sentence_ending(s: &[char]) -> (r: bool)
    ensures
        r == ends_sentence(s@),
{
    s.len() > 0 && sentence_ending(s[s.len() - 1])
}

/// Punctuation counted by the format score.
pub open spec fn is_punctuation(c: char) -> bool {
    c == '，' || c == '。' || c == '！' || c == '？' || c == '；' || c == '：' || c == ','
        || c == '.' || c == '!' || c == '?' || c == ';' || c == ':' || c == ' '
}

/// Number of punctuation characters in `s`.
pub open spec fn punct_count(s: Seq<char>) -> nat
    decreases s.len(),
{
    if s.len() == 0 {
        0
    } else {
        punct_count(s.drop_last()) + (if is_punctuation(s.last()) { 1nat } else { 0nat })
    }
}

/// The ASCII decimal digit for `d < 10`.

/// The Chinese numerals `零` to `十` that chapter prefixes use.
pub open spec fn cn_numeral(k: int) -> char {
    if k == 0 { '零' }
    else if k == 1 { '一' }
    else if k == 2 { '二' }
    else if k == 3 { '三' }
    else if k == 4 { '四' }
    else if k == 5 { '五' }
    else if k == 6 { '六' }
    else if k == 7 { '七' }
    else if k == 8 { '八' }
    else if k == 9 { '九' }
    else { '十' }
}

/// The known chapter prefixes: `第N章` and `第N节` for `N` from 0 to 1000,
/// and `第X章` for the Chinese numerals `零` to `十`.
pub open spec fn is_chapter_prefix(p: Seq<char>) -> bool {
    (exists|i: nat| i <= 1000 && (p == seq!['第'] + dec(i) + seq!['章'] || p == seq!['第'] + dec(i) + seq!['节']))
    || (exists|k: int| 0 <= k <= 10 && p == seq!['第', cn_numeral(k), '章'])
}

/// Characters allowed in the number of a `第…` marker.
pub open spec fn is_marker_number_char(c: char) -> bool {
    ('0' <= c && c <= '9') || c == '一' || c == '二' || c == '三' || c == '四' || c == '五'
        || c == '六' || c == '七' || c == '八' || c == '九' || c == '十' || c == '零' || c == '〇'
        || c == '百' || c == '千' || c == '万' || c == '两' || c == ' '
}

/// Characters that end a `第…` marker.
pub open spec fn is_marker_char(c: char) -> bool {
    c == '章' || c == '回' || c == '节' || c == '集' || c == '幕' || c == '卷' || c == '部'
}

/// End of the run of number characters of `s` that starts at `i`.
pub open spec fn number_run_end(s: Seq<char>, i: int) -> int
    decreases s.len() - i,
{
    if 0 <= i < s.len() && is_marker_number_char(s[i]) {
        number_run_end(s, i + 1)
    } else {
        i
    }
}

/// When `s` begins with `第…[章回节集幕卷部]`, the marker character and
/// the index after it.
pub open spec fn leading_marker(s: Seq<char>) -> Option<(char, int)> {
    if s.len() > 0 && s[0] == '第' {
        let e = number_run_end(s, 1);
        if e < s.len() && is_marker_char(s[e]) {
            Some((s[e], e + 1))
        } else {
            None
        }
    } else {
        None
    }
}

/// `s` is a non-empty run of ASCII digits.
pub open spec fn all_ascii_digits(s: Seq<char>) -> bool {
    s.len() > 0 && forall|i: int| 0 <= i < s.len() ==> '0' <= #[trigger] s[i] && s[i] <= '9'
}

/// The first `n` characters of `s`, ASCII-lowered, equal `m`.
pub open spec fn ascii_prefix_ci(s: Seq<char>, m: Seq<char>) -> bool {
    m.len() <= s.len() && ascii_lower_seq(s.take(m.len() as int)) == m
}

/// Score of the default title forms for a trimmed line.
pub open spec fn default_rule_score(t: Seq<char>) -> u32 {
    let count = t.len();
    let digits = if t.len() > 0 && t.last() == '、' { t.drop_last() } else { t };
    if all_ascii_digits(digits) {
        if digits.len() <= 4 || (t.len() > 0 && t.last() == '、') { 200 } else { 0 }
    } else if t == "引子"@ || t == "楔子"@ || t == "序章"@ || t == "番外"@ {
        900
    } else if (ascii_prefix_ci(t, "chapter"@) && count <= 7 + 21)
        || (ascii_prefix_ci(t, "section"@) && count <= 7 + 21)
        || (ascii_prefix_ci(t, "page"@) && count <= 4 + 21) {
        700
    } else if has_prefix(t, "最终章"@) && count <= 24 {
        700
    } else if has_prefix(t, "完本感言"@) && count <= 8 {
        900
    } else if has_prefix(t, "序章"@) || has_prefix(t, "番外"@) || has_prefix(t, "章节"@) {
        300
    } else {
        match leading_marker(t) {
            Some((m, _)) => if m == '回' || m == '集' || m == '幕' || m == '卷' || m == '部' { 300 } else { 0 },
            None => 0,
        }
    }
}

/// The patterns for numbered titles, in the order they are tried.
pub open spec fn number_pattern(k: int) -> Seq<char> {
    if k == 0 { NUMBER_PATTERN_0@ }
    else if k == 1 { NUMBER_PATTERN_1@ }
    else if k == 2 { NUMBER_PATTERN_2@ }
    else if k == 3 { NUMBER_PATTERN_3@ }
    else { NUMBER_PATTERN_4@ }
}

/// Some pattern for numbered titles compiles and matches `s`.
pub open spec fn matches_number_pattern(s: Seq<char>) -> bool {
    exists|k: int| 0 <= k < 5 && pattern_matches(number_pattern(k), s)
}

/// Score of how well `text` matches a chapter title pattern: a custom
/// pattern decides alone; otherwise the known chapter prefixes, then the
/// numbered-title patterns, then the default title forms.
pub open spec fn regex_score(text: Seq<char>, pattern: Option<Seq<char>>) -> u32 {
    match pattern {
        Some(p) => if pattern_matches(p, text) { 1000 } else { 0 },
        None => {
            if is_chapter_prefix(text) {
                900
            } else if exists|p: Seq<char>| is_chapter_prefix(p) && has_prefix(text, p) {
                300
            } else if matches_number_pattern(text) {
                let t = trim(text);
                if (has_prefix(t, "第"@) && contains_seq(t, "章"@)) || has_prefix(t, "Chapter"@)
                    || has_prefix(t, "chapter"@) {
                    700
                } else {
                    200
                }
            } else {
                default_rule_score(trim(text))
            }
        },
    }
}

/// The line `n` exists and has a line before it.
pub open spec fn has_prev(n: int, len: int) -> bool {
    0 < n && n < len
}

/// Score of the position of line `n`: a blank line before it, or a
/// finished sentence before it, and a blank line after it.
pub open spec fn line_position_score(n: int, ls: Seq<Seq<char>>) -> u32 {
    let before: int = if has_prev(n, ls.len() as int) {
        let prev = trim(ls[n - 1]);
        if prev.len() == 0 { 600 } else if ends_sentence(prev) { 400 } else { -1 }
    } else {
        400
    };
    if before < 0 {
        0
    } else {
        let after: int = if n + 1 < ls.len() && trim(ls[n + 1]).len() == 0 { 400 } else { 0 };
        if before + after > 1000 { 1000 } else { (before + after) as u32 }
    }
}

/// Score of the length of a title, in characters.
pub open spec fn length_score(text: Seq<char>, max_title_length: nat) -> u32 {
    let len = trim(text).len();
    if len < 2 {
        0
    } else if len > max_title_length {
        200
    } else if 3 <= len && len <= 20 {
        1000
    } else {
        800
    }
}

/// Score of the surroundings of line `n`: blank lines around it and long
/// lines next to it.
pub open spec fn context_score(n: int, ls: Seq<Seq<char>>) -> u32 {
    let before_blank = has_prev(n, ls.len() as int) && trim(ls[n - 1]).len() == 0;
    let after_blank = n + 1 < ls.len() && trim(ls[n + 1]).len() == 0;
    let base: int = if before_blank && after_blank { 700 } else if before_blank || after_blank { 400 } else { 0 };
    let prev: int = if has_prev(n, ls.len() as int) && byte_len(trim(ls[n - 1])) > 50 { 300 } else { 0 };
    let next: int = if n + 1 < ls.len() && byte_len(trim(ls[n + 1])) > 50 { 300 } else { 0 };
    if base + prev + next > 1000 { 1000 } else { (base + prev + next) as u32 }
}

/// Score of the shape of a title line.
pub open spec fn format_score(text: Seq<char>) -> u32 {
    let t = trim(text);
    let chapter_start: int = if has_prefix(t, "第"@) || has_prefix(t, "卷"@) || has_prefix(t, "部"@)
        || has_prefix(t, "Part"@) || has_prefix(t, "Chapter"@)
        || (byte_len(t) > 2 && '0' <= t[0] && t[0] <= '9') { 500 } else { 0 };
    let pronoun: int = if has_prefix(t, "这"@) || has_prefix(t, "那"@) || has_prefix(t, "我"@)
        || has_prefix(t, "你"@) || has_prefix(t, "他"@) || has_prefix(t, "她"@)
        || has_prefix(t, "它"@) { -500 } else { 0 };
    let copula: int = if has_prefix(t, "是"@) { -500 } else { 0 };
    let punct: int = if t.len() > 0 && 10 * punct_count(t) < 3 * t.len() { 300 } else { -300 };
    let size: int = if 3 <= byte_len(t) && byte_len(t) <= 20 { 200 } else if byte_len(t) > 30 { -200 } else { 0 };
    let marker: int = if contains_seq(t, "第"@) && (contains_seq(t, "章"@) || contains_seq(t, "节"@)
        || contains_seq(t, "卷"@) || contains_seq(t, "部"@)) { 100 } else { 0 };
    let question: int = if t.contains('?') || t.contains('！') || t.contains('？') { -200 } else { 0 };
    let colon: int = if t.contains('：') || t.contains(':') { 100 } else { 0 };
    let sum = chapter_start + pronoun + copula + punct + size + marker + question + colon;
    if sum < 0 { 0 } else if sum > 1000 { 1000 } else { sum as u32 }
}

/// Pattern of `第N章` with Arabic digits.
pub const NUMBER_PATTERN_0: &'static str = r"第\s*\d+\s*章";
/// Pattern of `第N章` with Chinese numerals.
pub const NUMBER_PATTERN_1: &'static str = r"第\s*[一二三四五六七八九十零〇百千两]+\s*章";
/// Pattern of `Chapter N`.
pub const NUMBER_PATTERN_2: &'static str = r"Chapter\s*\d+";
/// Pattern of `N. title`.
pub const NUMBER_PATTERN_3: &'static str = r"\d+\.\s*\S+";
/// Pattern of `[N] title`.
pub const NUMBER_PATTERN_4: &'static str = r"\[\d+\]\s*\S+";

/// Weights of the partial scores and the threshold, in thousandths.
#[derive(Debug, Clone, Copy)]
pub struct ScoringFactors {
    pub regex_weight: u32,
    pub line_position_weight: u32,
    pub length_weight: u32,
    pub context_weight: u32,
    pub format_weight: u32,
    pub min_threshold: u32,
}

impl Default for ScoringFactors {
    fn default() -> (r: Self)
        ensures
            r.regex_weight == 300,
            r.line_position_weight == 400,
            r.length_weight == 100,
            r.context_weight == 100,
            r.format_weight == 100,
            r.min_threshold == 500,
    {
        ScoringFactors {
            regex_weight: 300,
            line_position_weight: 400,
            length_weight: 100,
            context_weight: 100,
            format_weight: 100,
            min_threshold: 500,
        }
    }
}

/// Partial scores in thousandths and their weighted total in millionths.
#[derive(Debug, Clone, Copy)]
pub struct ChapterScore {
    pub regex_score: u32,
    pub line_position_score: u32,
    pub length_score: u32,
    pub context_score: u32,
    pub format_score: u32,
    pub total_score: u64,
}

/// The weighted total of the partial scores of `s`.
pub open spec fn weighted_total(s: ChapterScore, f: ScoringFactors) -> int {
    s.regex_score * f.regex_weight + s.line_position_score * f.line_position_weight
        + s.length_score * f.length_weight + s.context_score * f.context_weight
        + s.format_score * f.format_weight
}

proof fn lemma_weighted_bound(x: u32, w: u32)
    requires
        x <= 1000,
    ensures
        x as int * w as int <= 1000 * 0xFFFF_FFFF,
{
    assert(x as int * w as int <= 1000 * 0xFFFF_FFFF) by (nonlinear_arith)
        requires
            x <= 1000,
            w <= 0xFFFF_FFFF,
    ;
}

impl ChapterScore {
    /// All scores zero.
    pub fn new() -> (r: Self)
        ensures
            r.regex_score == 0 && r.line_position_score == 0 && r.length_score == 0,
            r.context_score == 0 && r.format_score == 0 && r.total_score == 0,
    {
        ChapterScore {
            regex_score: 0,
            line_position_score: 0,
            length_score: 0,
            context_score: 0,
            format_score: 0,
            total_score: 0,
        }
    }

    /// Sets the total to the weighted sum of the partial scores; partial
    /// scores are at most 1000.
    pub fn calculate_total(&mut self, factors: &ScoringFactors)
        requires
            old(self).regex_score <= 1000,
            old(self).line_position_score <= 1000,
            old(self).length_score <= 1000,
            old(self).context_score <= 1000,
            old(self).format_score <= 1000,
        ensures
            final(self).total_score == weighted_total(*old(self), *factors),
            final(self).regex_score == old(self).regex_score,
            final(self).line_position_score == old(self).line_position_score,
            final(self).length_score == old(self).length_score,
            final(self).context_score == old(self).context_score,
            final(self).format_score == old(self).format_score,
    {
        proof {
            lemma_weighted_bound(self.regex_score, factors.regex_weight);
            lemma_weighted_bound(self.line_position_score, factors.line_position_weight);
            lemma_weighted_bound(self.length_score, factors.length_weight);
            lemma_weighted_bound(self.context_score, factors.context_weight);
            lemma_weighted_bound(self.format_score, factors.format_weight);
        }
        let a = self.regex_score as u64 * factors.regex_weight as u64;
        let b = self.line_position_score as u64 * factors.line_position_weight as u64;
        let c = self.length_score as u64 * factors.length_weight as u64;
        let d = self.context_score as u64 * factors.context_weight as u64;
        let e = self.format_score as u64 * factors.format_weight as u64;
        self.total_score = a + b + c + d + e;
    }

    /// Whether the total reaches the threshold.
    pub fn passes_threshold(&self, factors: &ScoringFactors) -> (r: bool)
        ensures
            r == (self.total_score >= factors.min_threshold as int * 1000),
    {
        self.total_score >= factors.min_threshold as u64 * 1000
    }
}

/// Whether `c` is counted by the format score.
fn punctuation(c: char) -> (r: bool)
    ensures
        r == is_punctuation(c),
{
    c == '，' || c == '。' || c == '！' || c == '？' || c == '；' || c == '：' || c == ','
        || c == '.' || c == '!' || c == '?' || c == ';' || c == ':' || c == ' '
}

/// Number of punctuation characters in `s`.
fn count_punctuation(s: &[char]) -> (r: usize)
    ensures
        r == punct_count(s@),
{
    let mut n: usize = 0;
    let mut i: usize = 0;
    while i < s.len()
        invariant
            i <= s.len(),
            n == punct_count(s@.take(i as int)),
            n <= i,
        decreases s.len() - i,
    {
        assert(s@.take(i + 1).drop_last() == s@.take(i as int));
        if punctuation(s[i]) {
            n = n + 1;
        }
        i = i + 1;
    }
    assert(s@.take(s.len() as int) == s@);
    n
}

/// `第` followed by `middle` and `end`.
fn marked(middle: &[char], end: char) -> (r: Vec<char>)
    ensures
        r@ == seq!['第'] + middle@ + seq![end],
{
    let mut v = Vec::new();
    v.push('第');
    crate::text::extend_chars(&mut v, middle);
    v.push(end);
    assert(v@ =~= seq!['第'] + middle@ + seq![end]);
    v
}

/// The Chinese numeral `cn_numeral(k)`.
fn cn_numeral_exec(k: usize) -> (r: char)
    requires
        k <= 10,
    ensures
        r == cn_numeral(k as int),
{
    if k == 0 { '零' }
    else if k == 1 { '一' }
    else if k == 2 { '二' }
    else if k == 3 { '三' }
    else if k == 4 { '四' }
    else if k == 5 { '五' }
    else if k == 6 { '六' }
    else if k == 7 { '七' }
    else if k == 8 { '八' }
    else if k == 9 { '九' }
    else { '十' }
}

/// Whether `text` is a known chapter prefix, and whether it begins with one.
fn chapter_prefix_flags(text: &[char]) -> (r: (bool, bool))
    ensures
        r.0 == is_chapter_prefix(text@),
        r.1 == exists|p: Seq<char>| is_chapter_prefix(p) && has_prefix(text@, p),
{
    let mut exact = false;
    let mut found = false;
    let mut i: u32 = 0;
    while i <= 1000
        invariant
            i <= 1001,
            exact == exists|j: nat| j < i && (text@ == seq!['第'] + dec(j) + seq!['章'] || text@ == seq!['第'] + dec(j) + seq!['节']),
            found == exists|j: nat| j < i && (has_prefix(text@, seq!['第'] + dec(j) + seq!['章']) || has_prefix(text@, seq!['第'] + dec(j) + seq!['节'])),
        decreases 1001 - i,
    {
        let d = decimal(i as u64);
        let p1 = marked(&d, '章');
        let p2 = marked(&d, '节');
        if chars_eq(text, &p1) || chars_eq(text, &p2) {
            exact = true;
        }
        if starts_with(text, &p1) || starts_with(text, &p2) {
            found = true;
        }
        i = i + 1;
    }
    let mut k: usize = 0;
    while k <= 10
        invariant
            k <= 11,
            exact == ((exists|j: nat| j <= 1000 && (text@ == seq!['第'] + dec(j) + seq!['章'] || text@ == seq!['第'] + dec(j) + seq!['节']))
                || exists|q: int| 0 <= q < k && text@ == seq!['第', cn_numeral(q), '章']),
            found == ((exists|j: nat| j <= 1000 && (has_prefix(text@, seq!['第'] + dec(j) + seq!['章']) || has_prefix(text@, seq!['第'] + dec(j) + seq!['节'])))
                || exists|q: int| 0 <= q < k && has_prefix(text@, seq!['第', cn_numeral(q), '章'])),
        decreases 11 - k,
    {
        let mut p = Vec::new();
        p.push('第');
        p.push(cn_numeral_exec(k));
        p.push('章');
        assert(p@ =~= seq!['第', cn_numeral(k as int), '章']);
        if chars_eq(text, &p) {
            exact = true;
        }
        if starts_with(text, &p) {
            found = true;
        }
        k = k + 1;
    }
    assert(found == exists|p: Seq<char>| is_chapter_prefix(p) && has_prefix(text@, p)) by {
        if found {
            if exists|j: nat| j <= 1000 && has_prefix(text@, seq!['第'] + dec(j) + seq!['章']) {
                let j = choose|j: nat| j <= 1000 && has_prefix(text@, seq!['第'] + dec(j) + seq!['章']);
                assert(is_chapter_prefix(seq!['第'] + dec(j) + seq!['章']));
            } else if exists|j: nat| j <= 1000 && has_prefix(text@, seq!['第'] + dec(j) + seq!['节']) {
                let j = choose|j: nat| j <= 1000 && has_prefix(text@, seq!['第'] + dec(j) + seq!['节']);
                assert(is_chapter_prefix(seq!['第'] + dec(j) + seq!['节']));
            } else {
                let q = choose|q: int| 0 <= q < 11 && has_prefix(text@, seq!['第', cn_numeral(q), '章']);
                assert(is_chapter_prefix(seq!['第', cn_numeral(q), '章']));
            }
        }
    }
    (exact, found)
}

/// End of the run of marker number characters of `s` from index `i`.
fn number_run_end_exec(s: &[char], i: usize) -> (r: usize)
    requires
        i <= s.len(),
    ensures
        r as int == number_run_end(s@, i as int),
{
    let mut j = i;
    while j < s.len() && marker_number_char(s[j])
        invariant
            i <= j <= s.len(),
            number_run_end(s@, i as int) == number_run_end(s@, j as int),
        decreases s.len() - j,
    {
        j = j + 1;
    }
    j
}

/// Whether `c` may appear in the number of a `第…` marker.
fn marker_number_char(c: char) -> (r: bool)
    ensures
        r == is_marker_number_char(c),
{
    ('0' <= c && c <= '9') || c == '一' || c == '二' || c == '三' || c == '四' || c == '五'
        || c == '六' || c == '七' || c == '八' || c == '九' || c == '十' || c == '零' || c == '〇'
        || c == '百' || c == '千' || c == '万' || c == '两' || c == ' '
}

/// Whether `c` ends a `第…` marker.
fn marker_char(c: char) -> (r: bool)
    ensures
        r == is_marker_char(c),
{
    c == '章' || c == '回' || c == '节' || c == '集' || c == '幕' || c == '卷' || c == '部'
}

/// When `chars` begins with `第…[章回节集幕卷部]`, the marker character and
/// the index after it.
pub fn leading_chapter_marker(chars: &[char]) -> (r: Option<(char, usize)>)
    ensures
        match r {
            Some((c, i)) => leading_marker(chars@) == Some((c, i as int)),
            None => leading_marker(chars@) is None,
        },
{
    if chars.len() == 0 || chars[0] != '第' {
        return None;
    }
    let e = number_run_end_exec(chars, 1);
    if e < chars.len() && marker_char(chars[e]) {
        Some((chars[e], e + 1))
    } else {
        None
    }
}

/// Whether `s` is a non-empty run of ASCII digits.
fn ascii_digits(s: &[char]) -> (r: bool)
    ensures
        r == all_ascii_digits(s@),
{
    if s.len() == 0 {
        return false;
    }
    let mut i: usize = 0;
    while i < s.len()
        invariant
            i <= s.len(),
            forall|k: int| 0 <= k < i ==> '0' <= #[trigger] s@[k] && s@[k] <= '9',
        decreases s.len() - i,
    {
        if !('0' <= s[i] && s[i] <= '9') {
            return false;
        }
        i = i + 1;
    }
    true
}

/// Whether the first characters of `s`, ASCII-lowered, are `m`.
fn ascii_prefix_ci_exec(s: &[char], m: &str) -> (r: bool)
    ensures
        r == ascii_prefix_ci(s@, m@),
{
    let mv = chars_of(m);
    if mv.len() > s.len() {
        return false;
    }
    let lowered = ascii_lowercase(s);
    let r = starts_with(&lowered, &mv);
    assert(ascii_lower_seq(s@.take(mv@.len() as int)) =~= ascii_lower_seq(s@).take(mv@.len() as int));
    r
}

/// Score of the default title forms for a trimmed line.
fn default_rule(t: &[char]) -> (r: u32)
    ensures
        r == default_rule_score(t@),
{
    let count = t.len();
    let ends_comma = t.len() > 0 && t[t.len() - 1] == '、';
    let mut digits: Vec<char> = Vec::new();
    crate::text::extend_chars(&mut digits, t);
    if ends_comma {
        digits.pop();
    }
    assert(digits@ == (if t@.len() > 0 && t@.last() == '、' { t@.drop_last() } else { t@ }));
    if ascii_digits(&digits) {
        return if digits.len() <= 4 || ends_comma { 200 } else { 0 };
    }
    if chars_eq_str(t, "引子") || chars_eq_str(t, "楔子") || chars_eq_str(t, "序章") || chars_eq_str(t, "番外") {
        return 900;
    }
    if (ascii_prefix_ci_exec(t, "chapter") && count <= 7 + 21)
        || (ascii_prefix_ci_exec(t, "section") && count <= 7 + 21)
        || (ascii_prefix_ci_exec(t, "page") && count <= 4 + 21) {
        return 700;
    }
    if starts_with_str(t, "最终章") && count <= 24 {
        return 700;
    }
    if starts_with_str(t, "完本感言") && count <= 8 {
        return 900;
    }
    if starts_with_str(t, "序章") || starts_with_str(t, "番外") || starts_with_str(t, "章节") {
        return 300;
    }
    match leading_chapter_marker(t) {
        Some((m, _)) => if m == '回' || m == '集' || m == '幕' || m == '卷' || m == '部' { 300 } else { 0 },
        None => 0,
    }
}

/// Position score of line `n`.
fn line_position(n: usize, ls: &[Vec<char>]) -> (r: u32)
    ensures
        r == line_position_score(n as int, views(ls@)),
{
    let ghost vs = views(ls@);
    let mut score: u32 = 0;
    if n > 0 && n < ls.len() {
        assert(vs[n - 1] == ls@[n - 1]@);
        let prev = trim_chars(&ls[n - 1]);
        if prev.len() == 0 {
            score = 600;
        } else if ends_with_sentence_ending(&prev) {
            score = 400;
        } else {
            return 0;
        }
    } else {
        score = 400;
    }
    if n < ls.len() && n + 1 < ls.len() {
        assert(vs[n + 1] == ls@[n + 1]@);
        let next = trim_chars(&ls[n + 1]);
        if next.len() == 0 {
            score = score + 400;
        }
    }
    if score > 1000 { 1000 } else { score }
}

/// Length score of `text`.
fn length(text: &[char], max_title_length: usize) -> (r: u32)
    ensures
        r == length_score(text@, max_title_length as nat),
{
    let len = trim_chars(text).len();
    if len < 2 {
        0
    } else if len > max_title_length {
        200
    } else if 3 <= len && len <= 20 {
        1000
    } else {
        800
    }
}

/// Context score of line `n`.
fn context(n: usize, ls: &[Vec<char>]) -> (r: u32)
    ensures
        r == context_score(n as int, views(ls@)),
{
    let ghost vs = views(ls@);
    let mut before_blank = false;
    let mut after_blank = false;
    let mut prev_long = false;
    let mut next_long = false;
    if n > 0 && n < ls.len() {
        assert(vs[n - 1] == ls@[n - 1]@);
        let prev = trim_chars(&ls[n - 1]);
        before_blank = prev.len() == 0;
        prev_long = byte_len_exec(&prev) > 50;
    }
    if n < ls.len() && n + 1 < ls.len() {
        assert(vs[n + 1] == ls@[n + 1]@);
        let next = trim_chars(&ls[n + 1]);
        after_blank = next.len() == 0;
        next_long = byte_len_exec(&next) > 50;
    }
    let mut score: u32 = if before_blank && after_blank { 700 } else if before_blank || after_blank { 400 } else { 0 };
    if prev_long {
        score = score + 300;
    }
    if next_long {
        score = score + 300;
    }
    if score > 1000 { 1000 } else { score }
}

/// Format score of `text`.
#[verifier::rlimit(30)]
fn format(text: &[char]) -> (r: u32)
    ensures
        r == format_score(text@),
{
    let t = trim_chars(text);
    let blen = byte_len_exec(&t);
    let mut score: i32 = 0;
    if starts_with_str(&t, "第") || starts_with_str(&t, "卷") || starts_with_str(&t, "部")
        || starts_with_str(&t, "Part") || starts_with_str(&t, "Chapter")
        || (blen > 2 && '0' <= t[0] && t[0] <= '9') {
        score = score + 500;
    }
    if starts_with_str(&t, "这") || starts_with_str(&t, "那") || starts_with_str(&t, "我")
        || starts_with_str(&t, "你") || starts_with_str(&t, "他") || starts_with_str(&t, "她")
        || starts_with_str(&t, "它") {
        score = score - 500;
    }
    if starts_with_str(&t, "是") {
        score = score - 500;
    }
    let pc = count_punctuation(&t);
    if t.len() > 0 && pc < t.len() && 10 * (pc as u128) < 3 * (t.len() as u128) {
        score = score + 300;
    } else {
        score = score - 300;
    }
    if 3 <= blen && blen <= 20 {
        score = score + 200;
    } else if blen > 30 {
        score = score - 200;
    }
    if contains_str(&t, "第") && (contains_str(&t, "章") || contains_str(&t, "节")
        || contains_str(&t, "卷") || contains_str(&t, "部")) {
        score = score + 100;
    }
    if contains_char(&t, '?') || contains_char(&t, '！') || contains_char(&t, '？') {
        score = score - 200;
    }
    if contains_char(&t, '：') || contains_char(&t, ':') {
        score = score + 100;
    }
    if score < 0 { 0 } else if score > 1000 { 1000 } else { score as u32 }
}

/// The view of each string of a slice.
pub open spec fn str_views(v: Seq<&str>) -> Seq<Seq<char>> {
    v.map_values(|x: &str| x@)
}

/// The characters of each line.
pub fn lines_chars(lines: &[&str]) -> (r: Vec<Vec<char>>)
    ensures
        views(r@) == str_views(lines@),
{
    let mut r: Vec<Vec<char>> = Vec::new();
    let mut i: usize = 0;
    while i < lines.len()
        invariant
            i <= lines.len(),
            r@.len() == i,
            views(r@) == str_views(lines@).take(i as int),
        decreases lines.len() - i,
    {
        let ghost before = r@;
        r.push(chars_of(lines[i]));
        assert(r@ == before.push(r@[i as int]));
        i = i + 1;
        assert forall|k: int| 0 <= k < i implies #[trigger] views(r@)[k] == str_views(lines@).take(i as int)[k] by {
            if k < i - 1 {
                assert(r@[k] == before[k]);
                assert(views(before)[k] == str_views(lines@).take(i - 1)[k]);
            }
        }
        assert(views(r@) =~= str_views(lines@).take(i as int));
    }
    assert(str_views(lines@).take(lines.len() as int) =~= str_views(lines@));
    r
}

/// The pattern a custom regex choice stands for: `None` for the default
/// rules, or a pattern that either compiled into `Some(c)` or did not
/// compile (`None`).
pub open spec fn choice_matches(choice: Option<&Option<CompiledPattern>>, pattern: Option<Seq<char>>) -> bool {
    match choice {
        None => pattern is None,
        Some(None) => pattern is Some && !regex_valid(pattern->0),
        Some(Some(c)) => pattern == Some(c.pattern()) && regex_valid(c.pattern()),
    }
}

/// Compiles an optional custom pattern.
pub fn compile_choice(pattern: Option<&str>) -> (r: Option<Option<CompiledPattern>>)
    ensures
        choice_matches(match r { Some(ref x) => Some(x), None => None }, match pattern { Some(p) => Some(p@), None => None }),
{
    match pattern {
        None => None,
        Some(p) => match compile(p) {
            Ok(c) => Some(Some(c)),
            Err(_) => Some(None),
        },
    }
}

/// Computes the chapter scores of a candidate line.
pub struct ScoreCalculator {
    factors: ScoringFactors,
}

/// The patterns for numbered titles.
fn number_pattern_exec(k: usize) -> (r: &'static str)
    requires
        k < 5,
    ensures
        r@ == number_pattern(k as int),
{
    if k == 0 { NUMBER_PATTERN_0 }
    else if k == 1 { NUMBER_PATTERN_1 }
    else if k == 2 { NUMBER_PATTERN_2 }
    else if k == 3 { NUMBER_PATTERN_3 }
    else { NUMBER_PATTERN_4 }
}

impl ScoreCalculator {
    /// The weights in use.
    pub closed spec fn spec_factors(self) -> ScoringFactors {
        self.factors
    }

    /// A calculator with the default weights.
    pub fn new() -> (r: Self)
        ensures
            r.spec_factors() == (ScoringFactors {
                regex_weight: 300,
                line_position_weight: 400,
                length_weight: 100,
                context_weight: 100,
                format_weight: 100,
                min_threshold: 500,
            }),
    {
        ScoreCalculator { factors: ScoringFactors::default() }
    }

    /// Whether one of the numbered-title patterns matches `text`.
    fn number_pattern_match(&self, text: &str) -> (r: bool)
        ensures
            r == matches_number_pattern(text@),
    {
        let mut k: usize = 0;
        while k < 5
            invariant
                k <= 5,
                forall|q: int| 0 <= q < k ==> !pattern_matches(#[trigger] number_pattern(q), text@),
            decreases 5 - k,
        {
            if crate::utils::regex::matches_pattern(number_pattern_exec(k), text) {
                assert(pattern_matches(number_pattern(k as int), text@));
                return true;
            }
            k = k + 1;
        }
        false
    }

    /// Regex score of `text` under a custom pattern choice.
    pub fn regex_score_chars(&self, text: &[char], choice: Option<&Option<CompiledPattern>>, pattern: Ghost<Option<Seq<char>>>) -> (r: u32)
        requires
            choice_matches(choice, pattern@),
        ensures
            r == regex_score(text@, pattern@),
    {
        match choice {
            Some(Some(c)) => {
                let s = string_of(text);
                if c.is_match(s.as_str()) { 1000 } else { 0 }
            },
            Some(None) => 0,
            None => {
                let (exact, found) = chapter_prefix_flags(text);
                if exact {
                    return 900;
                }
                if found {
                    return 300;
                }
                let s = string_of(text);
                if self.number_pattern_match(s.as_str()) {
                    let t = trim_chars(text);
                    if (starts_with_str(&t, "第") && contains_str(&t, "章")) || starts_with_str(&t, "Chapter")
                        || starts_with_str(&t, "chapter") {
                        return 700;
                    }
                    return 200;
                }
                let t = trim_chars(text);
                default_rule(&t)
            },
        }
    }

    /// All partial scores and their weighted total for line `n`.
    pub fn score_chars(&self, text: &[char], n: usize, ls: &[Vec<char>], choice: Option<&Option<CompiledPattern>>,
        pattern: Ghost<Option<Seq<char>>>, max_title_length: usize) -> (r: ChapterScore)
        requires
            choice_matches(choice, pattern@),
        ensures
            r == chapter_score(text@, n as int, views(ls@), pattern@, max_title_length as nat, self.spec_factors()),
    {
        let mut score = ChapterScore::new();
        score.regex_score = self.regex_score_chars(text, choice, pattern);
        score.line_position_score = line_position(n, ls);
        score.length_score = length(text, max_title_length);
        score.context_score = context(n, ls);
        score.format_score = format(text);
        score.calculate_total(&self.factors);
        score
    }

    /// Regex score of `text`, by `pattern` when one is given.
    pub fn score_regex_match(&self, text: &str, pattern: Option<&str>) -> (r: u32)
        ensures
            r == regex_score(text@, match pattern { Some(p) => Some(p@), None => None }),
    {
        let choice = compile_choice(pattern);
        let t = chars_of(text);
        let cref = match choice { Some(ref x) => Some(x), None => None };
        self.regex_score_chars(&t, cref, Ghost(match pattern { Some(p) => Some(p@), None => None }))
    }

    /// Position score of line `line_num`.
    pub fn score_line_position(&self, current_line: &str, line_num: usize, lines: &[&str]) -> (r: u32)
        ensures
            r == line_position_score(line_num as int, str_views(lines@)),
    {
        let ls = lines_chars(lines);
        line_position(line_num, &ls)
    }

    /// Length score of `text`.
    pub fn score_length(&self, text: &str, max_title_length: usize) -> (r: u32)
        ensures
            r == length_score(text@, max_title_length as nat),
    {
        length(&chars_of(text), max_title_length)
    }

    /// Context score of line `line_num`.
    pub fn score_context(&self, current_line: &str, line_num: usize, lines: &[&str]) -> (r: u32)
        ensures
            r == context_score(line_num as int, str_views(lines@)),
    {
        let ls = lines_chars(lines);
        context(line_num, &ls)
    }

    /// Format score of `text`.
    pub fn score_format(&self, text: &str) -> (r: u32)
        ensures
            r == format_score(text@),
    {
        format(&chars_of(text))
    }

    /// All partial scores and their weighted total for `text` at line
    /// `line_num`.
    pub fn calculate_chapter_score(&self, text: &str, line_num: usize, lines: &[&str], pattern: Option<&str>,
        max_title_length: usize) -> (r: ChapterScore)
        ensures
            r == chapter_score(text@, line_num as int, str_views(lines@),
                match pattern { Some(p) => Some(p@), None => None }, max_title_length as nat, self.spec_factors()),
    {
        let choice = compile_choice(pattern);
        let t = chars_of(text);
        let ls = lines_chars(lines);
        let cref = match choice { Some(ref x) => Some(x), None => None };
        self.score_chars(&t, line_num, &ls, cref, Ghost(match pattern { Some(p) => Some(p@), None => None }), max_title_length)
    }

    /// Replaces the weights.
    pub fn set_factors(&mut self, factors: ScoringFactors)
        ensures
            final(self).spec_factors() == factors,
    {
        self.factors = factors;
    }

    /// The weights in use.
    pub fn factors(&self) -> (r: &ScoringFactors)
        ensures
            *r == self.spec_factors(),
    {
        &self.factors
    }
}

/// The partial scores of `text` at line `n` and their weighted total.
pub open spec fn chapter_score(text: Seq<char>, n: int, ls: Seq<Seq<char>>, pattern: Option<Seq<char>>,
    max_title_length: nat, f: ScoringFactors) -> ChapterScore {
    let s = ChapterScore {
        regex_score: regex_score(text, pattern),
        line_position_score: line_position_score(n, ls),
        length_score: length_score(text, max_title_length),
        context_score: context_score(n, ls),
        format_score: format_score(text),
        total_score: 0,
    };
    ChapterScore { total_score: weighted_total(s, f) as u64, ..s }
}
} // verus!
