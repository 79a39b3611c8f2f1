//! Parsing of text into sections: chapter detection, paragraphs and the
//! detection of the input format.

pub mod scorer;
pub mod chapter_detector;
pub mod footnotes;
pub mod format_detector;
pub mod markdown_events;
pub mod markdown_parser;
pub mod markdown_sections;
pub mod paragraph_processor;

use vstd::prelude::*;
use crate::error::KafError;
use crate::model::{Book, InputFormat, Section, DEFAULT_EXCLUSION};
use format_detector::{detected_format, FormatDetector};
use markdown_parser::MarkdownParser;
use crate::text::{chars_of, extend_chars, has_prefix, lines, push_str, split_lines, string_of, trim, trim_chars, views};
use crate::utils::encoding::{decoded_text, detect_and_convert, strip_bom, strip_bom_chars};
use crate::utils::regex::{regex_matches, regex_valid, RegexCache};
use chapter_detector::{
    blank_separator_lines, blanked, chapter_detection, volume_detection, ChapterDetector, DetectorView,
};
use paragraph_processor::{paragraph, ParagraphMode, ParagraphProcessor, ParagraphSettings};
use scorer::{compile_choice, ScoringFactors};

verus! {

/// What a parse of plain text depends on.
pub struct ParseEnv {
    pub detector: DetectorView,
    pub indent: nat,
    pub volume: Option<Seq<char>>,
    pub chapter: Option<Seq<char>>,
    pub exclusion: Seq<char>,
}

/// The view of an optional pattern.
pub open spec fn opt_view(p: Option<String>) -> Option<Seq<char>> {
    match p {
        Some(s) => Some(s@),
        None => None,
    }
}

/// The detector a parser builds for a longest title of `m` characters.
pub open spec fn detector_for(m: usize) -> DetectorView {
    DetectorView {
        factors: ScoringFactors {
            regex_weight: 300,
            line_position_weight: 400,
            length_weight: 100,
            context_weight: 100,
            format_weight: 100,
            min_threshold: 500,
        },
        volume_threshold: 500,
        max_title_length: m,
    }
}

/// The parse environment of a book.
pub open spec fn env_of(book: Book) -> ParseEnv {
    ParseEnv {
        detector: detector_for(book.max_title_length),
        indent: book.indent as nat,
        volume: opt_view(book.volume_match),
        chapter: opt_view(book.chapter_match),
        exclusion: match book.exclusion_pattern {
            Some(p) => p@,
            None => DEFAULT_EXCLUSION@,
        },
    }
}

/// The first configured pattern of the book that does not compile, by the
/// name of its field.
pub open spec fn first_invalid_pattern(book: Book) -> Option<Seq<char>> {
    if book.chapter_match matches Some(p) && !regex_valid(p@) {
        Some("chapter_match"@)
    } else if book.volume_match matches Some(p) && !regex_valid(p@) {
        Some("volume_match"@)
    } else if book.exclusion_pattern matches Some(p) && !regex_valid(p@) {
        Some("exclusion_pattern"@)
    } else {
        None
    }
}

/// The state of a parse: finished sections (title and content), and the
/// title and content of the section being read.
pub struct ParseState {
    pub done: Seq<(Seq<char>, Seq<char>)>,
    pub title: Seq<char>,
    pub content: Seq<char>,
}

/// The finished sections with the current one added, unless it is empty.
pub open spec fn flushed(st: ParseState) -> Seq<(Seq<char>, Seq<char>)> {
    if st.title.len() > 0 || st.content.len() > 0 {
        st.done.push((st.title, st.content))
    } else {
        st.done
    }
}

/// A new section titled `title` begins.
pub open spec fn begin(st: ParseState, title: Seq<char>) -> ParseState {
    ParseState { done: flushed(st), title, content: Seq::empty() }
}

/// The parse after line `n` of `ls`, in the detection context `ctx`;
/// `None` when the exclusion pattern had to be used and does not compile.
pub open spec fn step(env: ParseEnv, ls: Seq<Seq<char>>, ctx: Seq<Seq<char>>, n: int, st: ParseState) -> Option<ParseState> {
    let t = trim(ls[n]);
    if t.len() == 0 {
        Some(st)
    } else {
        let vol = volume_detection(env.detector, t, n, ctx, env.volume) is Some;
        if vol && !regex_valid(env.exclusion) {
            None
        } else if vol && !regex_matches(env.exclusion, t) {
            Some(begin(st, strip_bom(t)))
        } else {
            let ch = chapter_detection(env.detector, t, n, ctx, env.chapter) is Some;
            if ch && !regex_valid(env.exclusion) {
                None
            } else if ch && !regex_matches(env.exclusion, t) {
                Some(begin(st, strip_bom(t)))
            } else {
                Some(ParseState { content: st.content + paragraph(env.indent, t), ..st })
            }
        }
    }
}

/// The parse after the first `k` lines.
pub open spec fn parse_upto(env: ParseEnv, ls: Seq<Seq<char>>, ctx: Seq<Seq<char>>, k: nat) -> Option<ParseState>
    decreases k,
{
    if k == 0 {
        Some(ParseState { done: Seq::empty(), title: Seq::empty(), content: Seq::empty() })
    } else {
        match parse_upto(env, ls, ctx, (k - 1) as nat) {
            None => None,
            Some(st) => step(env, ls, ctx, k - 1, st),
        }
    }
}

/// A parse that failed stays failed.
pub proof fn lemma_failure_persists(env: ParseEnv, ls: Seq<Seq<char>>, ctx: Seq<Seq<char>>, k: nat, k2: nat)
    requires
        k <= k2,
        parse_upto(env, ls, ctx, k) is None,
    ensures
        parse_upto(env, ls, ctx, k2) is None,
    decreases k2,
{
    if k2 > k {
        lemma_failure_persists(env, ls, ctx, k, (k2 - 1) as nat);
    }
}

/// The sections of the lines `ls`: every volume or chapter title that is
/// not excluded starts a section titled by the trimmed line (without
/// leading byte-order marks); every other non-blank line is appended to
/// the current section as a paragraph. Titles are detected in the lines
/// with active separator lines blanked. Empty sections are dropped.
pub open spec fn sections_of_lines(env: ParseEnv, ls: Seq<Seq<char>>) -> Option<Seq<(Seq<char>, Seq<char>)>> {
    match parse_upto(env, ls, blanked(ls), ls.len()) {
        None => None,
        Some(st) => Some(flushed(st)),
    }
}

/// No section is empty, and the sections plus the one being read do not
/// outnumber the lines read.
proof fn lemma_parse_state(env: ParseEnv, ls: Seq<Seq<char>>, ctx: Seq<Seq<char>>, k: nat)
    requires
        k <= ls.len(),
    ensures
        parse_upto(env, ls, ctx, k) matches Some(st) ==> {
            &&& forall|j: int| 0 <= j < st.done.len() ==> (#[trigger] st.done[j]).0.len() > 0 || st.done[j].1.len() > 0
            &&& st.done.len() + (if st.title.len() > 0 || st.content.len() > 0 { 1int } else { 0int }) <= k
        },
    decreases k,
{
    if k > 0 {
        lemma_parse_state(env, ls, ctx, (k - 1) as nat);
        if let Some(prev) = parse_upto(env, ls, ctx, (k - 1) as nat) {
            let t = trim(ls[k - 1]);
            if t.len() > 0 {
                crate::text::lemma_trim_idempotent(ls[k - 1]);
                reveal_strlit("<p>");
                assert(paragraph(env.indent, t).len() > 0);
            }
        }
    }
}

/// Law: parsing never yields an empty section (one with neither title nor
/// content), and never more sections than the text has lines.
pub proof fn lemma_sections_nonempty(env: ParseEnv, ls: Seq<Seq<char>>)
    ensures
        sections_of_lines(env, ls) matches Some(secs) ==> {
            &&& forall|j: int| 0 <= j < secs.len() ==> (#[trigger] secs[j]).0.len() > 0 || secs[j].1.len() > 0
            &&& secs.len() <= ls.len()
        },
{
    lemma_parse_state(env, ls, blanked(ls), ls.len());
}

/// The title and content of each section.
pub open spec fn section_views(v: Seq<Section>) -> Seq<(Seq<char>, Seq<char>)> {
    v.map_values(|s: Section| (s.title@, s.content@))
}

/// No section has subsections.
pub open spec fn flat(v: Seq<Section>) -> bool {
    forall|k: int| 0 <= k < v.len() ==> (#[trigger] v[k]).subsections@.len() == 0
}

/// The paragraph settings of a parser for a book indented by `indent`.
pub open spec fn settings_for(indent: usize) -> ParagraphSettings {
    ParagraphSettings {
        indent,
        mode: ParagraphMode::Smart,
        max_paragraph_length: 500,
        dialogue_detection: true,
        merge_threshold: 30,
    }
}

/// Splits plain text into sections.
pub struct Parser {
    book: Book,
    chapter_detector: ChapterDetector,
    paragraph_processor: ParagraphProcessor,
    regex_cache: RegexCache,
}

impl Parser {
    /// The book being parsed.
    pub closed spec fn book(&self) -> Book {
        self.book
    }

    /// The detector and paragraph processor are those of the book.
    pub closed spec fn wf(&self) -> bool {
        &&& self.chapter_detector.wf()
        &&& self.chapter_detector.view() == detector_for(self.book.max_title_length)
        &&& self.paragraph_processor.wf()
        &&& self.paragraph_processor.settings() == settings_for(self.book.indent)
        &&& self.regex_cache.wf()
    }

    /// A parser for `book`.
    pub fn new(book: Book) -> (r: Self)
        ensures
            r.wf(),
            r.book() == book,
    {
        let chapter_detector = ChapterDetector::new().with_max_title_length(book.max_title_length);
        let paragraph_processor = ParagraphProcessor::new_indented(book.indent);
        Parser { book, chapter_detector, paragraph_processor, regex_cache: RegexCache::new() }
    }

    /// The book being parsed.
    pub fn book_settings(&self) -> (r: &Book)
        ensures
            *r == self.book(),
    {
        &self.book
    }

    /// The format the book's text is read in: the one configured, or when
    /// that is `Auto`, the one detected from the file name and the text.
    pub fn input_format(&self, content: &str) -> (r: InputFormat)
        ensures
            r == (if self.book().input_format == InputFormat::Auto {
                detected_format(self.book().filename@, content@)
            } else {
                self.book().input_format
            }),
    {
        match self.book.input_format {
            InputFormat::Auto => FormatDetector::detect(self.book.filename.as_str(), content),
            other => other,
        }
    }

    /// The format the text `content` of the book is read as: the book's
    /// format, or the detected one when it is automatic.
    pub open spec fn content_format(book: Book, content: Seq<char>) -> InputFormat {
        if book.input_format == InputFormat::Auto {
            detected_format(book.filename@, content)
        } else {
            book.input_format
        }
    }

    /// The sections of the book's file from its bytes: the bytes decoded
    /// (an encoding error when they cannot be), then the text read as
    /// Markdown or as plain text, as the book's format says or as detected.
    pub fn parse_decoded(&mut self, bytes: &[u8]) -> (r: Result<Vec<Section>, KafError>)
        requires
            old(self).wf(),
        ensures
            final(self).wf(),
            final(self).book() == old(self).book(),
            match decoded_text(bytes@) {
                Err(name) => r matches Err(KafError::Encoding(m)) && m@ == "无效的 "@ + name + " 字节序列"@,
                Ok(t) => if Self::content_format(old(self).book(), t) == InputFormat::Markdown {
                    r matches Ok(v) && crate::parser::markdown_parser::section_pairs(v@)
                        == crate::parser::markdown_events::markdown_output(t, true, old(self).book().max_title_length).sections
                } else {
                    match first_invalid_pattern(old(self).book()) {
                        Some(field) => r matches Err(KafError::ParseError(m)) && has_prefix(m@, field + " 正则表达式无效: "@),
                        None => match sections_of_lines(env_of(old(self).book()), lines(t)) {
                            None => r matches Err(KafError::Regex(_)),
                            Some(secs) => r matches Ok(v) && section_views(v@) == secs && flat(v@),
                        },
                    }
                },
            },
    {
        let content = detect_and_convert(bytes)?;
        let format = self.input_format(content.as_str());
        match format {
            InputFormat::Markdown => self.parse_markdown(content.as_str()),
            _ => self.parse_txt(content.as_str()),
        }
    }

    /// The sections of plain text (see `parse_content`).
    pub fn parse_txt(&mut self, content: &str) -> (r: Result<Vec<Section>, KafError>)
        requires
            old(self).wf(),
        ensures
            final(self).wf(),
            final(self).book() == old(self).book(),
            match first_invalid_pattern(old(self).book()) {
                Some(field) => r matches Err(KafError::ParseError(m)) && has_prefix(m@, field + " 正则表达式无效: "@),
                None => match sections_of_lines(env_of(old(self).book()), lines(content@)) {
                    None => r matches Err(KafError::Regex(_)),
                    Some(secs) => r matches Ok(v) && section_views(v@) == secs && flat(v@),
                },
            },
    {
        self.parse_content(content)
    }

    /// The error for the pattern of `field` that does not compile.
    fn invalid_pattern(field: &str, err: KafError) -> (r: KafError)
        ensures
            r matches KafError::ParseError(m) && has_prefix(m@, field@ + " 正则表达式无效: "@),
    {
        let mut m = field.to_string();
        push_str(&mut m, " 正则表达式无效: ");
        let ghost head = m@;
        let detail = err.message();
        push_str(&mut m, detail.as_str());
        proof { crate::text::lemma_prefix_of_concat(head, detail@); }
        KafError::ParseError(m)
    }

    /// Checks that every configured pattern compiles; the first that does
    /// not is reported with the name of its field.
    pub fn validate_book_patterns(&mut self) -> (r: Result<(), KafError>)
        requires
            old(self).wf(),
        ensures
            final(self).wf(),
            final(self).book() == old(self).book(),
            match first_invalid_pattern(old(self).book()) {
                Some(field) => r matches Err(KafError::ParseError(m)) && has_prefix(m@, field + " 正则表达式无效: "@),
                None => r is Ok,
            },
    {
        if let Some(p) = &self.book.chapter_match {
            if let Err(e) = self.regex_cache.get_or_compile(p.as_str()) {
                return Err(Self::invalid_pattern("chapter_match", e));
            }
        }
        if let Some(p) = &self.book.volume_match {
            if let Err(e) = self.regex_cache.get_or_compile(p.as_str()) {
                return Err(Self::invalid_pattern("volume_match", e));
            }
        }
        if let Some(p) = &self.book.exclusion_pattern {
            if let Err(e) = self.regex_cache.get_or_compile(p.as_str()) {
                return Err(Self::invalid_pattern("exclusion_pattern", e));
            }
        }
        Ok(())
    }

    /// Whether `text` is excluded from being a title.
    fn is_excluded(&mut self, text: &[char]) -> (r: Result<bool, KafError>)
        requires
            old(self).wf(),
        ensures
            final(self).wf(),
            final(self).book() == old(self).book(),
            final(self).chapter_detector == old(self).chapter_detector,
            final(self).paragraph_processor == old(self).paragraph_processor,
            r is Ok <==> regex_valid(env_of(old(self).book()).exclusion),
            r matches Ok(b) ==> b == regex_matches(env_of(old(self).book()).exclusion, text@),
            r matches Err(e) ==> e is Regex,
    {
        let s = string_of(text);
        match &self.book.exclusion_pattern {
            Some(p) => self.regex_cache.is_excluded(s.as_str(), Some(p.as_str())),
            None => self.regex_cache.is_excluded(s.as_str(), None),
        }
    }

    /// The sections of a Markdown document, headings up to the book's
    /// longest title opening sections.
    pub fn parse_markdown(&mut self, content: &str) -> (r: Result<Vec<Section>, KafError>)
        ensures
            *final(self) == *old(self),
            r matches Ok(v) && crate::parser::markdown_parser::section_pairs(v@)
                == crate::parser::markdown_events::markdown_output(content@, true, old(self).book().max_title_length).sections,
    {
        let mut parser = MarkdownParser::new().with_max_title_length(self.book.max_title_length);
        parser.parse(content)
    }

    /// The sections of plain text. A configured pattern that does not
    /// compile is an error naming its field; an exclusion pattern that
    /// does not compile is an error once a title candidate needs it.
    pub fn parse_content(&mut self, content: &str) -> (r: Result<Vec<Section>, KafError>)
        requires
            old(self).wf(),
        ensures
            final(self).wf(),
            final(self).book() == old(self).book(),
            match first_invalid_pattern(old(self).book()) {
                Some(field) => r matches Err(KafError::ParseError(m)) && has_prefix(m@, field + " 正则表达式无效: "@),
                None => match sections_of_lines(env_of(old(self).book()), lines(content@)) {
                    None => r matches Err(KafError::Regex(_)),
                    Some(secs) => r matches Ok(v) && section_views(v@) == secs && flat(v@),
                },
            },
    {
        self.validate_book_patterns()?;
        let ghost env = env_of(self.book);
        let raw = split_lines(&chars_of(content));
        let ghost ls = views(raw@);
        let ctx = blank_separator_lines(&raw);
        let volume_choice = compile_choice(match &self.book.volume_match { Some(p) => Some(p.as_str()), None => None });
        let chapter_choice = compile_choice(match &self.book.chapter_match { Some(p) => Some(p.as_str()), None => None });
        let mut sections: Vec<Section> = Vec::new();
        let mut title: Vec<char> = Vec::new();
        let mut body: Vec<char> = Vec::new();
        let ghost book = self.book;
        let mut i: usize = 0;
        while i < raw.len()
            invariant
                i <= raw@.len(),
                self.wf(),
                self.book() == book,
                book == old(self).book(),
                first_invalid_pattern(book) is None,
                env == env_of(book),
                ls == views(raw@),
                ls == lines(content@),
                views(ctx@) == blanked(ls),
                scorer::choice_matches(match volume_choice { Some(ref x) => Some(x), None => None }, env.volume),
                scorer::choice_matches(match chapter_choice { Some(ref x) => Some(x), None => None }, env.chapter),
                flat(sections@),
                parse_upto(env, ls, blanked(ls), i as nat) matches Some(st) && st.done == section_views(sections@)
                    && st.title == title@ && st.content == body@,
            decreases raw@.len() - i,
        {
            let ghost st = parse_upto(env, ls, blanked(ls), i as nat)->0;
            assert(ls[i as int] == raw@[i as int]@);
            let t = trim_chars(&raw[i]);
            if t.len() == 0 {
                i = i + 1;
                continue;
            }
            let vchoice = match volume_choice { Some(ref x) => Some(x), None => None };
            let vol = self.chapter_detector.detect_volume_chars(&t, i, &ctx, vchoice,
                Ghost(env.volume)).is_some();
            let mut is_title = false;
            if vol {
                let excluded = match self.is_excluded(&t) {
                    Ok(b) => b,
                    Err(e) => {
                        proof { lemma_failure_persists(env, ls, blanked(ls), (i + 1) as nat, ls.len()); }
                        return Err(e);
                    },
                };
                is_title = !excluded;
            }
            if !is_title {
                let cchoice = match chapter_choice { Some(ref x) => Some(x), None => None };
                let ch = self.chapter_detector.detect_chapter_chars(&t, i, &ctx, cchoice,
                    Ghost(env.chapter)).is_some();
                if ch {
                    let excluded = match self.is_excluded(&t) {
                        Ok(b) => b,
                        Err(e) => {
                            proof { lemma_failure_persists(env, ls, blanked(ls), (i + 1) as nat, ls.len()); }
                            return Err(e);
                        },
                    };
                    is_title = !excluded;
                }
            }
            if is_title {
                if title.len() > 0 || body.len() > 0 {
                    let ghost before = sections@;
                    sections.push(Section { title: string_of(&title), content: string_of(&body),
                        subsections: Vec::new() });
                    assert(section_views(sections@) =~= section_views(before).push((title@, body@)));
                }
                title = strip_bom_chars(&t);
                body = Vec::new();
            } else {
                let p = self.paragraph_processor.process_chars(&t);
                extend_chars(&mut body, &p);
            }
            i = i + 1;
        }
        if title.len() > 0 || body.len() > 0 {
            let ghost before = sections@;
            sections.push(Section { title: string_of(&title), content: string_of(&body), subsections: Vec::new() });
            assert(section_views(sections@) =~= section_views(before).push((title@, body@)));
        }
        Ok(sections)
    }
}

} // verus!
