//! Detection of the input format (plain text or Markdown) from the file
//! extension or the content.

use vstd::prelude::*;
use crate::model::InputFormat;
use crate::text::{
    chars_eq_str, chars_of, contains_char, contains_seq, contains_str, has_prefix, lines, lowercase, split_lines,
    starts_with_str, string_of, to_lowercase, trim, trim_chars,
};
use crate::utils::file::{extension_of, path_extension};
use crate::utils::regex::{compile, pattern_matches, regex_matches, regex_valid, CompiledPattern};

verus! {

/// Ordered list items such as `1. `.
pub const ORDERED_LIST_PATTERN: &'static str = r"^\d+\.\s";

/// Chinese chapter titles such as `第一章`.
pub const CHINESE_CHAPTER_PATTERN: &'static str = r"^第[一二三四五六七八九十零〇百千\d]+[章回节卷]";

/// The format named by a lower-case extension.
pub open spec fn format_of_extension(ext: Seq<char>) -> InputFormat {
    if ext == "txt"@ || ext == "text"@ {
        InputFormat::Txt
    } else if ext == "md"@ || ext == "markdown"@ || ext == "mkd"@ {
        InputFormat::Markdown
    } else {
        InputFormat::Auto
    }
}

/// The format of a path by its extension, in any case.
pub open spec fn format_by_extension(path: Seq<char>) -> InputFormat {
    match path_extension(path) {
        Some(e) => format_of_extension(lowercase(e)),
        None => InputFormat::Auto,
    }
}

/// The Markdown points of one trimmed, non-blank line.
pub open spec fn markdown_points(t: Seq<char>) -> int {
    (if has_prefix(t, "# "@) || has_prefix(t, "## "@) || has_prefix(t, "### "@) { 3int } else { 0 })
    + (if has_prefix(t, "> "@) { 2int } else { 0 })
    + (if has_prefix(t, "- "@) || has_prefix(t, "* "@) || has_prefix(t, "+ "@) { 1int } else { 0 })
    + (if pattern_matches(ORDERED_LIST_PATTERN@, t) { 1int } else { 0 })
    + (if contains_seq(t, "**"@) || contains_seq(t, "__"@) { 1int } else { 0 })
    + (if t.contains('[') && contains_seq(t, "]("@) { 2int } else { 0 })
    + (if t == "---"@ || t == "***"@ || t == "___"@ { 1int } else { 0 })
    + (if has_prefix(t, "```"@) { 3int } else { 0 })
}

/// The plain-text points of one trimmed, non-blank line.
pub open spec fn txt_points(t: Seq<char>) -> int {
    if pattern_matches(CHINESE_CHAPTER_PATTERN@, t) { 5 } else { 0 }
}

/// The Markdown and plain-text scores of the lines `ls`.
pub open spec fn scores(ls: Seq<Seq<char>>) -> (int, int)
    decreases ls.len(),
{
    if ls.len() == 0 {
        (0, 0)
    } else {
        let (m, x) = scores(ls.drop_last());
        let t = trim(ls.last());
        if t.len() == 0 {
            (m, x)
        } else {
            (m + markdown_points(t), x + txt_points(t))
        }
    }
}

/// The format of the content: Markdown when, over its first 50 lines, the
/// Markdown score is at least 3 and above the plain-text score.
pub open spec fn format_by_content(content: Seq<char>) -> InputFormat {
    let ls = lines(content);
    let (m, x) = scores(ls.take(if ls.len() < 50 { ls.len() as int } else { 50 }));
    if m > x && m >= 3 {
        InputFormat::Markdown
    } else {
        InputFormat::Txt
    }
}

/// The format by extension, or by content when the extension says nothing.
pub open spec fn detected_format(path: Seq<char>, content: Seq<char>) -> InputFormat {
    if format_by_extension(path) != InputFormat::Auto {
        format_by_extension(path)
    } else {
        format_by_content(content)
    }
}

/// Whether the optional regex matches `t`.
fn optional_match(re: &Option<CompiledPattern>, t: &[char], pattern: Ghost<Seq<char>>) -> (r: bool)
    requires
        match re {
            Some(c) => c.pattern() == pattern@ && regex_valid(pattern@),
            None => !regex_valid(pattern@),
        },
    ensures
        r == pattern_matches(pattern@, t@),
{
    match re {
        Some(c) => c.is_match(string_of(t).as_str()),
        None => false,
    }
}

/// Detects the input format of a file.
pub struct FormatDetector;

impl FormatDetector {
    /// The format by extension: `txt` and `text` are plain text; `md`,
    /// `markdown` and `mkd` are Markdown, in any case; anything else is
    /// undecided (`Auto`).
    pub fn detect_by_extension(path: &str) -> (r: InputFormat)
        ensures
            r == format_by_extension(path@),
    {
        match extension_of(path) {
            None => InputFormat::Auto,
            Some(e) => {
                let low = chars_of(to_lowercase(e.as_str()).as_str());
                if chars_eq_str(&low, "txt") || chars_eq_str(&low, "text") {
                    InputFormat::Txt
                } else if chars_eq_str(&low, "md") || chars_eq_str(&low, "markdown") || chars_eq_str(&low, "mkd") {
                    InputFormat::Markdown
                } else {
                    InputFormat::Auto
                }
            },
        }
    }

    /// The Markdown points of a trimmed line.
    fn markdown_points_of(t: &[char], ordered: &Option<CompiledPattern>) -> (r: u32)
        requires
            match ordered {
                Some(c) => c.pattern() == ORDERED_LIST_PATTERN@ && regex_valid(ORDERED_LIST_PATTERN@),
                None => !regex_valid(ORDERED_LIST_PATTERN@),
            },
        ensures
            r == markdown_points(t@),
            r <= 15,
    {
        let mut m: u32 = 0;
        if starts_with_str(t, "# ") || starts_with_str(t, "## ") || starts_with_str(t, "### ") {
            m = m + 3;
        }
        if starts_with_str(t, "> ") {
            m = m + 2;
        }
        if starts_with_str(t, "- ") || starts_with_str(t, "* ") || starts_with_str(t, "+ ") {
            m = m + 1;
        }
        if optional_match(ordered, t, Ghost(ORDERED_LIST_PATTERN@)) {
            m = m + 1;
        }
        if contains_str(t, "**") || contains_str(t, "__") {
            m = m + 1;
        }
        if contains_char(t, '[') && contains_str(t, "](") {
            m = m + 2;
        }
        if chars_eq_str(t, "---") || chars_eq_str(t, "***") || chars_eq_str(t, "___") {
            m = m + 1;
        }
        if starts_with_str(t, "```") {
            m = m + 3;
        }
        m
    }

    /// The format by content: over the first 50 lines, each non-blank
    /// trimmed line scores Markdown points (3 for a `#`, `##` or `###`
    /// heading, 2 for a quote, 1 for a list item, 1 for an ordered item, 1
    /// for `**` or `__`, 2 for a link, 1 for a rule, 3 for a code fence) and
    /// plain-text points (5 for a `第N章` title). Markdown wins with at least
    /// 3 points and more than plain text; otherwise the text is plain.
    pub fn detect_by_content(content: &str) -> (r: InputFormat)
        ensures
            r == format_by_content(content@),
    {
        let all = split_lines(&chars_of(content));
        let ghost ls = lines(content@);
        let n: usize = if all.len() < 50 { all.len() } else { 50 };
        let ordered = match compile(ORDERED_LIST_PATTERN) {
            Ok(c) => Some(c),
            Err(_) => None,
        };
        let chinese = match compile(CHINESE_CHAPTER_PATTERN) {
            Ok(c) => Some(c),
            Err(_) => None,
        };
        let mut md: u32 = 0;
        let mut txt: u32 = 0;
        let mut i: usize = 0;
        while i < n
            invariant
                i <= n <= 50,
                n <= all@.len(),
                crate::text::views(all@) == ls,
                match ordered {
                    Some(c) => c.pattern() == ORDERED_LIST_PATTERN@ && regex_valid(ORDERED_LIST_PATTERN@),
                    None => !regex_valid(ORDERED_LIST_PATTERN@),
                },
                match chinese {
                    Some(c) => c.pattern() == CHINESE_CHAPTER_PATTERN@ && regex_valid(CHINESE_CHAPTER_PATTERN@),
                    None => !regex_valid(CHINESE_CHAPTER_PATTERN@),
                },
                md <= 15 * i,
                txt <= 5 * i,
                (md as int, txt as int) == scores(ls.take(i as int)),
            decreases n - i,
        {
            assert(ls.take(i + 1).drop_last() == ls.take(i as int));
            assert(ls.take(i + 1).last() == all@[i as int]@);
            let t = trim_chars(&all[i]);
            if t.len() > 0 {
                md = md + Self::markdown_points_of(&t, &ordered);
                if optional_match(&chinese, &t, Ghost(CHINESE_CHAPTER_PATTERN@)) {
                    txt = txt + 5;
                }
            }
            i = i + 1;
        }
        if md > txt && md >= 3 {
            InputFormat::Markdown
        } else {
            InputFormat::Txt
        }
    }

    /// The format by extension, or by content when the extension decides
    /// nothing.
    pub fn detect(path: &str, content: &str) -> (r: InputFormat)
        ensures
            r == detected_format(path@, content@),
    {
        let by_ext = Self::detect_by_extension(path);
        if by_ext != InputFormat::Auto {
            return by_ext;
        }
        Self::detect_by_content(content)
    }
}

} // verus!
