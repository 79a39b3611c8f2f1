//! Validation of a loaded configuration: files, ranges, formats and
//! consistency. Questions about the file system, and whether a text is a
//! positive number, are answered by a probe supplied by the caller.

use vstd::prelude::*;
use crate::error::KafError;
use crate::model::{Book, CoverSource, HeaderMode};
use crate::text::{
    ascii_lower_seq, ascii_lowercase, chars_eq_str, chars_of, contains_char, dec, decimal, push_chars, push_str, string_of, trim,
    trim_chars, has_prefix,
};
use crate::utils::file::{extension_of, parent_of, path_extension, path_parent, resolve_resource_path, resource_path};
use crate::utils::regex::{matches_pattern, pattern_matches};

verus! {

/// Plain CSS lengths: `0`, or a number with a unit.
pub const CSS_VALUE_PATTERN: &'static str = r"^(?:0|\d+(?:\.\d+)?(?:px|em|rem|%|vh|vw))$";

/// A reason a configuration is refused.
#[derive(Debug, Clone)]
pub enum ValidationError {
    FileNotFound(String),
    OutOfRange(String),
    InvalidValue(String),
    MissingField(String),
    FieldConflict(String),
}

/// The text of a validation error.
pub open spec fn validation_text(e: ValidationError) -> Seq<char> {
    match e {
        ValidationError::FileNotFound(s) => "文件不存在: "@ + s@,
        ValidationError::OutOfRange(s) => "值超出范围: "@ + s@,
        ValidationError::InvalidValue(s) => "无效的值: "@ + s@,
        ValidationError::MissingField(s) => "缺少必需字段: "@ + s@,
        ValidationError::FieldConflict(s) => "字段冲突: "@ + s@,
    }
}

impl ValidationError {
    /// The text of the error.
    pub fn message(&self) -> (r: String)
        ensures
            r@ == validation_text(*self),
    {
        let (prefix, detail) = match self {
            ValidationError::FileNotFound(s) => ("文件不存在: ", s),
            ValidationError::OutOfRange(s) => ("值超出范围: ", s),
            ValidationError::InvalidValue(s) => ("无效的值: ", s),
            ValidationError::MissingField(s) => ("缺少必需字段: ", s),
            ValidationError::FieldConflict(s) => ("字段冲突: ", s),
        };
        let mut m = prefix.to_string();
        push_str(&mut m, detail.as_str());
        m
    }

    /// The library error carrying the text of this one.
    pub fn into_error(self) -> (r: KafError)
        ensures
            r matches KafError::ParseError(m) && m@ == validation_text(self),
    {
        KafError::ParseError(self.message())
    }
}

/// A question the validator asks of the world.
#[derive(Debug, Clone)]
pub enum Query {
    /// Is there a file at this path?
    IsFile(String),
    /// Is there a folder at this path?
    IsDir(String),
    /// Is this text a finite positive number?
    PositiveNumber(String),
    /// Does anything exist at this path?
    Exists(String),
    /// Are the bytes of the file at this path, when it can be read, an image?
    ImageContent(String),
}

/// The probe answered `answer` to a query equal to `q`.
pub open spec fn answered<F: Fn(&Query) -> bool>(f: F, q: Query, answer: bool) -> bool {
    exists|x: &Query| *x == q && #[trigger] f.ensures((x,), answer)
}

/// The kind and the text of a query: 0 a file, 1 a folder, 2 a number,
/// 3 anything at a path, 4 the content of an image.
pub open spec fn query_view(q: Query) -> (u8, Seq<char>) {
    match q {
        Query::IsFile(s) => (0u8, s@),
        Query::IsDir(s) => (1u8, s@),
        Query::PositiveNumber(s) => (2u8, s@),
        Query::Exists(s) => (3u8, s@),
        Query::ImageContent(s) => (4u8, s@),
    }
}

/// The probe answered `answer` to a query of kind `kind` (as in
/// [`query_view`]) about `text`.
pub open spec fn answered_on<F: Fn(&Query) -> bool>(f: F, kind: u8, text: Seq<char>, answer: bool) -> bool {
    exists|x: &Query| query_view(*x) == (kind, text) && #[trigger] f.ensures((x,), answer)
}

/// A CSS variable name (without its leading `--`) made of ASCII letters,
/// digits, `-` and `_`.
pub open spec fn css_name_ok(name: Seq<char>) -> bool {
    css_name_chars(if has_prefix(name, "--"@) { name.skip(2) } else { name })
}

/// A character allowed in CSS variable names.
pub open spec fn css_name_char(c: char) -> bool {
    ('a' <= c && c <= 'z') || ('A' <= c && c <= 'Z') || ('0' <= c && c <= '9') || c == '-' || c == '_'
}

/// A non-empty run of characters allowed in CSS variable names.
pub open spec fn css_name_chars(n: Seq<char>) -> bool {
    n.len() > 0 && forall|i: int| 0 <= i < n.len() ==> css_name_char(#[trigger] n[i])
}

/// A CSS variable value without `;`, `{` or `}`.
pub open spec fn css_value_ok(v: Seq<char>) -> bool {
    !v.contains(';') && !v.contains('{') && !v.contains('}')
}

/// The first bad CSS variable, by the message it gives.
pub open spec fn css_variables_error(vars: Seq<(String, String)>) -> Option<Seq<char>>
    decreases vars.len(),
{
    if vars.len() == 0 {
        None
    } else {
        match css_variables_error(vars.drop_last()) {
            Some(m) => Some(m),
            None => {
                let (n, v) = vars.last();
                if !css_name_ok(n@) {
                    Some("无效的 CSS 变量名: "@ + n@)
                } else if !css_value_ok(v@) {
                    Some("CSS 变量 "@ + n@ + " 包含不允许的字符"@)
                } else {
                    None
                }
            },
        }
    }
}

/// The message of the first value of `book` out of the ranges `limits`
/// (shortest longest-title, longest longest-title, largest indent).
pub open spec fn range_error_for(limits: (usize, usize, usize), book: Book) -> Option<Seq<char>> {
    let (lo, hi, ind) = limits;
    if !(lo <= book.max_title_length && book.max_title_length <= hi) {
        Some("值超出范围: "@ + "max_title_length 必须在 "@ + dec(lo as nat) + " 到 "@ + dec(hi as nat) + " 之间"@)
    } else if book.indent > ind {
        Some("值超出范围: "@ + "indent 不能超过 "@ + dec(ind as nat))
    } else if book.lookahead_lines == 0 {
        Some("值超出范围: "@ + "lookahead_lines 必须大于 0"@)
    } else {
        None
    }
}

/// `r` is the error `m` of the library.
pub open spec fn fails_with(r: Result<(), KafError>, m: Seq<char>) -> bool {
    r matches Err(KafError::ParseError(x)) && x@ == m
}

/// The check that a resource `path` (resolved against `base`) is a file:
/// `probe` finds it and `rest` holds, or it does not and `r` is the error
/// that names it with `label`.
pub open spec fn required_outcome<F: Fn(&Query) -> bool>(
    probe: F,
    path: Seq<char>,
    base: Option<Seq<char>>,
    label: Seq<char>,
    r: Result<(), KafError>,
    rest: bool,
) -> bool {
    let p = resource_path(path, base);
    ||| answered_on(probe, 0u8, p, true) && rest
    ||| answered_on(probe, 0u8, p, false) && fails_with(r, "无效的值: "@ + label + "路径不是文件: "@ + p)
}

/// A font file extension (any ASCII case): ttf, otf, woff, woff2, ttc.
pub open spec fn font_extension_ok(p: Seq<char>) -> bool {
    path_extension(p) matches Some(e) && {
        let l = ascii_lower_seq(e);
        l == "ttf"@ || l == "otf"@ || l == "woff"@ || l == "woff2"@ || l == "ttc"@
    }
}

/// The check of the chapter header images, then `rest`.
pub open spec fn header_outcome<F: Fn(&Query) -> bool>(
    probe: F,
    book: Book,
    base: Option<Seq<char>>,
    r: Result<(), KafError>,
    rest: bool,
) -> bool {
    match book.chapter_header.mode {
        HeaderMode::Single => match book.chapter_header.image {
            Some(p) => required_outcome(probe, p@, base, "章节页眉"@, r, rest),
            None => rest,
        },
        HeaderMode::Folder => match book.chapter_header.image_folder {
            None => fails_with(r, "缺少必需字段: "@ + "chapter_header.image_folder"@),
            Some(f) => {
                let d = resource_path(f@, base);
                ||| answered_on(probe, 1u8, d, true) && rest
                ||| answered_on(probe, 1u8, d, false) && fails_with(r, "无效的值: "@ + ("章节页眉路径不是目录: "@ + d))
            },
        },
    }
}

/// The check of the font, then of the header images, then `rest`.
pub open spec fn font_outcome<F: Fn(&Query) -> bool>(
    probe: F,
    book: Book,
    base: Option<Seq<char>>,
    r: Result<(), KafError>,
    rest: bool,
) -> bool {
    match book.font {
        Some(p) => {
            let f = resource_path(p@, base);
            required_outcome(
                probe,
                p@,
                base,
                "字体"@,
                r,
                if font_extension_ok(f) {
                    header_outcome(probe, book, base, r, rest)
                } else {
                    fails_with(r, "无效的值: "@ + ("不支持的字体格式: "@ + f))
                },
            )
        },
        None => header_outcome(probe, book, base, r, rest),
    }
}

/// The checks of the files of `book`, in order (the input file, the
/// cover, the custom CSS, the font, the header images), then `rest`: the
/// first file that `probe` does not find, or the first bad setting, is
/// the error.
pub open spec fn files_outcome<F: Fn(&Query) -> bool>(probe: F, book: Book, r: Result<(), KafError>, rest: bool)
    -> bool {
    if book.filename@.len() == 0 {
        fails_with(r, "缺少必需字段: "@ + "filename"@)
    } else {
        let base = path_parent(book.filename@);
        let after_css = font_outcome(probe, book, base, r, rest);
        let after_cover = match book.custom_css {
            Some(p) => required_outcome(probe, p@, base, "自定义 CSS"@, r, after_css),
            None => after_css,
        };
        let after_file = match book.cover {
            Some(CoverSource::Local { path }) => required_outcome(probe, path@, base, "封面"@, r, after_cover),
            _ => after_cover,
        };
        ||| answered_on(probe, 0u8, book.filename@, false) && fails_with(r, "文件不存在: "@ + book.filename@)
        ||| answered_on(probe, 0u8, book.filename@, true) && after_file
    }
}

/// The check that an output name, when given, is not blank.
pub open spec fn consistency_outcome(book: Book, r: Result<(), KafError>) -> bool {
    if book.output_name matches Some(o) && trim(o@).len() == 0 {
        fails_with(r, "无效的值: "@ + "output_name 不能为空"@)
    } else {
        r is Ok
    }
}

/// The outcome of validating `book` with the limits `limits`: the files,
/// then the ranges, then the texts, then the consistency; the first
/// problem is the error.
pub open spec fn validation_outcome<F: Fn(&Query) -> bool>(
    limits: (usize, usize, usize),
    probe: F,
    book: Book,
    r: Result<(), KafError>,
) -> bool {
    files_outcome(
        probe,
        book,
        r,
        match range_error_for(limits, book) {
            Some(m) => fails_with(r, m),
            None => formats_chain(probe, book, r, consistency_outcome(book, r)),
        },
    )
}

/// What `book` needs to pass validation when every file, folder and number
/// asked about is found: a file name, a font of a font format, a header
/// folder in folder mode, values within `limits`, titles, author and
/// spacing well formed, good CSS variables, and no blank output name.
pub open spec fn passes_when_found(limits: (usize, usize, usize), book: Book) -> bool {
    &&& book.filename@.len() > 0
    &&& (book.font matches Some(p) ==> font_extension_ok(resource_path(p@, path_parent(book.filename@))))
    &&& (book.chapter_header.mode == HeaderMode::Folder ==> book.chapter_header.image_folder is Some)
    &&& range_error_for(limits, book) is None
    &&& !(book.bookname matches Some(b) && trim(b@).len() == 0)
    &&& trim(book.author@).len() > 0
    &&& pattern_matches(CSS_VALUE_PATTERN@, trim(book.paragraph_spacing@))
    &&& css_variables_error(book.css_variables@) is None
    &&& !(book.output_name matches Some(o) && trim(o@).len() == 0)
}

/// `probe` answers yes to every question.
pub open spec fn always_yes<F: Fn(&Query) -> bool>(probe: F) -> bool {
    forall|q: &Query, b: bool| #[trigger] probe.ensures((q,), b) ==> b
}

/// Checks a configuration.
pub struct ConfigValidator {
    max_title_length_limit: usize,
    min_title_length_limit: usize,
    max_indent_limit: usize,
}

impl ConfigValidator {
    /// The limits: shortest longest-title, longest longest-title, largest
    /// indent.
    pub closed spec fn limits(&self) -> (usize, usize, usize) {
        (self.min_title_length_limit, self.max_title_length_limit, self.max_indent_limit)
    }

    /// The message of the first value out of range.
    pub open spec fn range_error(&self, book: Book) -> Option<Seq<char>> {
        range_error_for(self.limits(), book)
    }

    /// The ranges of the default limits hold for `book`: a longest title
    /// from 5 to 100, an indent up to 10, a positive look-ahead.
    pub open spec fn new_limits_range_ok(book: Book) -> bool {
        5 <= book.max_title_length <= 100 && book.indent <= 10 && book.lookahead_lines > 0
    }

    /// A validator with a longest title from 5 to 100 and an indent up to 10.
    pub fn new() -> (r: Self)
        ensures
            r.limits() == (5usize, 100usize, 10usize),
    {
        ConfigValidator { max_title_length_limit: 100, min_title_length_limit: 5, max_indent_limit: 10 }
    }

    /// Checks the files, then the ranges, then the formats, then the
    /// consistency of `book`; the first problem is the error. A missing
    /// file name is always refused; a book that passes has its input file,
    /// and every value within range and well formed.
    pub fn validate<F: Fn(&Query) -> bool>(&self, book: &Book, probe: F) -> (r: Result<(), KafError>)
        requires
            forall|q: &Query| probe.requires((q,)),
        ensures
            validation_outcome(self.limits(), probe, *book, r),
            always_yes(probe) ==> (r is Ok <==> passes_when_found(self.limits(), *book)),
            book.filename@.len() == 0 ==> (r matches Err(KafError::ParseError(m)) && m@ == "缺少必需字段: "@ + "filename"@),
            r is Ok ==> {
                &&& book.filename@.len() > 0
                &&& answered(probe, Query::IsFile(book.filename), true)
                &&& self.range_error(*book) is None
                &&& (self.limits() == (5usize, 100usize, 10usize) ==> Self::new_limits_range_ok(*book))
                &&& !(book.bookname matches Some(b) && trim(b@).len() == 0)
                &&& trim(book.author@).len() > 0
                &&& pattern_matches(CSS_VALUE_PATTERN@, trim(book.paragraph_spacing@))
                &&& css_variables_error(book.css_variables@) is None
                &&& !(book.output_name matches Some(o) && trim(o@).len() == 0)
            },
    {
        let ghost limits = self.limits();
        let rf = self.validate_files(book, &probe);
        if let Err(e) = rf {
            proof { lemma_files_failed(probe, *book, Err(e), true); }
            return Err(e);
        }
        let rr = self.validate_ranges(book);
        if let Err(e) = rr {
            proof { lemma_files_passed(probe, *book, Err(e), fails_with(Err(e), self.range_error(*book)->0)); }
            return Err(e);
        }
        let rm = self.validate_formats(book, &probe);
        if let Err(e) = rm {
            proof {
                lemma_formats_failed(probe, *book, Err(e), consistency_outcome(*book, Err(e)));
                lemma_files_passed(probe, *book, Err(e), formats_chain(probe, *book, Err(e), consistency_outcome(*book, Err(e))));
            }
            return Err(e);
        }
        let rc = self.validate_consistency(book);
        proof {
            lemma_formats_passed(probe, *book, rc, consistency_outcome(*book, rc));
            lemma_files_passed(probe, *book, rc, formats_chain(probe, *book, rc, consistency_outcome(*book, rc)));
        }
        rc
    }

    /// Checks that the input file and every resource exist.
    fn validate_files<F: Fn(&Query) -> bool>(&self, book: &Book, probe: &F) -> (r: Result<(), KafError>)
        requires
            forall|q: &Query| probe.requires((q,)),
        ensures
            files_outcome(*probe, *book, r, r is Ok),
            book.filename@.len() == 0 ==> (r matches Err(KafError::ParseError(m)) && m@ == "缺少必需字段: "@ + "filename"@),
            r is Ok ==> book.filename@.len() > 0 && answered(*probe, Query::IsFile(book.filename), true),
    {
        if chars_of(book.filename.as_str()).len() == 0 {
            return Err(ValidationError::MissingField("filename".to_string()).into_error());
        }
        let q = Query::IsFile(book.filename.clone());
        assert(query_view(q) == (0u8, book.filename@));
        if !probe(&q) {
            return Err(ValidationError::FileNotFound(book.filename.clone()).into_error());
        }
        let parent = parent_of(book.filename.as_str());
        let base = match &parent { Some(p) => Some(p.as_str()), None => None };
        let ghost gbase = path_parent(book.filename@);
        assert(match base { Some(b) => Some(b@), None => None } == gbase);
        if let Some(CoverSource::Local { path }) = &book.cover {
            match Self::require_file(path.as_str(), base, "封面", probe) {
                Ok(_) => {},
                Err(e) => { return Err(e); },
            }
        }
        if let Some(path) = &book.custom_css {
            match Self::require_file(path.as_str(), base, "自定义 CSS", probe) {
                Ok(_) => {},
                Err(e) => { return Err(e); },
            }
        }
        if let Some(path) = &book.font {
            let resolved = match Self::require_file(path.as_str(), base, "字体", probe) {
                Ok(p) => p,
                Err(e) => { return Err(e); },
            };
            proof { reveal_strlit("ttf"); reveal_strlit("otf"); reveal_strlit("woff"); reveal_strlit("woff2"); reveal_strlit("ttc"); }
            let font_ok = match extension_of(resolved.as_str()) {
                Some(e) => {
                    let ext = ascii_lowercase(&chars_of(e.as_str()));
                    chars_eq_str(&ext, "ttf") || chars_eq_str(&ext, "otf") || chars_eq_str(&ext, "woff")
                        || chars_eq_str(&ext, "woff2") || chars_eq_str(&ext, "ttc")
                },
                None => false,
            };
            if !font_ok {
                let mut m = "不支持的字体格式: ".to_string();
                push_str(&mut m, resolved.as_str());
                return Err(ValidationError::InvalidValue(m).into_error());
            }
            assert(font_extension_ok(resolved@));
            assert(answered_on(*probe, 0u8, resource_path(path@, gbase), true));
        }
        match book.chapter_header.mode {
            HeaderMode::Single => {
                if let Some(path) = &book.chapter_header.image {
                    match Self::require_file(path.as_str(), base, "章节页眉", probe) {
                        Ok(_) => {},
                        Err(e) => { return Err(e); },
                    }
                }
            },
            HeaderMode::Folder => {
                let folder = match &book.chapter_header.image_folder {
                    Some(f) => f,
                    None => {
                        return Err(ValidationError::MissingField("chapter_header.image_folder".to_string()).into_error());
                    },
                };
                let resolved = resolve_resource_path(folder.as_str(), base);
                let q = Query::IsDir(resolved.clone());
                assert(query_view(q) == (1u8, resolved@));
                if !probe(&q) {
                    let mut m = "章节页眉路径不是目录: ".to_string();
                    push_str(&mut m, resolved.as_str());
                    return Err(ValidationError::InvalidValue(m).into_error());
                }
            },
        }
        Ok(())
    }

    /// The resource path resolved against `base`, when it is a file.
    fn require_file<F: Fn(&Query) -> bool>(path: &str, base: Option<&str>, label: &str, probe: &F)
        -> (r: Result<String, KafError>)
        requires
            forall|q: &Query| probe.requires((q,)),
        ensures
            ({
                let p = resource_path(path@, match base { Some(b) => Some(b@), None => None });
                &&& r matches Ok(x) ==> x@ == p && answered(*probe, Query::IsFile(x), true)
                    && answered_on(*probe, 0u8, p, true)
                &&& r matches Err(e) ==> answered_on(*probe, 0u8, p, false) && (e matches KafError::ParseError(m)
                    && m@ == "无效的值: "@ + label@ + "路径不是文件: "@ + p)
            }),
    {
        let resolved = resolve_resource_path(path, base);
        let q = Query::IsFile(resolved.clone());
        assert(query_view(q) == (0u8, resolved@));
        if !probe(&q) {
            let mut m = label.to_string();
            push_str(&mut m, "路径不是文件: ");
            push_str(&mut m, resolved.as_str());
            let e = ValidationError::InvalidValue(m).into_error();
            assert(("无效的值: "@ + label@ + "路径不是文件: "@ + resolved@) =~= ("无效的值: "@
                + (label@ + "路径不是文件: "@ + resolved@)));
            return Err(e);
        }
        Ok(resolved)
    }

    /// Checks the numeric limits.
    fn validate_ranges(&self, book: &Book) -> (r: Result<(), KafError>)
        ensures
            match self.range_error(*book) {
                Some(m) => r matches Err(KafError::ParseError(e)) && e@ == m,
                None => r is Ok,
            },
    {
        if !(self.min_title_length_limit <= book.max_title_length && book.max_title_length <= self.max_title_length_limit) {
            let mut m: Vec<char> = chars_of("max_title_length 必须在 ");
            crate::text::extend_chars(&mut m, &decimal(self.min_title_length_limit as u64));
            crate::text::extend_chars(&mut m, &chars_of(" 到 "));
            crate::text::extend_chars(&mut m, &decimal(self.max_title_length_limit as u64));
            crate::text::extend_chars(&mut m, &chars_of(" 之间"));
            let e = ValidationError::OutOfRange(string_of(&m)).into_error();
            proof {
                let (lo, hi, ind) = self.limits();
                assert(("值超出范围: "@ + "max_title_length 必须在 "@ + dec(lo as nat) + " 到 "@ + dec(hi as nat) + " 之间"@)
                    =~= ("值超出范围: "@ + ("max_title_length 必须在 "@ + dec(lo as nat) + " 到 "@ + dec(hi as nat)
                    + " 之间"@)));
            }
            return Err(e);
        }
        if book.indent > self.max_indent_limit {
            let mut m: Vec<char> = chars_of("indent 不能超过 ");
            crate::text::extend_chars(&mut m, &decimal(self.max_indent_limit as u64));
            let e = ValidationError::OutOfRange(string_of(&m)).into_error();
            proof {
                let (lo, hi, ind) = self.limits();
                assert(("值超出范围: "@ + "indent 不能超过 "@ + dec(ind as nat)) =~= ("值超出范围: "@ + ("indent 不能超过 "@
                    + dec(ind as nat))));
            }
            return Err(e);
        }
        if book.lookahead_lines == 0 {
            return Err(ValidationError::OutOfRange("lookahead_lines 必须大于 0".to_string()).into_error());
        }
        Ok(())
    }

    /// Whether `value`, trimmed, is a plain CSS length.
    fn validate_css_value(value: &str) -> (r: bool)
        ensures
            r == pattern_matches(CSS_VALUE_PATTERN@, trim(value@)),
    {
        let t = trim_chars(&chars_of(value));
        matches_pattern(CSS_VALUE_PATTERN, string_of(&t).as_str())
    }

    /// Whether `n` is a non-empty run of allowed name characters.
    fn name_chars_ok(n: &[char]) -> (r: bool)
        ensures
            r == css_name_chars(n@),
    {
        if n.len() == 0 {
            return false;
        }
        let mut i: usize = 0;
        while i < n.len()
            invariant
                i <= n@.len(),
                forall|k: int| 0 <= k < i ==> css_name_char(#[trigger] n@[k]),
            decreases n.len() - i,
        {
            let c = n[i];
            if !(('a' <= c && c <= 'z') || ('A' <= c && c <= 'Z') || ('0' <= c && c <= '9') || c == '-' || c == '_') {
                assert(!css_name_char(n@[i as int]));
                return false;
            }
            i = i + 1;
        }
        true
    }

    /// Whether a CSS variable name is acceptable.
    fn css_name_valid(name: &str) -> (r: bool)
        ensures
            r == css_name_ok(name@),
    {
        let all = chars_of(name);
        if crate::text::starts_with_str(&all, "--") {
            let mut rest: Vec<char> = Vec::new();
            let mut i: usize = 2;
            proof { reveal_strlit("--"); }
            while i < all.len()
                invariant
                    2 <= i <= all@.len(),
                    rest@ == all@.subrange(2, i as int),
                decreases all.len() - i,
            {
                rest.push(all[i]);
                i = i + 1;
                assert(all@.subrange(2, i as int) == all@.subrange(2, i - 1).push(all@[i - 1]));
            }
            assert(rest@ == name@.skip(2));
            Self::name_chars_ok(&rest)
        } else {
            Self::name_chars_ok(&all)
        }
    }

    /// Checks the texts of `book`: names, author, lengths, CSS variables.
    fn validate_formats<F: Fn(&Query) -> bool>(&self, book: &Book, probe: &F) -> (r: Result<(), KafError>)
        requires
            forall|q: &Query| probe.requires((q,)),
        ensures
            r is Ok ==> {
                &&& !(book.bookname matches Some(b) && trim(b@).len() == 0)
                &&& trim(book.author@).len() > 0
                &&& pattern_matches(CSS_VALUE_PATTERN@, trim(book.paragraph_spacing@))
                &&& css_variables_error(book.css_variables@) is None
                &&& (book.line_height matches Some(h) ==> answered(*probe, Query::PositiveNumber(h), true)
                    || pattern_matches(CSS_VALUE_PATTERN@, trim(h@)))
            },
            formats_outcome(*probe, *book, r),
    {
        if let Some(b) = &book.bookname {
            if trim_chars(&chars_of(b.as_str())).len() == 0 {
                return Err(ValidationError::InvalidValue("书名不能为空".to_string()).into_error());
            }
        }
        if trim_chars(&chars_of(book.author.as_str())).len() == 0 {
            return Err(ValidationError::InvalidValue("作者不能为空".to_string()).into_error());
        }
        if !Self::validate_css_value(book.paragraph_spacing.as_str()) {
            let mut m = "无效的段落间距: ".to_string();
            push_str(&mut m, book.paragraph_spacing.as_str());
            return Err(ValidationError::InvalidValue(m).into_error());
        }
        if let Some(h) = &book.line_height {
            let q = Query::PositiveNumber(h.clone());
            let valid = probe(&q) || Self::validate_css_value(h.as_str());
            if !valid {
                let mut m = "无效的行高: ".to_string();
                push_str(&mut m, h.as_str());
                return Err(ValidationError::InvalidValue(m).into_error());
            }
        }
        let mut i: usize = 0;
        while i < book.css_variables.len()
            invariant
                i <= book.css_variables@.len(),
                css_variables_error(book.css_variables@.take(i as int)) is None,
                !(book.bookname matches Some(b) && trim(b@).len() == 0),
                trim(book.author@).len() > 0,
                pattern_matches(CSS_VALUE_PATTERN@, trim(book.paragraph_spacing@)),
                book.line_height matches Some(h) ==> answered(*probe, Query::PositiveNumber(h), true)
                    || pattern_matches(CSS_VALUE_PATTERN@, trim(h@)),
            decreases book.css_variables.len() - i,
        {
            assert(book.css_variables@.take(i + 1).drop_last() == book.css_variables@.take(i as int));
            let (name, value) = &book.css_variables[i];
            assert(book.css_variables@.take(i + 1).last() == book.css_variables@[i as int]);
            if !Self::css_name_valid(name.as_str()) {
                let mut m = "无效的 CSS 变量名: ".to_string();
                push_str(&mut m, name.as_str());
                proof { lemma_variables_error_prefix(book.css_variables@, i + 1); }
                return Err(ValidationError::InvalidValue(m).into_error());
            }
            let vc = chars_of(value.as_str());
            if contains_char(&vc, ';') || contains_char(&vc, '{') || contains_char(&vc, '}') {
                let mut m = "CSS 变量 ".to_string();
                push_str(&mut m, name.as_str());
                push_str(&mut m, " 包含不允许的字符");
                proof { lemma_variables_error_prefix(book.css_variables@, i + 1); }
                return Err(ValidationError::InvalidValue(m).into_error());
            }
            i = i + 1;
        }
        assert(book.css_variables@.take(book.css_variables@.len() as int) == book.css_variables@);
        Ok(())
    }

    /// Checks that an output name, when given, is not blank.
    fn validate_consistency(&self, book: &Book) -> (r: Result<(), KafError>)
        ensures
            consistency_outcome(*book, r),
            match book.output_name {
                Some(o) if trim(o@).len() == 0 => r matches Err(KafError::ParseError(m))
                    && m@ == "无效的值: "@ + "output_name 不能为空"@,
                _ => r is Ok,
            },
    {
        if let Some(o) = &book.output_name {
            if trim_chars(&chars_of(o.as_str())).len() == 0 {
                return Err(ValidationError::InvalidValue("output_name 不能为空".to_string()).into_error());
            }
        }
        Ok(())
    }

    /// Sets the largest longest-title.
    pub fn set_max_title_length_limit(&mut self, limit: usize)
        ensures
            final(self).limits() == (old(self).limits().0, limit, old(self).limits().2),
    {
        self.max_title_length_limit = limit;
    }

    /// Sets the smallest longest-title.
    pub fn set_min_title_length_limit(&mut self, limit: usize)
        ensures
            final(self).limits() == (limit, old(self).limits().1, old(self).limits().2),
    {
        self.min_title_length_limit = limit;
    }

    /// Sets the largest indent.
    pub fn set_max_indent_limit(&mut self, limit: usize)
        ensures
            final(self).limits() == (old(self).limits().0, old(self).limits().1, limit),
    {
        self.max_indent_limit = limit;
    }
}

impl Default for ConfigValidator {
    fn default() -> (r: Self)
        ensures
            r.limits() == (5usize, 100usize, 10usize),
    {
        Self::new()
    }
}


/// The check of the CSS variables: the first bad one is the error, else
/// `rest`.
pub open spec fn variables_chain(book: Book, r: Result<(), KafError>, rest: bool) -> bool {
    match css_variables_error(book.css_variables@) {
        Some(m) => fails_with(r, "无效的值: "@ + m),
        None => rest,
    }
}

/// The outcome of checking the CSS variables: the first bad one is an
/// error, else success.
pub open spec fn variables_outcome(book: Book, r: Result<(), KafError>) -> bool {
    variables_chain(book, r, r is Ok)
}

/// The checks of the texts of `book`, in order: a blank title, a blank
/// author, a bad paragraph spacing, a line height that is neither a
/// positive number (as `probe` answers) nor a CSS value, then the CSS
/// variables; the first problem is the error, else `rest`.
pub open spec fn formats_chain<F: Fn(&Query) -> bool>(probe: F, book: Book, r: Result<(), KafError>, rest: bool)
    -> bool {
    if book.bookname matches Some(b) && trim(b@).len() == 0 {
        fails_with(r, "无效的值: "@ + "书名不能为空"@)
    } else if trim(book.author@).len() == 0 {
        fails_with(r, "无效的值: "@ + "作者不能为空"@)
    } else if !pattern_matches(CSS_VALUE_PATTERN@, trim(book.paragraph_spacing@)) {
        fails_with(r, "无效的值: "@ + ("无效的段落间距: "@ + book.paragraph_spacing@))
    } else {
        match book.line_height {
            Some(h) => if pattern_matches(CSS_VALUE_PATTERN@, trim(h@)) {
                variables_chain(book, r, rest)
            } else {
                ||| answered(probe, Query::PositiveNumber(h), true) && variables_chain(book, r, rest)
                ||| answered(probe, Query::PositiveNumber(h), false) && fails_with(
                    r,
                    "无效的值: "@ + ("无效的行高: "@ + h@),
                )
            },
            None => variables_chain(book, r, rest),
        }
    }
}

/// The outcome of checking the texts of `book`: the first problem is the
/// error, else success.
pub open spec fn formats_outcome<F: Fn(&Query) -> bool>(probe: F, book: Book, r: Result<(), KafError>) -> bool {
    formats_chain(probe, book, r, r is Ok)
}

/// A passed text check passes on to whatever follows it.
proof fn lemma_formats_passed<F: Fn(&Query) -> bool>(probe: F, book: Book, r: Result<(), KafError>, rest: bool)
    requires
        formats_chain(probe, book, Ok(()), true),
        rest,
    ensures
        formats_chain(probe, book, r, rest),
{
}

/// A failed text check stays failed whatever would follow it.
proof fn lemma_formats_failed<F: Fn(&Query) -> bool>(probe: F, book: Book, r: Result<(), KafError>, rest: bool)
    requires
        formats_chain(probe, book, r, false),
    ensures
        formats_chain(probe, book, r, rest),
{
}

/// A passed file check passes on to whatever follows it.
proof fn lemma_files_passed<F: Fn(&Query) -> bool>(probe: F, book: Book, r: Result<(), KafError>, rest: bool)
    requires
        files_outcome(probe, book, Ok(()), true),
        rest,
    ensures
        files_outcome(probe, book, r, rest),
{
}

/// A failed file check stays failed whatever would follow it.
proof fn lemma_files_failed<F: Fn(&Query) -> bool>(probe: F, book: Book, r: Result<(), KafError>, rest: bool)
    requires
        files_outcome(probe, book, r, false),
    ensures
        files_outcome(probe, book, r, rest),
{
}

/// Once a prefix of the variables has a bad one, the whole list has the
/// same first bad one.
proof fn lemma_variables_error_prefix(vars: Seq<(String, String)>, k: int)
    requires
        0 <= k <= vars.len(),
        css_variables_error(vars.take(k)) is Some,
    ensures
        css_variables_error(vars) == css_variables_error(vars.take(k)),
    decreases vars.len() - k,
{
    if k < vars.len() {
        assert(vars.take(k + 1).drop_last() == vars.take(k));
        lemma_variables_error_prefix(vars, k + 1);
    } else {
        assert(vars.take(k) == vars);
    }
}

} // verus!
