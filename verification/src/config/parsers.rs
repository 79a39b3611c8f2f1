//! Parsers for the enumerated configuration values, shared by the
//! configuration file and the command line.
//!
//! Each value is compared case-insensitively: the input is lowered with
//! `str::to_lowercase` and the lowered text is looked up among the keywords.

use vstd::prelude::*;
use crate::error::KafError;
use crate::model::{InputFormat, Language, OutputFormat, TextAlignment, ThemePreset};
use crate::text::{chars_eq_str, chars_of, lowercase, push_str, to_lowercase};

verus! {

/// The alignment a lower-case keyword names.
pub open spec fn align_keyword(l: Seq<char>) -> Option<TextAlignment> {
    if l == "left"@ {
        Some(TextAlignment::Left)
    } else if l == "center"@ {
        Some(TextAlignment::Center)
    } else if l == "right"@ {
        Some(TextAlignment::Right)
    } else {
        None
    }
}

/// The language a lower-case keyword names.
pub open spec fn lang_keyword(l: Seq<char>) -> Option<Language> {
    if l == "zh"@ {
        Some(Language::Zh)
    } else if l == "en"@ {
        Some(Language::En)
    } else if l == "de"@ {
        Some(Language::De)
    } else if l == "fr"@ {
        Some(Language::Fr)
    } else if l == "it"@ {
        Some(Language::It)
    } else if l == "es"@ {
        Some(Language::Es)
    } else if l == "ja"@ {
        Some(Language::Ja)
    } else if l == "pt"@ {
        Some(Language::Pt)
    } else if l == "ru"@ {
        Some(Language::Ru)
    } else if l == "nl"@ {
        Some(Language::Nl)
    } else {
        None
    }
}

/// The output format a lower-case keyword names.
pub open spec fn format_keyword(l: Seq<char>) -> Option<OutputFormat> {
    if l == "epub"@ {
        Some(OutputFormat::Epub)
    } else if l == "all"@ {
        Some(OutputFormat::All)
    } else {
        None
    }
}

/// The input format a lower-case keyword names.
pub open spec fn input_format_keyword(l: Seq<char>) -> Option<InputFormat> {
    if l == "auto"@ {
        Some(InputFormat::Auto)
    } else if l == "txt"@ || l == "text"@ {
        Some(InputFormat::Txt)
    } else if l == "markdown"@ || l == "md"@ {
        Some(InputFormat::Markdown)
    } else {
        None
    }
}

/// The theme a lower-case keyword names.
pub open spec fn theme_keyword(l: Seq<char>) -> Option<ThemePreset> {
    if l == "light"@ {
        Some(ThemePreset::Light)
    } else if l == "dark"@ {
        Some(ThemePreset::Dark)
    } else if l == "sepia"@ {
        Some(ThemePreset::Sepia)
    } else if l == "high_contrast"@ || l == "high-contrast"@ || l == "highcontrast"@ {
        Some(ThemePreset::HighContrast)
    } else if l == "modern"@ {
        Some(ThemePreset::Modern)
    } else if l == "traditional"@ {
        Some(ThemePreset::Traditional)
    } else {
        None
    }
}

/// `prefix` followed by `s`.
pub fn message(prefix: &str, s: &str) -> (r: String)
    ensures
        r@ == prefix@ + s@,
{
    let mut m = prefix.to_owned();
    push_str(&mut m, s);
    m
}

/// The alignment the lower-case keyword `lowered` names.
pub fn align_of_keyword(lowered: &str) -> (r: Option<TextAlignment>)
    ensures
        r == align_keyword(lowered@),
{
    let l = chars_of(lowered);
    if chars_eq_str(&l, "left") {
        Some(TextAlignment::Left)
    } else if chars_eq_str(&l, "center") {
        Some(TextAlignment::Center)
    } else if chars_eq_str(&l, "right") {
        Some(TextAlignment::Right)
    } else {
        None
    }
}

/// The language the lower-case keyword `lowered` names.
pub fn lang_of_keyword(lowered: &str) -> (r: Option<Language>)
    ensures
        r == lang_keyword(lowered@),
{
    let l = chars_of(lowered);
    if chars_eq_str(&l, "zh") {
        Some(Language::Zh)
    } else if chars_eq_str(&l, "en") {
        Some(Language::En)
    } else if chars_eq_str(&l, "de") {
        Some(Language::De)
    } else if chars_eq_str(&l, "fr") {
        Some(Language::Fr)
    } else if chars_eq_str(&l, "it") {
        Some(Language::It)
    } else if chars_eq_str(&l, "es") {
        Some(Language::Es)
    } else if chars_eq_str(&l, "ja") {
        Some(Language::Ja)
    } else if chars_eq_str(&l, "pt") {
        Some(Language::Pt)
    } else if chars_eq_str(&l, "ru") {
        Some(Language::Ru)
    } else if chars_eq_str(&l, "nl") {
        Some(Language::Nl)
    } else {
        None
    }
}

/// The output format the lower-case keyword `lowered` names.
pub fn format_of_keyword(lowered: &str) -> (r: Option<OutputFormat>)
    ensures
        r == format_keyword(lowered@),
{
    let l = chars_of(lowered);
    if chars_eq_str(&l, "epub") {
        Some(OutputFormat::Epub)
    } else if chars_eq_str(&l, "all") {
        Some(OutputFormat::All)
    } else {
        None
    }
}

/// The input format the lower-case keyword `lowered` names.
pub fn input_format_of_keyword(lowered: &str) -> (r: Option<InputFormat>)
    ensures
        r == input_format_keyword(lowered@),
{
    let l = chars_of(lowered);
    if chars_eq_str(&l, "auto") {
        Some(InputFormat::Auto)
    } else if chars_eq_str(&l, "txt") || chars_eq_str(&l, "text") {
        Some(InputFormat::Txt)
    } else if chars_eq_str(&l, "markdown") || chars_eq_str(&l, "md") {
        Some(InputFormat::Markdown)
    } else {
        None
    }
}

/// The theme the lower-case keyword `lowered` names.
pub fn theme_of_keyword(lowered: &str) -> (r: Option<ThemePreset>)
    ensures
        r == theme_keyword(lowered@),
{
    let l = chars_of(lowered);
    if chars_eq_str(&l, "light") {
        Some(ThemePreset::Light)
    } else if chars_eq_str(&l, "dark") {
        Some(ThemePreset::Dark)
    } else if chars_eq_str(&l, "sepia") {
        Some(ThemePreset::Sepia)
    } else if chars_eq_str(&l, "high_contrast") || chars_eq_str(&l, "high-contrast")
        || chars_eq_str(&l, "highcontrast") {
        Some(ThemePreset::HighContrast)
    } else if chars_eq_str(&l, "modern") {
        Some(ThemePreset::Modern)
    } else if chars_eq_str(&l, "traditional") {
        Some(ThemePreset::Traditional)
    } else {
        None
    }
}

/// Parses an alignment, ignoring case.
pub fn parse_align(s: &str) -> (r: Result<TextAlignment, KafError>)
    ensures
        match align_keyword(lowercase(s@)) {
            Some(a) => r == Ok::<TextAlignment, KafError>(a),
            None => r matches Err(KafError::ParseError(m)) && m@ == "无效的对齐方式: "@ + s@,
        },
{
    match align_of_keyword(&to_lowercase(s)) {
        Some(a) => Ok(a),
        None => Err(KafError::ParseError(message("无效的对齐方式: ", s))),
    }
}

/// Parses a language, ignoring case.
pub fn parse_lang(s: &str) -> (r: Result<Language, KafError>)
    ensures
        match lang_keyword(lowercase(s@)) {
            Some(a) => r == Ok::<Language, KafError>(a),
            None => r matches Err(KafError::ParseError(m)) && m@ == "无效的语言: "@ + s@,
        },
{
    match lang_of_keyword(&to_lowercase(s)) {
        Some(a) => Ok(a),
        None => Err(KafError::ParseError(message("无效的语言: ", s))),
    }
}

/// Parses an output format, ignoring case.
pub fn parse_format(s: &str) -> (r: Result<OutputFormat, KafError>)
    ensures
        match format_keyword(lowercase(s@)) {
            Some(a) => r == Ok::<OutputFormat, KafError>(a),
            None => r matches Err(KafError::ParseError(m)) && m@ == "无效的输出格式: "@ + s@,
        },
{
    match format_of_keyword(&to_lowercase(s)) {
        Some(a) => Ok(a),
        None => Err(KafError::ParseError(message("无效的输出格式: ", s))),
    }
}

/// Parses an input format, ignoring case.
pub fn parse_input_format(s: &str) -> (r: Result<InputFormat, KafError>)
    ensures
        match input_format_keyword(lowercase(s@)) {
            Some(a) => r == Ok::<InputFormat, KafError>(a),
            None => r matches Err(KafError::ParseError(m)) && m@ == "无效的输入格式: "@ + s@,
        },
{
    match input_format_of_keyword(&to_lowercase(s)) {
        Some(a) => Ok(a),
        None => Err(KafError::ParseError(message("无效的输入格式: ", s))),
    }
}

/// Parses a theme preset, ignoring case.
pub fn parse_theme(s: &str) -> (r: Result<ThemePreset, KafError>)
    ensures
        match theme_keyword(lowercase(s@)) {
            Some(a) => r == Ok::<ThemePreset, KafError>(a),
            None => r matches Err(KafError::ParseError(m)) && m@ == "无效的主题: "@ + s@,
        },
{
    match theme_of_keyword(&to_lowercase(s)) {
        Some(a) => Ok(a),
        None => Err(KafError::ParseError(message("无效的主题: ", s))),
    }
}

} // verus!
