//! Error type of the library.

use vstd::prelude::*;

verus! {

/// `std::io::Error`, carried through unchanged.
#[verifier::external_type_specification]
#[verifier::external_body]
pub struct ExIoError(std::io::Error);

/// Every failure the library reports.
#[derive(Debug)]
pub enum KafError {
    /// The named file does not exist.
    FileNotFound(String),
    /// An input/output failure.
    Io(std::io::Error),
    /// A regular expression that does not compile.
    Regex(::regex::Error),
    /// Text that cannot be decoded.
    Encoding(String),
    /// Content or configuration that cannot be parsed.
    ParseError(String),
    /// The EPUB container could not be produced.
    EpubGenerationFailed(String),
    /// A configuration file that cannot be read as YAML.
    ConfigParseError(String),
    /// An image that cannot be processed.
    ImageError(String),
    /// A serialization failure.
    SerdeError(String),
    /// Anything else.
    Unknown(String),
    /// A ZIP container failure.
    Zip(String),
    /// A failure of the EPUB builder.
    EpubBuilder(String),
    /// A cover image that cannot be used.
    CoverError(String),
}

/// Calls the `Display` of `std::io::Error`; what the text says is left to
/// the standard library and is not stated.
#[verifier::external_body]
fn io_error_text(e: &std::io::Error) -> (r: String) {
    e.to_string()
}

/// Calls the `Display` of `regex::Error`, which describes why a pattern
/// does not compile; what the text says is not stated.
#[verifier::external_body]
fn regex_error_text(e: &::regex::Error) -> (r: String) {
    e.to_string()
}

/// `prefix` followed by `detail`.
fn concat(prefix: &str, detail: &str) -> (r: String)
    ensures
        r@ == prefix@ + detail@,
        crate::text::has_prefix(r@, prefix@),
{
    proof { crate::text::lemma_prefix_of_concat(prefix@, detail@); }
    let mut s = prefix.to_string();
    crate::text::push_str(&mut s, detail);
    s
}

/// The message of an error that carries its own text.
pub open spec fn message_of(e: KafError) -> Option<Seq<char>> {
    match e {
        KafError::FileNotFound(s) => Some("文件不存在: "@ + s@),
        KafError::Io(_) => None,
        KafError::Regex(_) => None,
        KafError::Encoding(s) => Some("编码检测失败: "@ + s@),
        KafError::ParseError(s) => Some("章节解析失败: "@ + s@),
        KafError::EpubGenerationFailed(s) => Some("EPUB 生成失败: "@ + s@),
        KafError::ConfigParseError(s) => Some("配置解析失败: "@ + s@),
        KafError::ImageError(s) => Some("图片处理失败: "@ + s@),
        KafError::SerdeError(s) => Some("序列化错误: "@ + s@),
        KafError::Unknown(s) => Some("未知错误: "@ + s@),
        KafError::Zip(s) => Some("ZIP 错误: "@ + s@),
        KafError::EpubBuilder(s) => Some("EPUB Builder 错误: "@ + s@),
        KafError::CoverError(s) => Some("封面处理失败: "@ + s@),
    }
}

impl KafError {
    /// The text of the error: a prefix naming the kind of failure, then
    /// its detail.
    pub fn message(&self) -> (r: String)
        ensures
            message_of(*self) matches Some(m) ==> r@ == m,
            self is Io ==> crate::text::has_prefix(r@, "IO 错误: "@),
            self is Regex ==> crate::text::has_prefix(r@, "正则表达式错误: "@),
    {
        match self {
            KafError::FileNotFound(s) => concat("文件不存在: ", s.as_str()),
            KafError::Io(e) => concat("IO 错误: ", io_error_text(e).as_str()),
            KafError::Regex(e) => concat("正则表达式错误: ", regex_error_text(e).as_str()),
            KafError::Encoding(s) => concat("编码检测失败: ", s.as_str()),
            KafError::ParseError(s) => concat("章节解析失败: ", s.as_str()),
            KafError::EpubGenerationFailed(s) => concat("EPUB 生成失败: ", s.as_str()),
            KafError::ConfigParseError(s) => concat("配置解析失败: ", s.as_str()),
            KafError::ImageError(s) => concat("图片处理失败: ", s.as_str()),
            KafError::SerdeError(s) => concat("序列化错误: ", s.as_str()),
            KafError::Unknown(s) => concat("未知错误: ", s.as_str()),
            KafError::Zip(s) => concat("ZIP 错误: ", s.as_str()),
            KafError::EpubBuilder(s) => concat("EPUB Builder 错误: ", s.as_str()),
            KafError::CoverError(s) => concat("封面处理失败: ", s.as_str()),
        }
    }
}

/// Result type of the library.
pub type Result<T> = std::result::Result<T, KafError>;


impl From<std::io::Error> for KafError {
    /// An input or output error.
    fn from(e: std::io::Error) -> (r: KafError) {
        KafError::Io(e)
    }
}

impl vstd::std_specs::convert::FromSpecImpl<std::io::Error> for KafError {
    open spec fn obeys_from_spec() -> bool {
        true
    }

    open spec fn from_spec(v: std::io::Error) -> KafError {
        KafError::Io(v)
    }
}

} // verus!
