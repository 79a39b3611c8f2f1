//! An earlier configuration loader: a YAML file read field by field, and
//! the command line applied in full.

use vstd::prelude::*;
use crate::cli::Cli;
use crate::config::loader::{config_candidates, opt_seq, probed, replaced, value_or, ConfigLoader as Finder};
use crate::config::parsers::{align_keyword, format_keyword, lang_keyword};
use crate::error::KafError;
use crate::model::{is_default_book, Book, CoverSource, Language, OutputFormat, TextAlignment};
use crate::text::lowercase;

verus! {

/// Where a configuration came from.
#[derive(Debug, Clone)]
pub enum ConfigSource {
    /// The command line (highest priority).
    Cli,
    /// A configuration file.
    File(String),
    /// The defaults.
    Default,
}

/// The values of a YAML configuration file: for each known key, its value
/// when it has the expected type.
#[derive(Debug, Clone)]
pub struct YamlConfig {
    pub bookname: Option<String>,
    pub author: Option<String>,
    pub chapter_match: Option<String>,
    pub volume_match: Option<String>,
    pub exclusion_pattern: Option<String>,
    pub unknown_title: Option<String>,
    pub paragraph_spacing: Option<String>,
    pub line_height: Option<String>,
    pub max_title_length: Option<u64>,
    pub indent: Option<u64>,
    pub add_tips: Option<bool>,
    pub separate_chapter_number: Option<bool>,
    pub align: Option<String>,
    pub lang: Option<String>,
    pub format: Option<String>,
    pub custom_css: Option<String>,
    pub extended_css: Option<String>,
    pub font: Option<String>,
    pub cover: Option<String>,
    pub output_name: Option<String>,
}

/// The message of the first value of the file naming nothing known:
/// alignment, language, output format.
pub open spec fn yaml_error(cfg: YamlConfig) -> Option<Seq<char>> {
    if cfg.align matches Some(v) && align_keyword(lowercase(v@)) is None {
        Some("无效的对齐方式: "@ + cfg.align->0@)
    } else if cfg.lang matches Some(v) && lang_keyword(lowercase(v@)) is None {
        Some("无效的语言: "@ + cfg.lang->0@)
    } else if cfg.format matches Some(v) && format_keyword(lowercase(v@)) is None {
        Some("无效的输出格式: "@ + cfg.format->0@)
    } else {
        None
    }
}

/// `new` is `old` with the values of the file set; paths are kept as given.
pub open spec fn yaml_merged(old: Book, cfg: YamlConfig, new: Book) -> bool {
    &&& new.filename == old.filename
    &&& new.bookname == replaced(old.bookname, cfg.bookname)
    &&& new.author == value_or(old.author, cfg.author)
    &&& new.chapter_match == replaced(old.chapter_match, cfg.chapter_match)
    &&& new.volume_match == replaced(old.volume_match, cfg.volume_match)
    &&& new.exclusion_pattern == replaced(old.exclusion_pattern, cfg.exclusion_pattern)
    &&& new.unknown_title == value_or(old.unknown_title, cfg.unknown_title)
    &&& new.paragraph_spacing == value_or(old.paragraph_spacing, cfg.paragraph_spacing)
    &&& new.line_height == replaced(old.line_height, cfg.line_height)
    &&& new.max_title_length == match cfg.max_title_length { Some(n) => n as usize, None => old.max_title_length }
    &&& new.indent == match cfg.indent { Some(n) => n as usize, None => old.indent }
    &&& new.add_tips == value_or(old.add_tips, cfg.add_tips)
    &&& new.separate_chapter_number == value_or(old.separate_chapter_number, cfg.separate_chapter_number)
    &&& new.align == match cfg.align { Some(v) => align_keyword(lowercase(v@))->0, None => old.align }
    &&& new.lang == match cfg.lang { Some(v) => lang_keyword(lowercase(v@))->0, None => old.lang }
    &&& new.format == match cfg.format { Some(v) => format_keyword(lowercase(v@))->0, None => old.format }
    &&& new.custom_css == replaced(old.custom_css, cfg.custom_css)
    &&& new.extended_css == replaced(old.extended_css, cfg.extended_css)
    &&& new.font == replaced(old.font, cfg.font)
    &&& match cfg.cover {
        Some(p) => new.cover == Some(CoverSource::Local { path: p }),
        None => new.cover == old.cover,
    }
    &&& new.output_name == replaced(old.output_name, cfg.output_name)
    &&& new.css_variables == old.css_variables
    &&& new.chapter_header == old.chapter_header
    &&& new.theme == old.theme
    &&& new.input_format == old.input_format
    &&& new.lookahead_lines == old.lookahead_lines
}

/// The message of the first command-line value naming nothing known:
/// alignment, output format, language.
pub open spec fn full_cli_error(cli: Cli) -> Option<Seq<char>> {
    if align_keyword(lowercase(cli.align@)) is None {
        Some("无效的对齐方式: "@ + cli.align@)
    } else if format_keyword(lowercase(cli.format@)) is None {
        Some("无效的输出格式: "@ + cli.format@)
    } else if lang_keyword(lowercase(cli.lang@)) is None {
        Some("无效的语言: "@ + cli.lang@)
    } else {
        None
    }
}

/// `new` is `old` with every command-line value applied, defaults
/// included; paths are kept as given.
pub open spec fn fully_applied(old: Book, cli: Cli, new: Book) -> bool {
    &&& new.filename == value_or(old.filename, cli.filename)
    &&& new.bookname == replaced(old.bookname, cli.bookname)
    &&& new.author == cli.author
    &&& new.chapter_match == replaced(old.chapter_match, cli.chapter_match)
    &&& new.volume_match == replaced(old.volume_match, cli.volume_match)
    &&& new.exclusion_pattern == replaced(old.exclusion_pattern, cli.exclude)
    &&& new.max_title_length == cli.max_title_length
    &&& new.indent == cli.indent
    &&& new.align == align_keyword(lowercase(cli.align@))->0
    &&& new.format == format_keyword(lowercase(cli.format@))->0
    &&& new.lang == lang_keyword(lowercase(cli.lang@))->0
    &&& new.separate_chapter_number == cli.separate_chapter_number
    &&& match cli.cover {
        Some(p) => new.cover == Some(CoverSource::Local { path: p }),
        None => new.cover == old.cover,
    }
    &&& new.custom_css == replaced(old.custom_css, cli.custom_css)
    &&& new.extended_css == replaced(old.extended_css, cli.extended_css)
    &&& new.font == replaced(old.font, cli.font)
    &&& new.line_height == replaced(old.line_height, cli.line_height)
    &&& new.paragraph_spacing == value_or(old.paragraph_spacing, cli.paragraph_spacing)
    &&& new.unknown_title == old.unknown_title
    &&& new.add_tips == old.add_tips
    &&& new.output_name == old.output_name
    &&& new.css_variables == old.css_variables
    &&& new.chapter_header == old.chapter_header
    &&& new.theme == old.theme
    &&& new.input_format == old.input_format
    &&& new.lookahead_lines == old.lookahead_lines
}

/// Loads configurations.
pub struct ConfigLoader {
    /// The configuration file names looked for.
    pub config_filenames: Vec<String>,
}

impl ConfigLoader {
    /// A loader looking for `kaf.yaml`, `kaf.yml`, `.kaf.yaml` and `.kaf.yml`.
    pub fn new() -> (r: Self)
        ensures
            r.config_filenames@.len() == 4,
            r.config_filenames@[0]@ == "kaf.yaml"@ && r.config_filenames@[1]@ == "kaf.yml"@,
            r.config_filenames@[2]@ == ".kaf.yaml"@ && r.config_filenames@[3]@ == ".kaf.yml"@,
    {
        let mut v: Vec<String> = Vec::new();
        v.push("kaf.yaml".to_string());
        v.push("kaf.yml".to_string());
        v.push(".kaf.yaml".to_string());
        v.push(".kaf.yml".to_string());
        ConfigLoader { config_filenames: v }
    }

    /// The configuration: defaults, then the values of the YAML file, then
    /// every command-line value.
    pub fn load_from_cli(&self, cli: &Cli, file: Option<&YamlConfig>) -> (r: Result<Book, KafError>)
        ensures
            match file {
                Some(cfg) if yaml_error(*cfg) is Some => r matches Err(KafError::ParseError(e))
                    && e@ == yaml_error(*cfg)->0,
                _ => match full_cli_error(*cli) {
                    Some(m) => r matches Err(KafError::ParseError(e)) && e@ == m,
                    None => r matches Ok(b) && exists|d: Book, m: Book| #![trigger is_default_book(d), fully_applied(m, *cli, b)]
                        is_default_book(d) && (match file { Some(cfg) => yaml_merged(d, *cfg, m), None => m == d })
                        && fully_applied(m, *cli, b),
                },
            },
    {
        let book = Book::default();
        let book = match file {
            Some(cfg) => self.merge_config(book, cfg)?,
            None => book,
        };
        self.apply_cli_config(book, cli)
    }

    /// The first candidate configuration file that exists, as the probe
    /// `exists` tells: the names in the input file's folder, then in `.`.
    pub fn find_config<F: Fn(&str) -> bool>(filename: &Option<String>, exists: F) -> (r: Option<String>)
        requires
            forall|s: &str| exists.requires((s,)),
        ensures
            ({
                let c = config_candidates(opt_seq(*filename));
                match r {
                    Some(p) => exists|k: int| 0 <= k < c.len() && c[k] == p@ && probed(exists, p@, true)
                        && forall|j: int| 0 <= j < k ==> probed(exists, #[trigger] c[j], false),
                    None => forall|j: int| 0 <= j < c.len() ==> probed(exists, #[trigger] c[j], false),
                }
            }),
    {
        Finder::find_config(filename, exists)
    }

    /// The book with the values of the YAML file set.
    pub fn merge_config(&self, book: Book, config: &YamlConfig) -> (r: Result<Book, KafError>)
        ensures
            match yaml_error(*config) {
                Some(m) => r matches Err(KafError::ParseError(e)) && e@ == m,
                None => r matches Ok(b) && yaml_merged(book, *config, b),
            },
    {
        let align = match &config.align { Some(s) => Self::parse_align(s.as_str())?, None => book.align };
        let lang = match &config.lang { Some(s) => Self::parse_lang(s.as_str())?, None => book.lang };
        let format = match &config.format { Some(s) => Self::parse_format(s.as_str())?, None => book.format };
        let cover = match &config.cover {
            Some(p) => Some(CoverSource::Local { path: p.clone() }),
            None => book.cover,
        };
        Ok(Book {
            bookname: match &config.bookname { Some(s) => Some(s.clone()), None => book.bookname },
            author: match &config.author { Some(s) => s.clone(), None => book.author },
            chapter_match: match &config.chapter_match { Some(s) => Some(s.clone()), None => book.chapter_match },
            volume_match: match &config.volume_match { Some(s) => Some(s.clone()), None => book.volume_match },
            exclusion_pattern: match &config.exclusion_pattern {
                Some(s) => Some(s.clone()),
                None => book.exclusion_pattern,
            },
            unknown_title: match &config.unknown_title { Some(s) => s.clone(), None => book.unknown_title },
            paragraph_spacing: match &config.paragraph_spacing {
                Some(s) => s.clone(),
                None => book.paragraph_spacing,
            },
            line_height: match &config.line_height { Some(s) => Some(s.clone()), None => book.line_height },
            max_title_length: match config.max_title_length { Some(n) => n as usize, None => book.max_title_length },
            indent: match config.indent { Some(n) => n as usize, None => book.indent },
            add_tips: match config.add_tips { Some(b) => b, None => book.add_tips },
            separate_chapter_number: match config.separate_chapter_number {
                Some(b) => b,
                None => book.separate_chapter_number,
            },
            align,
            lang,
            format,
            custom_css: match &config.custom_css { Some(s) => Some(s.clone()), None => book.custom_css },
            extended_css: match &config.extended_css { Some(s) => Some(s.clone()), None => book.extended_css },
            font: match &config.font { Some(s) => Some(s.clone()), None => book.font },
            cover,
            output_name: match &config.output_name { Some(s) => Some(s.clone()), None => book.output_name },
            ..book
        })
    }

    /// The book with every command-line value applied.
    pub fn apply_cli_config(&self, book: Book, cli: &Cli) -> (r: Result<Book, KafError>)
        ensures
            match full_cli_error(*cli) {
                Some(m) => r matches Err(KafError::ParseError(e)) && e@ == m,
                None => r matches Ok(b) && fully_applied(book, *cli, b),
            },
    {
        let align = Self::parse_align(cli.align.as_str())?;
        let format = Self::parse_format(cli.format.as_str())?;
        let lang = Self::parse_lang(cli.lang.as_str())?;
        let cover = match &cli.cover {
            Some(p) => Some(CoverSource::Local { path: p.clone() }),
            None => book.cover,
        };
        Ok(Book {
            filename: match &cli.filename { Some(s) => s.clone(), None => book.filename },
            bookname: match &cli.bookname { Some(s) => Some(s.clone()), None => book.bookname },
            author: cli.author.clone(),
            chapter_match: match &cli.chapter_match { Some(s) => Some(s.clone()), None => book.chapter_match },
            volume_match: match &cli.volume_match { Some(s) => Some(s.clone()), None => book.volume_match },
            exclusion_pattern: match &cli.exclude { Some(s) => Some(s.clone()), None => book.exclusion_pattern },
            max_title_length: cli.max_title_length,
            indent: cli.indent,
            align,
            format,
            lang,
            separate_chapter_number: cli.separate_chapter_number,
            cover,
            custom_css: match &cli.custom_css { Some(s) => Some(s.clone()), None => book.custom_css },
            extended_css: match &cli.extended_css { Some(s) => Some(s.clone()), None => book.extended_css },
            font: match &cli.font { Some(s) => Some(s.clone()), None => book.font },
            line_height: match &cli.line_height { Some(s) => Some(s.clone()), None => book.line_height },
            paragraph_spacing: match &cli.paragraph_spacing { Some(s) => s.clone(), None => book.paragraph_spacing },
            ..book
        })
    }

    /// Parses an alignment, ignoring case.
    pub fn parse_align(s: &str) -> (r: Result<TextAlignment, KafError>)
        ensures
            match align_keyword(lowercase(s@)) {
                Some(a) => r == Ok::<TextAlignment, KafError>(a),
                None => r matches Err(KafError::ParseError(m)) && m@ == "无效的对齐方式: "@ + s@,
            },
    {
        crate::config::parsers::parse_align(s)
    }

    /// Parses a language, ignoring case.
    pub fn parse_lang(s: &str) -> (r: Result<Language, KafError>)
        ensures
            match lang_keyword(lowercase(s@)) {
                Some(a) => r == Ok::<Language, KafError>(a),
                None => r matches Err(KafError::ParseError(m)) && m@ == "无效的语言: "@ + s@,
            },
    {
        crate::config::parsers::parse_lang(s)
    }

    /// Parses an output format, ignoring case.
    pub fn parse_format(s: &str) -> (r: Result<OutputFormat, KafError>)
        ensures
            match format_keyword(lowercase(s@)) {
                Some(a) => r == Ok::<OutputFormat, KafError>(a),
                None => r matches Err(KafError::ParseError(m)) && m@ == "无效的输出格式: "@ + s@,
            },
    {
        crate::config::parsers::parse_format(s)
    }
}

impl Default for ConfigLoader {
    fn default() -> (r: Self)
        ensures
            r.config_filenames@.len() == 4,
    {
        Self::new()
    }
}

} // verus!
