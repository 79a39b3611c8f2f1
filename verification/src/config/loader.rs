//! Layered configuration: defaults, then a YAML file, then explicit
//! command-line options. Reading and decoding the file happens outside;
//! here the decoded values are merged.

use vstd::prelude::*;
use crate::cli::Cli;
use crate::config::parsers::{
    align_keyword, format_keyword, input_format_keyword, lang_keyword, parse_align, parse_format,
    parse_input_format, parse_lang, parse_theme, theme_keyword,
};
use crate::error::KafError;
use crate::model::{is_default_book, Book, ChapterHeader, CoverSource};
use crate::text::lowercase;
use crate::utils::file::{is_absolute_path, join_path, parent_of, path_absolute, path_joined, path_parent};

verus! {

/// Where a configuration came from.
#[derive(Debug, Clone)]
pub enum ConfigSource {
    Cli,
    File(String),
    Default,
}

/// Who set the author of a loaded configuration.
#[derive(Debug, Clone, Copy, PartialEq, Eq, Structural)]
pub enum AuthorSource {
    /// Nobody: the built-in default.
    Default,
    /// The configuration file.
    ConfigFile,
    /// An explicit command-line option.
    Cli,
}

/// A loaded configuration and the origin of its author.
#[derive(Debug, Clone)]
pub struct LoadedConfig {
    pub book: Book,
    pub author_source: AuthorSource,
}

/// The cover of a configuration file: a path, or a full cover source.
#[derive(Debug, Clone)]
pub enum ConfigCover {
    Path(String),
    Source(CoverSource),
}

/// The fields of a configuration file; every one is optional.
#[derive(Debug, Clone)]
pub struct FileConfig {
    pub filename: Option<String>,
    pub bookname: Option<String>,
    pub author: Option<String>,
    pub chapter_match: Option<String>,
    pub volume_match: Option<String>,
    pub exclusion_pattern: Option<String>,
    pub max_title_length: Option<usize>,
    pub indent: Option<usize>,
    pub align: Option<String>,
    pub unknown_title: Option<String>,
    pub cover: Option<ConfigCover>,
    pub font: Option<String>,
    pub paragraph_spacing: Option<String>,
    pub line_height: Option<String>,
    pub add_tips: Option<bool>,
    pub lang: Option<String>,
    pub format: Option<String>,
    pub output_name: Option<String>,
    pub separate_chapter_number: Option<bool>,
    pub custom_css: Option<String>,
    pub extended_css: Option<String>,
    pub css_variables: Option<Vec<(String, String)>>,
    pub chapter_header: Option<ChapterHeader>,
    pub theme: Option<String>,
    pub input_format: Option<String>,
    pub lookahead_lines: Option<usize>,
}

/// A path of a configuration file, resolved against the file's folder
/// (or `.` when it has none) unless absolute.
pub open spec fn config_path_of(p: Seq<char>, dir: Option<Seq<char>>) -> Seq<char> {
    if path_absolute(p) {
        p
    } else {
        path_joined(match dir { Some(d) => d, None => "."@ }, p)
    }
}

/// A command-line path, resolved against the working folder unless absolute.
pub open spec fn cli_path_of(p: Seq<char>, cwd: Seq<char>) -> Seq<char> {
    if path_absolute(p) { p } else { path_joined(cwd, p) }
}

/// The view of an optional string.
pub open spec fn opt_seq(o: Option<String>) -> Option<Seq<char>> {
    match o {
        Some(s) => Some(s@),
        None => None,
    }
}

/// An optional string set from an optional replacement.
pub open spec fn replaced<T>(old: Option<T>, new: Option<T>) -> Option<T> {
    if new is Some { new } else { old }
}

/// A value set from an optional replacement.
pub open spec fn value_or<T>(old: T, new: Option<T>) -> T {
    match new {
        Some(v) => v,
        None => old,
    }
}

/// The message of the first value of the file that names nothing known:
/// alignment, language, output format, theme, input format, in that order.
pub open spec fn file_error(cfg: FileConfig) -> Option<Seq<char>> {
    if cfg.align matches Some(v) && align_keyword(lowercase(v@)) is None {
        Some("无效的对齐方式: "@ + cfg.align->0@)
    } else if cfg.lang matches Some(v) && lang_keyword(lowercase(v@)) is None {
        Some("无效的语言: "@ + cfg.lang->0@)
    } else if cfg.format matches Some(v) && format_keyword(lowercase(v@)) is None {
        Some("无效的输出格式: "@ + cfg.format->0@)
    } else if cfg.theme matches Some(v) && theme_keyword(lowercase(v@)) is None {
        Some("无效的主题: "@ + cfg.theme->0@)
    } else if cfg.input_format matches Some(v) && input_format_keyword(lowercase(v@)) is None {
        Some("无效的输入格式: "@ + cfg.input_format->0@)
    } else {
        None
    }
}

/// The cover after merging the file's cover (paths resolved).
pub open spec fn merged_cover(old: Option<CoverSource>, cfg: Option<ConfigCover>, dir: Option<Seq<char>>,
    new: Option<CoverSource>) -> bool {
    match cfg {
        None => new == old,
        Some(ConfigCover::Path(p)) => new matches Some(CoverSource::Local { path }) && path@ == config_path_of(p@, dir),
        Some(ConfigCover::Source(CoverSource::Local { path: p })) => new matches Some(CoverSource::Local { path })
            && path@ == config_path_of(p@, dir),
        Some(ConfigCover::Source(src)) => new == Some(src),
    }
}

/// An optional path of the file, resolved.
pub open spec fn resolved_opt(o: Option<String>, dir: Option<Seq<char>>) -> Option<Seq<char>> {
    match o {
        Some(p) => Some(config_path_of(p@, dir)),
        None => None,
    }
}

/// `new` is `old` with every field the file sets replaced; paths of the
/// file are resolved against its folder.
pub open spec fn merged(old: Book, cfg: FileConfig, dir: Option<Seq<char>>, new: Book) -> bool {
    &&& match cfg.filename {
        Some(p) => new.filename@ == config_path_of(p@, dir),
        None => new.filename == old.filename,
    }
    &&& new.bookname == replaced(old.bookname, cfg.bookname)
    &&& new.author == value_or(old.author, cfg.author)
    &&& new.chapter_match == replaced(old.chapter_match, cfg.chapter_match)
    &&& new.volume_match == replaced(old.volume_match, cfg.volume_match)
    &&& new.exclusion_pattern == replaced(old.exclusion_pattern, cfg.exclusion_pattern)
    &&& new.max_title_length == value_or(old.max_title_length, cfg.max_title_length)
    &&& new.indent == value_or(old.indent, cfg.indent)
    &&& new.align == match cfg.align { Some(v) => align_keyword(lowercase(v@))->0, None => old.align }
    &&& new.unknown_title == value_or(old.unknown_title, cfg.unknown_title)
    &&& merged_cover(old.cover, cfg.cover, dir, new.cover)
    &&& match cfg.font {
        Some(p) => opt_seq(new.font) == Some(config_path_of(p@, dir)),
        None => new.font == old.font,
    }
    &&& new.paragraph_spacing == value_or(old.paragraph_spacing, cfg.paragraph_spacing)
    &&& new.line_height == replaced(old.line_height, cfg.line_height)
    &&& new.add_tips == value_or(old.add_tips, cfg.add_tips)
    &&& new.lang == match cfg.lang { Some(v) => lang_keyword(lowercase(v@))->0, None => old.lang }
    &&& new.format == match cfg.format { Some(v) => format_keyword(lowercase(v@))->0, None => old.format }
    &&& new.output_name == replaced(old.output_name, cfg.output_name)
    &&& new.separate_chapter_number == value_or(old.separate_chapter_number, cfg.separate_chapter_number)
    &&& match cfg.custom_css {
        Some(p) => opt_seq(new.custom_css) == Some(config_path_of(p@, dir)),
        None => new.custom_css == old.custom_css,
    }
    &&& new.extended_css == replaced(old.extended_css, cfg.extended_css)
    &&& new.css_variables == value_or(old.css_variables, cfg.css_variables)
    &&& match cfg.chapter_header {
        Some(h) => {
            &&& opt_seq(new.chapter_header.image) == resolved_opt(h.image, dir)
            &&& opt_seq(new.chapter_header.image_folder) == resolved_opt(h.image_folder, dir)
            &&& new.chapter_header.position == h.position
            &&& new.chapter_header.height == h.height
            &&& new.chapter_header.width == h.width
            &&& new.chapter_header.mode == h.mode
        },
        None => new.chapter_header == old.chapter_header,
    }
    &&& new.theme == match cfg.theme { Some(v) => theme_keyword(lowercase(v@))->0, None => old.theme }
    &&& new.input_format == match cfg.input_format {
        Some(v) => input_format_keyword(lowercase(v@))->0,
        None => old.input_format,
    }
    &&& new.lookahead_lines == value_or(old.lookahead_lines, cfg.lookahead_lines)
}

/// The message of the first explicit command-line value that names nothing
/// known: alignment, output format, language, theme, input format.
pub open spec fn cli_error(cli: Cli) -> Option<Seq<char>> {
    if cli.explicitly("align"@) && align_keyword(lowercase(cli.align@)) is None {
        Some("无效的对齐方式: "@ + cli.align@)
    } else if cli.explicitly("format"@) && format_keyword(lowercase(cli.format@)) is None {
        Some("无效的输出格式: "@ + cli.format@)
    } else if cli.explicitly("lang"@) && lang_keyword(lowercase(cli.lang@)) is None {
        Some("无效的语言: "@ + cli.lang@)
    } else if cli.explicitly("theme"@) && theme_keyword(lowercase(cli.theme@)) is None {
        Some("无效的主题: "@ + cli.theme@)
    } else if cli.explicitly("input_format"@) && input_format_keyword(lowercase(cli.input_format@)) is None {
        Some("无效的输入格式: "@ + cli.input_format@)
    } else {
        None
    }
}

/// `new` is `old` with every option given on the command line applied:
/// optional values when present, tracked options only when explicit;
/// command-line paths are resolved against the working folder `cwd`.
pub open spec fn applied(old: Book, cli: Cli, cwd: Seq<char>, new: Book) -> bool {
    &&& new.filename == value_or(old.filename, cli.filename)
    &&& new.output_name == replaced(old.output_name, cli.output_name)
    &&& new.bookname == replaced(old.bookname, cli.bookname)
    &&& new.author == if cli.explicitly("author"@) { cli.author } else { old.author }
    &&& new.chapter_match == replaced(old.chapter_match, cli.chapter_match)
    &&& new.volume_match == replaced(old.volume_match, cli.volume_match)
    &&& new.exclusion_pattern == replaced(old.exclusion_pattern, cli.exclude)
    &&& new.max_title_length == if cli.explicitly("max_title_length"@) { cli.max_title_length } else {
        old.max_title_length
    }
    &&& new.indent == if cli.explicitly("indent"@) { cli.indent } else { old.indent }
    &&& new.align == if cli.explicitly("align"@) { align_keyword(lowercase(cli.align@))->0 } else { old.align }
    &&& new.format == if cli.explicitly("format"@) { format_keyword(lowercase(cli.format@))->0 } else {
        old.format
    }
    &&& new.lang == if cli.explicitly("lang"@) { lang_keyword(lowercase(cli.lang@))->0 } else { old.lang }
    &&& new.separate_chapter_number == if cli.explicitly("separate_chapter_number"@) {
        cli.separate_chapter_number
    } else {
        old.separate_chapter_number
    }
    &&& new.theme == if cli.explicitly("theme"@) { theme_keyword(lowercase(cli.theme@))->0 } else { old.theme }
    &&& new.input_format == if cli.explicitly("input_format"@) {
        input_format_keyword(lowercase(cli.input_format@))->0
    } else {
        old.input_format
    }
    &&& match cli.cover {
        Some(p) => new.cover matches Some(CoverSource::Local { path }) && path@ == cli_path_of(p@, cwd),
        None => new.cover == old.cover,
    }
    &&& match cli.custom_css {
        Some(p) => opt_seq(new.custom_css) == Some(cli_path_of(p@, cwd)),
        None => new.custom_css == old.custom_css,
    }
    &&& new.extended_css == replaced(old.extended_css, cli.extended_css)
    &&& match cli.font {
        Some(p) => opt_seq(new.font) == Some(cli_path_of(p@, cwd)),
        None => new.font == old.font,
    }
    &&& new.line_height == replaced(old.line_height, cli.line_height)
    &&& new.paragraph_spacing == value_or(old.paragraph_spacing, cli.paragraph_spacing)
    &&& new.unknown_title == old.unknown_title
    &&& new.add_tips == old.add_tips
    &&& new.css_variables == old.css_variables
    &&& new.chapter_header == old.chapter_header
    &&& new.lookahead_lines == old.lookahead_lines
}

/// `r` is the outcome of loading: defaults, then the file, then the
/// command line; the first unknown value is an error.
pub open spec fn loaded(cli: Cli, file: Option<(FileConfig, Option<String>)>, cwd: Seq<char>,
    r: Result<Book, KafError>) -> bool {
    match file {
        None => match cli_error(cli) {
            Some(m) => r matches Err(KafError::ParseError(e)) && e@ == m,
            None => r matches Ok(b) && exists|d: Book| #[trigger] is_default_book(d) && applied(d, cli, cwd, b),
        },
        Some((cfg, dir)) => match file_error(cfg) {
            Some(m) => r matches Err(KafError::ParseError(e)) && e@ == m,
            None => match cli_error(cli) {
                Some(m) => r matches Err(KafError::ParseError(e)) && e@ == m,
                None => r matches Ok(b) && exists|d: Book, m: Book| #[trigger] merged(d, cfg, opt_seq(dir), m)
                    && is_default_book(d) && applied(m, cli, cwd, b),
            },
        },
    }
}

/// The message of the error that loading gives, if any: the file's first
/// unknown value, else the command line's.
pub open spec fn load_error(cli: Cli, file: Option<(FileConfig, Option<String>)>) -> Option<Seq<char>> {
    match file {
        None => cli_error(cli),
        Some((cfg, _)) => match file_error(cfg) {
            Some(m) => Some(m),
            None => cli_error(cli),
        },
    }
}

/// Who set the author: an explicit option, else the file, else nobody.
pub open spec fn author_source_of(cli: Cli, file: Option<(FileConfig, Option<String>)>) -> AuthorSource {
    if cli.explicitly("author"@) {
        AuthorSource::Cli
    } else if file matches Some((cfg, _)) && cfg.author is Some {
        AuthorSource::ConfigFile
    } else {
        AuthorSource::Default
    }
}

/// The configuration file names looked for, in order.
pub open spec fn config_names() -> Seq<Seq<char>> {
    seq!["kaf.yaml"@, "kaf.yml"@, ".kaf.yaml"@, ".kaf.yml"@]
}

/// The folders searched for a configuration file: the input file's
/// folder, if any, then `.`.
pub open spec fn search_dirs(filename: Option<Seq<char>>) -> Seq<Seq<char>> {
    match filename {
        Some(f) => match path_parent(f) {
            Some(d) => seq![d, "."@],
            None => seq!["."@],
        },
        None => seq!["."@],
    }
}

/// The candidate configuration files, in the order they are tried.
pub open spec fn config_candidates(filename: Option<Seq<char>>) -> Seq<Seq<char>> {
    let dirs = search_dirs(filename);
    Seq::new(dirs.len() * 4, |i: int| path_joined(dirs[i / 4], config_names()[i % 4]))
}

/// The probe answered `answer` for the path `p`.
pub open spec fn probed<F: Fn(&str) -> bool>(f: F, p: Seq<char>, answer: bool) -> bool {
    exists|s: &str| s@ == p && #[trigger] f.ensures((s,), answer)
}

/// Loads configurations.
pub struct ConfigLoader;

impl ConfigLoader {
    /// A loader.
    pub fn new() -> (r: Self) {
        ConfigLoader
    }

    /// The first candidate configuration file the probe `is_file` accepts:
    /// `kaf.yaml`, `kaf.yml`, `.kaf.yaml`, `.kaf.yml`, first in the input
    /// file's folder, then in `.`.
    pub fn find_config<F: Fn(&str) -> bool>(filename: &Option<String>, is_file: F) -> (r: Option<String>)
        requires
            forall|s: &str| is_file.requires((s,)),
        ensures
            ({
                let c = config_candidates(opt_seq(*filename));
                match r {
                    Some(p) => exists|k: int| 0 <= k < c.len() && c[k] == p@ && probed(is_file, p@, true)
                        && forall|j: int| 0 <= j < k ==> probed(is_file, #[trigger] c[j], false),
                    None => forall|j: int| 0 <= j < c.len() ==> probed(is_file, #[trigger] c[j], false),
                }
            }),
    {
        let ghost c = config_candidates(opt_seq(*filename));
        let mut dirs: Vec<String> = Vec::new();
        if let Some(f) = filename {
            if let Some(d) = parent_of(f.as_str()) {
                dirs.push(d);
            }
        }
        dirs.push(".".to_string());
        assert(dirs@.map_values(|s: String| s@) =~= search_dirs(opt_seq(*filename)));
        let names: [&str; 4] = ["kaf.yaml", "kaf.yml", ".kaf.yaml", ".kaf.yml"];
        assert(names@.map_values(|s: &str| s@) =~= config_names());
        let mut i: usize = 0;
        while i < dirs.len()
            invariant
                i <= dirs@.len(),
                dirs@.len() <= 2,
                dirs@.map_values(|s: String| s@) == search_dirs(opt_seq(*filename)),
                names@.map_values(|s: &str| s@) == config_names(),
                c == config_candidates(opt_seq(*filename)),
                c.len() == dirs@.len() * 4,
                forall|s: &str| is_file.requires((s,)),
                forall|j: int| 0 <= j < i * 4 ==> probed(is_file, #[trigger] c[j], false),
            decreases dirs.len() - i,
        {
            let mut k: usize = 0;
            while k < 4
                invariant
                    i < dirs@.len(),
                    dirs@.len() <= 2,
                    k <= 4,
                    dirs@.map_values(|s: String| s@) == search_dirs(opt_seq(*filename)),
                    names@.map_values(|s: &str| s@) == config_names(),
                    c == config_candidates(opt_seq(*filename)),
                    c.len() == dirs@.len() * 4,
                    forall|s: &str| is_file.requires((s,)),
                    forall|j: int| 0 <= j < i * 4 + k ==> probed(is_file, #[trigger] c[j], false),
                decreases 4 - k,
            {
                let path = join_path(dirs[i].as_str(), names[k]);
                let ghost idx = i * 4 + k;
                assert(c[idx] == path_joined(dirs@[i as int]@, names@[k as int]@)) by {
                    assert(idx / 4 == i && idx % 4 == k) by (nonlinear_arith)
                        requires idx == i * 4 + k, k < 4;
                    assert(search_dirs(opt_seq(*filename))[i as int] == dirs@[i as int]@);
                    assert(config_names()[k as int] == names@[k as int]@);
                }
                let found = is_file(path.as_str());
                if found {
                    assert(probed(is_file, path@, true));
                    return Some(path);
                }
                assert(probed(is_file, c[idx], false));
                k = k + 1;
            }
            i = i + 1;
        }
        None
    }

    /// The configuration file to load: the one given with `--config`, or
    /// else the first one found.
    pub fn config_path<F: Fn(&str) -> bool>(cli: &Cli, is_file: F) -> (r: Option<String>)
        requires
            forall|s: &str| is_file.requires((s,)),
        ensures
            cli.config is Some ==> r == cli.config,
            cli.config is None ==> ({
                let c = config_candidates(opt_seq(cli.filename));
                match r {
                    Some(p) => exists|k: int| 0 <= k < c.len() && c[k] == p@ && probed(is_file, p@, true)
                        && forall|j: int| 0 <= j < k ==> probed(is_file, #[trigger] c[j], false),
                    None => forall|j: int| 0 <= j < c.len() ==> probed(is_file, #[trigger] c[j], false),
                }
            }),
    {
        match &cli.config {
            Some(p) => Some(p.clone()),
            None => Self::find_config(&cli.filename, is_file),
        }
    }

    /// The configuration: defaults, then the decoded configuration file
    /// `file` (with the folder its relative paths are resolved against),
    /// then the command-line options. Relative command-line paths are
    /// resolved against `cwd`.
    pub fn load_from_cli(&self, cli: &Cli, file: Option<(FileConfig, Option<String>)>, cwd: &str)
        -> (r: Result<Book, KafError>)
        ensures
            loaded(*cli, file, cwd@, r),
    {
        let book = Book::default();
        let book = match file {
            Some((config, dir)) => {
                let d = match &dir { Some(x) => Some(x.as_str()), None => None };
                self.merge_config(book, config, d)?
            },
            None => book,
        };
        self.apply_cli_config(book, cli, cwd)
    }

    /// Like `load_from_cli`, also telling who set the author: an explicit
    /// command-line option, else the configuration file, else nobody.
    pub fn load_from_cli_tracked(&self, cli: &Cli, file: Option<(FileConfig, Option<String>)>, cwd: &str)
        -> (r: Result<LoadedConfig, KafError>)
        ensures
            loaded(*cli, file, cwd@, match r { Ok(l) => Ok(l.book), Err(e) => Err(e) }),
            r matches Ok(l) ==> l.author_source == author_source_of(*cli, file),
    {
        let file_author = match &file {
            Some((config, _)) => config.author.is_some(),
            None => false,
        };
        let explicit = cli.is_explicit("author");
        let book = self.load_from_cli(cli, file, cwd)?;
        let author_source = if explicit {
            AuthorSource::Cli
        } else if file_author {
            AuthorSource::ConfigFile
        } else {
            AuthorSource::Default
        };
        Ok(LoadedConfig { book, author_source })
    }

    /// A path of the configuration file, resolved against its folder.
    fn resolve_config_path(path: String, config_dir: Option<&str>) -> (r: String)
        ensures
            r@ == config_path_of(path@, opt_str(config_dir)),
    {
        if is_absolute_path(path.as_str()) {
            path
        } else {
            match config_dir {
                Some(d) => join_path(d, path.as_str()),
                None => join_path(".", path.as_str()),
            }
        }
    }

    /// A command-line path, resolved against the working folder.
    fn resolve_cli_path(path: &str, cwd: &str) -> (r: String)
        ensures
            r@ == cli_path_of(path@, cwd@),
    {
        if is_absolute_path(path) {
            path.to_string()
        } else {
            join_path(cwd, path)
        }
    }

    /// The book with the values of a configuration file merged in; the
    /// first value naming nothing known is an error.
    pub fn merge_config(&self, book: Book, config: FileConfig, config_dir: Option<&str>) -> (r: Result<Book, KafError>)
        ensures
            match file_error(config) {
                Some(m) => r matches Err(KafError::ParseError(e)) && e@ == m,
                None => r matches Ok(b) && merged(book, config, opt_str(config_dir), b),
            },
    {
        let FileConfig {
            filename, bookname, author, chapter_match, volume_match, exclusion_pattern, max_title_length, indent,
            align, unknown_title, cover, font, paragraph_spacing, line_height, add_tips, lang, format, output_name,
            separate_chapter_number, custom_css, extended_css, css_variables, chapter_header, theme, input_format,
            lookahead_lines,
        } = config;
        let align = match align {
            Some(v) => parse_align(v.as_str())?,
            None => book.align,
        };
        let lang = match lang {
            Some(v) => parse_lang(v.as_str())?,
            None => book.lang,
        };
        let format = match format {
            Some(v) => parse_format(v.as_str())?,
            None => book.format,
        };
        let theme = match theme {
            Some(v) => parse_theme(v.as_str())?,
            None => book.theme,
        };
        let input_format = match input_format {
            Some(v) => parse_input_format(v.as_str())?,
            None => book.input_format,
        };
        let Book {
            filename: old_filename, bookname: old_bookname, author: old_author, chapter_match: old_chapter_match,
            volume_match: old_volume_match, exclusion_pattern: old_exclusion_pattern,
            max_title_length: old_max_title_length, indent: old_indent, align: _, unknown_title: old_unknown_title,
            cover: old_cover, font: old_font, paragraph_spacing: old_paragraph_spacing, line_height: old_line_height,
            add_tips: old_add_tips, lang: _, format: _, output_name: old_output_name,
            separate_chapter_number: old_separate, custom_css: old_custom_css, extended_css: old_extended_css,
            css_variables: old_css_variables, chapter_header: old_chapter_header, theme: _, input_format: _,
            lookahead_lines: old_lookahead_lines,
        } = book;
        let filename = match filename {
            Some(v) => Self::resolve_config_path(v, config_dir),
            None => old_filename,
        };
        let cover = match cover {
            Some(value) => Some(Self::merge_cover(value, config_dir)),
            None => old_cover,
        };
        let font = match font {
            Some(v) => Some(Self::resolve_config_path(v, config_dir)),
            None => old_font,
        };
        let custom_css = match custom_css {
            Some(v) => Some(Self::resolve_config_path(v, config_dir)),
            None => old_custom_css,
        };
        let chapter_header = match chapter_header {
            Some(h) => Self::merge_header(h, config_dir),
            None => old_chapter_header,
        };
        Ok(Book {
            filename,
            bookname: if bookname.is_some() { bookname } else { old_bookname },
            author: match author { Some(v) => v, None => old_author },
            chapter_match: if chapter_match.is_some() { chapter_match } else { old_chapter_match },
            volume_match: if volume_match.is_some() { volume_match } else { old_volume_match },
            exclusion_pattern: if exclusion_pattern.is_some() { exclusion_pattern } else { old_exclusion_pattern },
            max_title_length: match max_title_length { Some(v) => v, None => old_max_title_length },
            indent: match indent { Some(v) => v, None => old_indent },
            align,
            unknown_title: match unknown_title { Some(v) => v, None => old_unknown_title },
            cover,
            font,
            paragraph_spacing: match paragraph_spacing { Some(v) => v, None => old_paragraph_spacing },
            line_height: if line_height.is_some() { line_height } else { old_line_height },
            add_tips: match add_tips { Some(v) => v, None => old_add_tips },
            lang,
            format,
            output_name: if output_name.is_some() { output_name } else { old_output_name },
            separate_chapter_number: match separate_chapter_number { Some(v) => v, None => old_separate },
            custom_css,
            extended_css: if extended_css.is_some() { extended_css } else { old_extended_css },
            css_variables: match css_variables { Some(v) => v, None => old_css_variables },
            chapter_header,
            theme,
            input_format,
            lookahead_lines: match lookahead_lines { Some(v) => v, None => old_lookahead_lines },
        })
    }

    /// The cover of a configuration file, its path resolved.
    fn merge_cover(value: ConfigCover, config_dir: Option<&str>) -> (r: CoverSource)
        ensures
            merged_cover(None, Some(value), opt_str(config_dir), Some(r)),
    {
        match value {
            ConfigCover::Path(path) => CoverSource::Local { path: Self::resolve_config_path(path, config_dir) },
            ConfigCover::Source(CoverSource::Local { path }) => CoverSource::Local {
                path: Self::resolve_config_path(path, config_dir),
            },
            ConfigCover::Source(source) => source,
        }
    }

    /// The chapter header of a configuration file, its paths resolved.
    fn merge_header(h: ChapterHeader, config_dir: Option<&str>) -> (r: ChapterHeader)
        ensures
            opt_seq(r.image) == resolved_opt(h.image, opt_str(config_dir)),
            opt_seq(r.image_folder) == resolved_opt(h.image_folder, opt_str(config_dir)),
            r.position == h.position && r.height == h.height && r.width == h.width && r.mode == h.mode,
    {
        let ChapterHeader { image, image_folder, position, height, width, mode } = h;
        let image = match image {
            Some(p) => Some(Self::resolve_config_path(p, config_dir)),
            None => None,
        };
        let image_folder = match image_folder {
            Some(p) => Some(Self::resolve_config_path(p, config_dir)),
            None => None,
        };
        ChapterHeader { image, image_folder, position, height, width, mode }
    }

    /// The book with the command-line options applied; the first explicit
    /// value naming nothing known is an error. Relative command-line paths
    /// are resolved against `cwd`, the working folder.
    pub fn apply_cli_config(&self, book: Book, cli: &Cli, cwd: &str) -> (r: Result<Book, KafError>)
        ensures
            match cli_error(*cli) {
                Some(m) => r matches Err(KafError::ParseError(e)) && e@ == m,
                None => r matches Ok(b) && applied(book, *cli, cwd@, b),
            },
    {
        let align = if cli.is_explicit("align") { parse_align(cli.align.as_str())? } else { book.align };
        let format = if cli.is_explicit("format") { parse_format(cli.format.as_str())? } else { book.format };
        let lang = if cli.is_explicit("lang") { parse_lang(cli.lang.as_str())? } else { book.lang };
        let theme = if cli.is_explicit("theme") { parse_theme(cli.theme.as_str())? } else { book.theme };
        let input_format = if cli.is_explicit("input_format") {
            parse_input_format(cli.input_format.as_str())?
        } else {
            book.input_format
        };
        let author_explicit = cli.is_explicit("author");
        let max_explicit = cli.is_explicit("max_title_length");
        let indent_explicit = cli.is_explicit("indent");
        let separate_explicit = cli.is_explicit("separate_chapter_number");
        let Book {
            filename, bookname, author, chapter_match, volume_match, exclusion_pattern, max_title_length, indent,
            align: _, unknown_title, cover, font, paragraph_spacing, line_height, add_tips, lang: _, format: _,
            output_name, separate_chapter_number, custom_css, extended_css, css_variables, chapter_header,
            theme: _, input_format: _, lookahead_lines,
        } = book;
        let cover = match &cli.cover {
            Some(v) => Some(CoverSource::Local { path: Self::resolve_cli_path(v.as_str(), cwd) }),
            None => cover,
        };
        let custom_css = match &cli.custom_css {
            Some(v) => Some(Self::resolve_cli_path(v.as_str(), cwd)),
            None => custom_css,
        };
        let font = match &cli.font {
            Some(v) => Some(Self::resolve_cli_path(v.as_str(), cwd)),
            None => font,
        };
        Ok(Book {
            filename: match &cli.filename { Some(v) => v.clone(), None => filename },
            bookname: match &cli.bookname { Some(v) => Some(v.clone()), None => bookname },
            author: if author_explicit { cli.author.clone() } else { author },
            chapter_match: match &cli.chapter_match { Some(v) => Some(v.clone()), None => chapter_match },
            volume_match: match &cli.volume_match { Some(v) => Some(v.clone()), None => volume_match },
            exclusion_pattern: match &cli.exclude { Some(v) => Some(v.clone()), None => exclusion_pattern },
            max_title_length: if max_explicit { cli.max_title_length } else { max_title_length },
            indent: if indent_explicit { cli.indent } else { indent },
            align,
            unknown_title,
            cover,
            font,
            paragraph_spacing: match &cli.paragraph_spacing { Some(v) => v.clone(), None => paragraph_spacing },
            line_height: match &cli.line_height { Some(v) => Some(v.clone()), None => line_height },
            add_tips,
            lang,
            format,
            output_name: match &cli.output_name { Some(v) => Some(v.clone()), None => output_name },
            separate_chapter_number: if separate_explicit { cli.separate_chapter_number } else {
                separate_chapter_number
            },
            custom_css,
            extended_css: match &cli.extended_css { Some(v) => Some(v.clone()), None => extended_css },
            css_variables,
            chapter_header,
            theme,
            input_format,
            lookahead_lines,
        })
    }
}

/// The view of an optional string slice.
pub open spec fn opt_str(o: Option<&str>) -> Option<Seq<char>> {
    match o {
        Some(s) => Some(s@),
        None => None,
    }
}


/// Law: settings are layered, the command line over the configuration
/// file over the defaults. A tracked option given on the command line
/// takes its command-line value; one that is not takes the file's value
/// when the file sets it, else its default. A book name or chapter
/// pattern on the command line wins over the file's, which wins over none.
pub proof fn lemma_layered_settings(cli: Cli, cfg: FileConfig, dir: Option<String>, cwd: Seq<char>, b: Book)
    requires
        loaded(cli, Some((cfg, dir)), cwd, Ok(b)),
    ensures
        cli.explicitly("author"@) ==> b.author == cli.author,
        !cli.explicitly("author"@) ==> b.author@ == match cfg.author {
            Some(a) => a@,
            None => "YSTYLE"@,
        },
        cli.explicitly("max_title_length"@) ==> b.max_title_length == cli.max_title_length,
        !cli.explicitly("max_title_length"@) ==> b.max_title_length == match cfg.max_title_length {
            Some(n) => n,
            None => 35,
        },
        cli.explicitly("indent"@) ==> b.indent == cli.indent,
        !cli.explicitly("indent"@) ==> b.indent == match cfg.indent {
            Some(n) => n,
            None => 2,
        },
        b.bookname == (if cli.bookname is Some { cli.bookname } else { cfg.bookname }),
        b.chapter_match == (if cli.chapter_match is Some { cli.chapter_match } else { cfg.chapter_match }),
{
    let (d, m) = choose|d: Book, m: Book| #[trigger] merged(d, cfg, opt_seq(dir), m) && is_default_book(d)
        && applied(m, cli, cwd, b);
    assert(merged(d, cfg, opt_seq(dir), m) && is_default_book(d) && applied(m, cli, cwd, b));
}


/// The view of a cover: its kind, then a path, or bytes and a MIME type.
pub open spec fn cover_view(c: Option<CoverSource>) -> Option<(u8, Seq<char>, Seq<u8>, Seq<char>)> {
    match c {
        Some(CoverSource::Local { path }) => Some((0u8, path@, Seq::empty(), Seq::empty())),
        Some(CoverSource::Data { data, format }) => Some((1u8, Seq::empty(), data@, format@)),
        None => None,
    }
}

/// The names and values of CSS variables.
pub open spec fn variable_views(v: Seq<(String, String)>) -> Seq<(Seq<char>, Seq<char>)> {
    v.map_values(|p: (String, String)| (p.0@, p.1@))
}

/// Two books hold the same settings: every field the same, texts compared
/// by what they say.
pub open spec fn same_settings(a: Book, b: Book) -> bool {
    &&& a.filename@ == b.filename@
    &&& opt_seq(a.bookname) == opt_seq(b.bookname)
    &&& a.author@ == b.author@
    &&& opt_seq(a.chapter_match) == opt_seq(b.chapter_match)
    &&& opt_seq(a.volume_match) == opt_seq(b.volume_match)
    &&& opt_seq(a.exclusion_pattern) == opt_seq(b.exclusion_pattern)
    &&& a.max_title_length == b.max_title_length
    &&& a.indent == b.indent
    &&& a.align == b.align
    &&& a.unknown_title@ == b.unknown_title@
    &&& cover_view(a.cover) == cover_view(b.cover)
    &&& opt_seq(a.font) == opt_seq(b.font)
    &&& a.paragraph_spacing@ == b.paragraph_spacing@
    &&& opt_seq(a.line_height) == opt_seq(b.line_height)
    &&& a.add_tips == b.add_tips
    &&& a.lang == b.lang
    &&& a.format == b.format
    &&& opt_seq(a.output_name) == opt_seq(b.output_name)
    &&& a.separate_chapter_number == b.separate_chapter_number
    &&& opt_seq(a.custom_css) == opt_seq(b.custom_css)
    &&& opt_seq(a.extended_css) == opt_seq(b.extended_css)
    &&& variable_views(a.css_variables@) == variable_views(b.css_variables@)
    &&& opt_seq(a.chapter_header.image) == opt_seq(b.chapter_header.image)
    &&& opt_seq(a.chapter_header.image_folder) == opt_seq(b.chapter_header.image_folder)
    &&& a.chapter_header.position == b.chapter_header.position
    &&& opt_seq(a.chapter_header.height) == opt_seq(b.chapter_header.height)
    &&& opt_seq(a.chapter_header.width) == opt_seq(b.chapter_header.width)
    &&& a.chapter_header.mode == b.chapter_header.mode
    &&& a.theme == b.theme
    &&& a.input_format == b.input_format
    &&& a.lookahead_lines == b.lookahead_lines
}

/// Two outcomes of loading agree: both succeed with the same settings, or
/// both fail with the same message.
pub open spec fn same_outcome(r1: Result<Book, KafError>, r2: Result<Book, KafError>) -> bool {
    match (r1, r2) {
        (Ok(a), Ok(b)) => same_settings(a, b),
        (Err(KafError::ParseError(x)), Err(KafError::ParseError(y))) => x@ == y@,
        _ => false,
    }
}

proof fn lemma_defaults_agree(d1: Book, d2: Book)
    requires
        is_default_book(d1),
        is_default_book(d2),
    ensures
        same_settings(d1, d2),
{
    assert(variable_views(d1.css_variables@) =~= variable_views(d2.css_variables@));
}

proof fn lemma_merged_agree(d1: Book, d2: Book, cfg: FileConfig, dir: Option<Seq<char>>, m1: Book, m2: Book)
    requires
        same_settings(d1, d2),
        merged(d1, cfg, dir, m1),
        merged(d2, cfg, dir, m2),
    ensures
        same_settings(m1, m2),
{
    match cfg.css_variables {
        Some(v) => {},
        None => {},
    }
}

proof fn lemma_applied_agree(m1: Book, m2: Book, cli: Cli, cwd: Seq<char>, b1: Book, b2: Book)
    requires
        same_settings(m1, m2),
        applied(m1, cli, cwd, b1),
        applied(m2, cli, cwd, b2),
    ensures
        same_settings(b1, b2),
{
}

/// Law: loading is determined by its inputs. Any two outcomes of loading
/// the same command line, configuration file and working folder agree:
/// the same settings, or the same error. So `load_config`,
/// `ConfigLoader::load_from_cli` and the books of `load_config_tracked`
/// and `ConfigLoader::load_from_cli_tracked` all give the same result.
pub proof fn lemma_loading_is_determined(
    cli: Cli,
    file: Option<(FileConfig, Option<String>)>,
    cwd: Seq<char>,
    r1: Result<Book, KafError>,
    r2: Result<Book, KafError>,
)
    requires
        loaded(cli, file, cwd, r1),
        loaded(cli, file, cwd, r2),
    ensures
        same_outcome(r1, r2),
{
    match file {
        None => {
            if cli_error(cli) is None {
                let b1 = r1->Ok_0;
                let b2 = r2->Ok_0;
                let d1 = choose|d: Book| #[trigger] is_default_book(d) && applied(d, cli, cwd, b1);
                let d2 = choose|d: Book| #[trigger] is_default_book(d) && applied(d, cli, cwd, b2);
                lemma_defaults_agree(d1, d2);
                lemma_applied_agree(d1, d2, cli, cwd, b1, b2);
            }
        },
        Some((cfg, dir)) => {
            if file_error(cfg) is None && cli_error(cli) is None {
                let b1 = r1->Ok_0;
                let b2 = r2->Ok_0;
                let (d1, m1) = choose|d: Book, m: Book| #[trigger] merged(d, cfg, opt_seq(dir), m)
                    && is_default_book(d) && applied(m, cli, cwd, b1);
                let (d2, m2) = choose|d: Book, m: Book| #[trigger] merged(d, cfg, opt_seq(dir), m)
                    && is_default_book(d) && applied(m, cli, cwd, b2);
                lemma_defaults_agree(d1, d2);
                lemma_merged_agree(d1, d2, cfg, opt_seq(dir), m1, m2);
                lemma_applied_agree(m1, m2, cli, cwd, b1, b2);
            }
        },
    }
}

} // verus!
