use kaf_cli::cli::{parse_indent, parse_title_length, Cli};
use kaf_cli::config::loader::{ConfigCover, FileConfig};
use kaf_cli::config::parsers::{self, parse_align, parse_format, parse_input_format, parse_lang, parse_theme};
use kaf_cli::config::presets::{
    generate_basic_config, generate_full_config, generate_minimal_config, generate_webnovel_config, ConfigPreset,
};
use kaf_cli::config::validator::{ConfigValidator, Query};
use kaf_cli::config::{
    apply_filename_author, find_config_file, generate_config_examples, load_config, load_config_tracked,
    validate_config, AuthorSource, ConfigLoader,
};
use kaf_cli::config_backup::loader::{ConfigLoader as BackupLoader, YamlConfig};
use kaf_cli::config_backup::presets as backup_presets;
use kaf_cli::error::KafError;
use kaf_cli::model::{Book, CoverSource, InputFormat, Language, OutputFormat, TextAlignment, ThemePreset};

fn empty_file_config() -> FileConfig {
    FileConfig {
        filename: None,
        bookname: None,
        author: None,
        chapter_match: None,
        volume_match: None,
        exclusion_pattern: None,
        max_title_length: None,
        indent: None,
        align: None,
        unknown_title: None,
        cover: None,
        font: None,
        paragraph_spacing: None,
        line_height: None,
        add_tips: None,
        lang: None,
        format: None,
        output_name: None,
        separate_chapter_number: None,
        custom_css: None,
        extended_css: None,
        css_variables: None,
        chapter_header: None,
        theme: None,
        input_format: None,
        lookahead_lines: None,
    }
}

fn message(e: KafError) -> String {
    e.message()
}

#[test]
fn parsers_test_parse_align() {
    assert_eq!(parse_align("left").unwrap(), TextAlignment::Left);
    assert_eq!(parse_align("CENTER").unwrap(), TextAlignment::Center);
    assert_eq!(parse_align("Right").unwrap(), TextAlignment::Right);
    assert!(parse_align("invalid").is_err());
}

#[test]
fn parsers_test_parse_lang() {
    assert_eq!(parse_lang("zh").unwrap(), Language::Zh);
    assert_eq!(parse_lang("EN").unwrap(), Language::En);
    assert_eq!(parse_lang("Ja").unwrap(), Language::Ja);
    assert!(parse_lang("invalid").is_err());
}

#[test]
fn parsers_test_parse_format() {
    assert_eq!(parse_format("epub").unwrap(), OutputFormat::Epub);
    assert_eq!(parse_format("ALL").unwrap(), OutputFormat::All);
    assert!(parse_format("invalid").is_err());
}

#[test]
fn test_parse_input_format() {
    assert_eq!(parse_input_format("auto").unwrap(), InputFormat::Auto);
    assert_eq!(parse_input_format("txt").unwrap(), InputFormat::Txt);
    assert_eq!(parse_input_format("text").unwrap(), InputFormat::Txt);
    assert_eq!(parse_input_format("md").unwrap(), InputFormat::Markdown);
    assert!(parse_input_format("invalid").is_err());
}

#[test]
fn test_parse_theme() {
    assert_eq!(parse_theme("light").unwrap(), ThemePreset::Light);
    assert_eq!(parse_theme("Dark").unwrap(), ThemePreset::Dark);
    assert_eq!(parse_theme("high-contrast").unwrap(), ThemePreset::HighContrast);
    assert_eq!(parse_theme("high_contrast").unwrap(), ThemePreset::HighContrast);
    assert!(parse_theme("invalid").is_err());
}

#[test]
fn shared_parser_align() {
    assert_eq!(parsers::parse_align("left").unwrap(), TextAlignment::Left);
    assert_eq!(parsers::parse_align("CENTER").unwrap(), TextAlignment::Center);
    assert_eq!(parsers::parse_align("Right").unwrap(), TextAlignment::Right);
    assert!(parsers::parse_align("unknown").is_err());
}

#[test]
fn shared_parser_lang() {
    assert_eq!(parsers::parse_lang("zh").unwrap(), Language::Zh);
    assert_eq!(parsers::parse_lang("en").unwrap(), Language::En);
    assert_eq!(parsers::parse_lang("Ja").unwrap(), Language::Ja);
    assert!(parsers::parse_lang("xx").is_err());
}

#[test]
fn shared_parser_format() {
    assert_eq!(parsers::parse_format("epub").unwrap(), OutputFormat::Epub);
    assert_eq!(parsers::parse_format("ALL").unwrap(), OutputFormat::All);
    assert!(parsers::parse_format("pdf").is_err());
}

#[test]
fn shared_parser_input_format() {
    assert_eq!(parsers::parse_input_format("auto").unwrap(), InputFormat::Auto);
    assert_eq!(parsers::parse_input_format("txt").unwrap(), InputFormat::Txt);
    assert_eq!(parsers::parse_input_format("text").unwrap(), InputFormat::Txt);
    assert_eq!(parsers::parse_input_format("md").unwrap(), InputFormat::Markdown);
    assert!(parsers::parse_input_format("docx").is_err());
}

#[test]
fn shared_parser_theme() {
    assert_eq!(parsers::parse_theme("light").unwrap(), ThemePreset::Light);
    assert_eq!(parsers::parse_theme("Dark").unwrap(), ThemePreset::Dark);
    assert_eq!(parsers::parse_theme("high-contrast").unwrap(), ThemePreset::HighContrast);
    assert_eq!(parsers::parse_theme("high_contrast").unwrap(), ThemePreset::HighContrast);
    assert!(parsers::parse_theme("neon").is_err());
}

#[test]
fn parse_error_messages_name_the_value() {
    assert_eq!(message(parse_align("up").unwrap_err()), "章节解析失败: 无效的对齐方式: up");
    assert_eq!(message(parse_theme("neon").unwrap_err()), "章节解析失败: 无效的主题: neon");
}

#[test]
fn presets_test_preset_names() {
    assert_eq!(ConfigPreset::Basic.name(), "basic");
    assert_eq!(ConfigPreset::WebNovel.name(), "webnovel");
    assert_eq!(ConfigPreset::Full.name(), "full");
    assert_eq!(ConfigPreset::Minimal.name(), "minimal");
    assert_eq!(ConfigPreset::Publication.name(), "publication");
}

#[test]
fn presets_test_generate_config_examples() {
    let examples = generate_config_examples();
    assert_eq!(examples.len(), 5);
    assert!(examples.contains_key("basic"));
    assert!(examples.contains_key("webnovel"));
    assert!(examples.contains_key("full"));
    assert!(examples.contains_key("minimal"));
    assert!(examples.contains_key("publication"));
}

#[test]
fn presets_test_generate_basic_config() {
    let config = generate_basic_config();
    assert!(config.contains("bookname"));
    assert!(config.contains("author"));
    assert!(config.contains("chapter_match"));
}

#[test]
fn presets_test_generate_webnovel_config() {
    let config = generate_webnovel_config();
    assert!(config.contains("网络小说配置"));
    assert!(config.contains("max_title_length: 50"));
    assert!(config.contains("line_height: \"2.0\""));
}

#[test]
fn presets_test_generate_minimal_config() {
    let config = generate_minimal_config();
    assert!(config.contains("简约配置"));
    assert!(config.len() < generate_full_config().len());
}

#[test]
fn backup_presets_names_and_examples() {
    assert_eq!(backup_presets::ConfigPreset::Basic.name(), "basic");
    assert_eq!(backup_presets::ConfigPreset::Publication.name(), "publication");
    let examples = backup_presets::generate_config_examples();
    assert_eq!(examples.len(), 5);
    assert!(examples.contains_key("webnovel"));
    assert!(backup_presets::generate_basic_config().contains("chapter_match"));
    assert!(backup_presets::generate_webnovel_config().contains("max_title_length: 50"));
    assert!(backup_presets::generate_minimal_config().len() < backup_presets::generate_full_config().len());
}

#[test]
fn mod_test_generate_config_examples() {
    let examples = generate_config_examples();
    assert!(examples.contains_key("basic"));
    assert!(examples.contains_key("webnovel"));
    assert!(examples.contains_key("full"));
}

#[test]
fn test_find_config_file() {
    let result = find_config_file(&None, |p: &str| std::path::Path::new(p).is_file());
    println!("Config file search result: {:?}", result);
}

#[test]
fn find_config_tries_the_input_folder_first() {
    let found = find_config_file(&Some("books/novel.txt".to_string()), |p: &str| p.ends_with("kaf.yml"));
    assert_eq!(found, Some("books/kaf.yml".to_string()));
    let none = find_config_file(&Some("books/novel.txt".to_string()), |_p: &str| false);
    assert_eq!(none, None);
    let in_cwd = find_config_file(&None, |p: &str| p == "./.kaf.yaml");
    assert_eq!(in_cwd, Some("./.kaf.yaml".to_string()));
}

#[test]
fn test_config_loader_creation() {
    let loader = BackupLoader::new();
    assert_eq!(loader.config_filenames.len(), 4);
}

#[test]
fn loader_test_parse_align() {
    assert!(matches!(BackupLoader::parse_align("left"), Ok(TextAlignment::Left)));
    assert!(matches!(BackupLoader::parse_align("center"), Ok(TextAlignment::Center)));
    assert!(matches!(BackupLoader::parse_align("right"), Ok(TextAlignment::Right)));
    assert!(BackupLoader::parse_align("invalid").is_err());
}

#[test]
fn loader_test_parse_lang() {
    assert!(matches!(BackupLoader::parse_lang("zh"), Ok(Language::Zh)));
    assert!(matches!(BackupLoader::parse_lang("en"), Ok(Language::En)));
    assert!(BackupLoader::parse_lang("invalid").is_err());
}

#[test]
fn loader_test_parse_format() {
    assert!(matches!(BackupLoader::parse_format("epub"), Ok(OutputFormat::Epub)));
    assert!(matches!(BackupLoader::parse_format("all"), Ok(OutputFormat::All)));
    assert!(BackupLoader::parse_format("invalid").is_err());
}

#[test]
fn test_merge_config() {
    let loader = ConfigLoader::new();
    let mut config = empty_file_config();
    config.bookname = Some("Test Book".to_string());
    config.author = Some("Test Author".to_string());
    config.max_title_length = Some(50);
    let book = loader.merge_config(Book::default(), config, None).unwrap();
    assert_eq!(book.bookname, Some("Test Book".to_string()));
    assert_eq!(book.author, "Test Author");
    assert_eq!(book.max_title_length, 50);
    assert_eq!(book.indent, 2);
}

#[test]
fn merge_config_resolves_paths_and_reports_bad_values() {
    let loader = ConfigLoader::new();
    let mut config = empty_file_config();
    config.cover = Some(ConfigCover::Path("cover.png".to_string()));
    config.font = Some("/fonts/a.ttf".to_string());
    let book = loader.merge_config(Book::default(), config, Some("/books")).unwrap();
    match book.cover {
        Some(CoverSource::Local { path }) => assert_eq!(path, "/books/cover.png"),
        _ => panic!("cover expected"),
    }
    assert_eq!(book.font, Some("/fonts/a.ttf".to_string()));
    let mut bad = empty_file_config();
    bad.lang = Some("xx".to_string());
    bad.theme = Some("neon".to_string());
    let err = loader.merge_config(Book::default(), bad, None).unwrap_err();
    assert_eq!(err.message(), "章节解析失败: 无效的语言: xx");
}

#[test]
fn test_apply_cli_config() {
    let loader = ConfigLoader::new();
    let mut cli = Cli::default();
    cli.filename = Some("test.txt".to_string());
    cli.bookname = Some("CLI Book".to_string());
    cli.author = "CLI Author".to_string();
    cli.max_title_length = 40;
    cli.indent = 3;
    cli.align = "left".to_string();
    cli.format = "epub".to_string();
    cli.lang = "en".to_string();
    cli.separate_chapter_number = true;
    cli.explicit = vec![
        "author".to_string(),
        "max_title_length".to_string(),
        "indent".to_string(),
        "align".to_string(),
        "format".to_string(),
        "lang".to_string(),
        "separate_chapter_number".to_string(),
    ];
    let book = loader.apply_cli_config(Book::default(), &cli, "/work").unwrap();
    assert_eq!(book.filename, "test.txt");
    assert_eq!(book.bookname, Some("CLI Book".to_string()));
    assert_eq!(book.author, "CLI Author");
    assert_eq!(book.max_title_length, 40);
    assert_eq!(book.indent, 3);
    assert_eq!(book.align, TextAlignment::Left);
    assert_eq!(book.format, OutputFormat::Epub);
    assert_eq!(book.lang, Language::En);
    assert!(book.separate_chapter_number);
}

#[test]
fn cli_defaults_do_not_override_the_file() {
    let mut config = empty_file_config();
    config.author = Some("File Author".to_string());
    config.indent = Some(4);
    let cli = Cli::default();
    let loaded = load_config_tracked(&cli, Some((config, None)), "/work").unwrap();
    assert_eq!(loaded.book.author, "File Author");
    assert_eq!(loaded.book.indent, 4);
    assert_eq!(loaded.author_source, AuthorSource::ConfigFile);
    let mut explicit = Cli::default();
    explicit.author = "Me".to_string();
    explicit.explicit = vec!["author".to_string()];
    explicit.cover = Some("c.jpg".to_string());
    let mut config = empty_file_config();
    config.author = Some("File Author".to_string());
    let loaded = load_config_tracked(&explicit, Some((config, None)), "/work").unwrap();
    assert_eq!(loaded.book.author, "Me");
    assert_eq!(loaded.author_source, AuthorSource::Cli);
    match loaded.book.cover {
        Some(CoverSource::Local { path }) => assert_eq!(path, "/work/c.jpg"),
        _ => panic!("cover expected"),
    }
    let book = load_config(&Cli::default(), None, ".").unwrap();
    assert_eq!(book.author, "YSTYLE");
}

#[test]
fn backup_loader_applies_every_cli_value() {
    let loader = BackupLoader::new();
    let yaml = YamlConfig {
        bookname: Some("From File".to_string()),
        author: Some("File".to_string()),
        chapter_match: None,
        volume_match: None,
        exclusion_pattern: None,
        unknown_title: None,
        paragraph_spacing: None,
        line_height: None,
        max_title_length: Some(60),
        indent: Some(4),
        add_tips: Some(true),
        separate_chapter_number: None,
        align: Some("left".to_string()),
        lang: None,
        format: None,
        custom_css: None,
        extended_css: None,
        font: None,
        cover: Some("c.png".to_string()),
        output_name: None,
    };
    let cli = Cli::default();
    let book = loader.load_from_cli(&cli, Some(&yaml)).unwrap();
    assert_eq!(book.bookname, Some("From File".to_string()));
    assert_eq!(book.author, "YSTYLE");
    assert_eq!(book.max_title_length, 35);
    assert_eq!(book.align, TextAlignment::Center);
    assert!(book.add_tips);
}

#[test]
fn filename_author_only_when_nobody_set_one() {
    let mut book = Book::default();
    apply_filename_author(&mut book, AuthorSource::Default, Some("  远瞳 ".to_string()));
    assert_eq!(book.author, "远瞳");
    let mut book = Book::default();
    apply_filename_author(&mut book, AuthorSource::Cli, Some("远瞳".to_string()));
    assert_eq!(book.author, "YSTYLE");
    let mut book = Book::default();
    apply_filename_author(&mut book, AuthorSource::Default, Some("   ".to_string()));
    assert_eq!(book.author, "YSTYLE");
}

fn probe_all(answer: bool) -> impl Fn(&Query) -> bool {
    move |_q: &Query| answer
}

#[test]
fn validation_checks_files_ranges_and_formats() {
    let book = Book::default();
    let err = validate_config(&book, probe_all(true)).unwrap_err();
    assert_eq!(err.message(), "章节解析失败: 缺少必需字段: filename");
    let mut book = Book::default();
    book.filename = "novel.txt".to_string();
    assert!(validate_config(&book, probe_all(true)).is_ok());
    let err = validate_config(&book, probe_all(false)).unwrap_err();
    assert_eq!(err.message(), "章节解析失败: 文件不存在: novel.txt");
    book.max_title_length = 200;
    let err = validate_config(&book, probe_all(true)).unwrap_err();
    assert_eq!(err.message(), "章节解析失败: 值超出范围: max_title_length 必须在 5 到 100 之间");
    book.max_title_length = 35;
    book.paragraph_spacing = "wide".to_string();
    assert!(validate_config(&book, probe_all(true)).is_err());
    book.paragraph_spacing = "1.5em".to_string();
    book.css_variables = vec![("--bad name".to_string(), "1".to_string())];
    let err = validate_config(&book, probe_all(true)).unwrap_err();
    assert_eq!(err.message(), "章节解析失败: 无效的值: 无效的 CSS 变量名: --bad name");
    book.css_variables = vec![("--ok".to_string(), "a;b".to_string())];
    assert!(validate_config(&book, probe_all(true)).is_err());
}

#[test]
fn validator_limits_can_change() {
    let mut validator = ConfigValidator::new();
    validator.set_max_indent_limit(1);
    let mut book = Book::default();
    book.filename = "a.txt".to_string();
    let err = validator.validate(&book, probe_all(true)).unwrap_err();
    assert_eq!(err.message(), "章节解析失败: 值超出范围: indent 不能超过 1");
    validator.set_min_title_length_limit(1);
    validator.set_max_title_length_limit(10);
    validator.set_max_indent_limit(10);
    book.max_title_length = 8;
    assert!(validator.validate(&book, probe_all(true)).is_ok());
}

#[test]
fn numeric_options_are_checked() {
    assert_eq!(parse_title_length("35"), Ok(35));
    assert_eq!(parse_title_length("+5"), Ok(5));
    assert_eq!(parse_title_length("4"), Err("标题最大字数必须在 5 到 100 之间".to_string()));
    assert_eq!(parse_title_length("x"), Err("标题最大字数必须是整数".to_string()));
    assert_eq!(parse_indent("10"), Ok(10));
    assert_eq!(parse_indent("11"), Err("段落缩进必须在 0 到 10 之间".to_string()));
    assert_eq!(parse_indent(""), Err("段落缩进必须是整数".to_string()));
}

#[test]
fn cli_knows_explicit_options() {
    let mut cli = Cli::default();
    cli.explicit = vec!["theme".to_string()];
    assert!(cli.is_explicit("theme"));
    assert!(!cli.is_explicit("lang"));
    let copy = cli.for_input("x/y.txt");
    assert_eq!(copy.filename, Some("x/y.txt".to_string()));
    assert!(copy.is_explicit("theme"));
}

#[test]
fn validation_reports_files_first() {
    let mut book = Book::default();
    book.filename = "a.txt".to_string();
    let err = validate_config(&book, probe_all(false)).unwrap_err();
    assert_eq!(err.message(), "章节解析失败: 文件不存在: a.txt");
    book.font = Some("f.exe".to_string());
    let err = validate_config(&book, probe_all(true)).unwrap_err();
    assert!(err.message().contains("不支持的字体格式: "));
    book.font = Some("f.TTF".to_string());
    assert!(validate_config(&book, probe_all(true)).is_ok());
    book.max_title_length = 101;
    let err = validate_config(&book, probe_all(true)).unwrap_err();
    assert!(err.message().contains("值超出范围"));
}

#[test]
fn plain_and_tracked_loading_agree() {
    let mut cli = Cli::default();
    cli.bookname = Some("书".to_string());
    let plain = load_config(&cli, None, "/work").unwrap();
    let sourced = load_config_tracked(&cli, None, "/work").unwrap();
    assert_eq!(plain.bookname, sourced.book.bookname);
    assert_eq!(plain.author, sourced.book.author);
    assert_eq!(plain.max_title_length, sourced.book.max_title_length);
    assert_eq!(sourced.author_source, AuthorSource::Default);
    cli.lang = "xx".to_string();
    cli.explicit = vec!["lang".to_string()];
    let a = load_config(&cli, None, "/work").unwrap_err();
    let b = load_config_tracked(&cli, None, "/work").unwrap_err();
    assert_eq!(a.message(), b.message());
}
