use kaf_cli::generate_example_config;
use kaf_cli::model::{Book, Section, ThemePreset};
use kaf_cli::output::apply_filename_metadata;

#[test]
fn test_book_default() {
    let book = Book::default();
    assert_eq!(book.author, "YSTYLE");
    assert_eq!(book.max_title_length, 35);
    assert_eq!(book.indent, 2);
}

#[test]
fn test_section_default() {
    let section = Section::default();
    assert_eq!(section.title, "");
    assert_eq!(section.content, "");
    assert!(section.subsections.is_empty());
}

#[test]
fn book_copies_are_equal() {
    let mut book = Book::default();
    book.filename = "a.txt".to_string();
    book.css_variables = vec![("--x".to_string(), "1px".to_string())];
    let copy = book.duplicate();
    assert_eq!(copy.filename, "a.txt");
    assert_eq!(copy.css_variables, book.css_variables);
}

#[test]
fn theme_presets_in_order() {
    let all = ThemePreset::all();
    assert_eq!(all.len(), 6);
    assert_eq!(all[0], ThemePreset::Light);
    assert_eq!(ThemePreset::Sepia.name(), "护眼模式");
}

#[test]
fn example_config_is_the_basic_preset() {
    assert_eq!(generate_example_config(), kaf_cli::config::presets::generate_basic_config());
}

#[test]
fn chapter_listing_shows_twenty_titles() {
    let titles: Vec<String> = (1..=22).map(|i| format!("第{}章", i)).collect();
    let text = kaf_cli::output::chapter_listing("书", &titles);
    assert!(text.starts_with("\n=== 书 章节识别结果 ===\n1. 第1章\n2. 第2章\n"));
    assert!(text.contains("20. 第20章\n... 还有 2 个章节\n总计: 22 个章节\n\n"));
    assert!(!text.contains("第21章"));
    let short = kaf_cli::output::chapter_listing("B", &["a".to_string()]);
    assert_eq!(short, "\n=== B 章节识别结果 ===\n1. a\n总计: 1 个章节\n\n");
}

#[test]
fn output_path_skips_existing_files() {
    let taken = |p: &str| p.ends_with("/书.epub") || p.ends_with("/书 (1).epub");
    let p = kaf_cli::output::choose_output_path("/out", " 书 ", &taken).unwrap();
    assert_eq!(p, "/out/书 (2).epub");
    let all = |_p: &str| true;
    let e = kaf_cli::output::choose_output_path("/out", "x", &all).unwrap_err();
    assert!(e.message().contains("无法为 x 分配唯一输出文件名"));
    let none = |_p: &str| false;
    assert_eq!(kaf_cli::output::choose_output_path(".", "a/b:c", &none).unwrap(), "./a_b_c.epub");
}

#[test]
fn test_css_generation() {
    let generator = kaf_cli::style::CssGenerator::new();
    let theme = kaf_cli::style::Theme::light();
    let mut book = Book::default();
    book.filename = "test.txt".to_string();
    book.indent = 2;
    let css = generator.generate(&book, &theme);
    assert!(css.contains("--bg-color:"));
    assert!(css.contains("body {"));
    assert!(css.contains("h1 {"));
    assert!(css.contains("    text-align: center;\n    page-break-after: avoid;"));
}

#[test]
fn test_theme_creation() {
    let light = kaf_cli::style::Theme::light();
    assert_eq!(light.name, "浅色主题");
    assert!(light.typography.base_size > 0);
    let dark = kaf_cli::style::Theme::dark();
    assert_eq!(dark.name, "深色主题");
    let sepia = kaf_cli::style::Theme::sepia();
    assert_eq!(sepia.name, "护眼模式");
}

#[test]
fn test_css_variables() {
    let theme = kaf_cli::style::Theme::light();
    let css = theme.to_css_variables();
    assert!(css.contains("--bg-color:"));
    assert!(css.contains("--text-color:"));
    assert!(css.contains("--body-font:"));
    assert!(css.contains("    --base-size: 18px;\n    --line-height: 1.8;\n"));
    let traditional = kaf_cli::style::Theme::for_preset(ThemePreset::Traditional);
    assert!(traditional.to_css_variables().contains("--line-height: 2;"));
}

#[test]
fn filename_metadata_fills_title_and_default_author() {
    let mut b = kaf_cli::model::Book::default();
    b.filename = "/x/《三体》作者：刘慈欣.txt".to_string();
    apply_filename_metadata(&mut b).unwrap();
    assert_eq!(b.bookname.as_deref(), Some("三体"));
    assert_eq!(b.author, "刘慈欣");

    let mut kept = kaf_cli::model::Book::default();
    kept.filename = "/x/《三体》作者：刘慈欣.txt".to_string();
    kept.bookname = Some("自定".to_string());
    kept.author = "某人".to_string();
    apply_filename_metadata(&mut kept).unwrap();
    assert_eq!(kept.bookname.as_deref(), Some("自定"));
    assert_eq!(kept.author, "某人");

    let mut plain = kaf_cli::model::Book::default();
    plain.filename = "/x/小说.txt".to_string();
    apply_filename_metadata(&mut plain).unwrap();
    assert_eq!(plain.bookname.as_deref(), Some("小说"));
    assert_eq!(plain.author, "YSTYLE");
}

#[test]
fn single_conversion_names() {
    use_single_names();
}

fn use_single_names() {
    let mut b = kaf_cli::model::Book::default();
    assert!(kaf_cli::output::require_filename(&b).is_err());
    assert_eq!(
        kaf_cli::output::require_filename(&b).unwrap_err().message(),
        "章节解析失败: 未指定文件名，请使用 --filename"
    );
    assert_eq!(kaf_cli::output::display_title(&b), "Unknown");
    assert_eq!(kaf_cli::output::output_stem(&b), "Unknown");
    b.filename = "a.txt".to_string();
    b.bookname = Some("书".to_string());
    assert!(kaf_cli::output::require_filename(&b).is_ok());
    assert_eq!(kaf_cli::output::output_stem(&b), "书");
    b.output_name = Some("out".to_string());
    assert_eq!(kaf_cli::output::output_stem(&b), "out");
    assert_eq!(kaf_cli::model::Language::Ja.code(), "ja");
    assert_eq!(kaf_cli::converter::epub3::chapter_file_name(12), "chapter_12.xhtml");
}

#[test]
fn test_error_display() {
    let err = kaf_cli::error::KafError::FileNotFound("test.txt".to_string());
    assert_eq!(err.message(), "文件不存在: test.txt");
}

#[test]
fn test_error_from_io() {
    let io_err = std::io::Error::new(std::io::ErrorKind::NotFound, "not found");
    let err: kaf_cli::error::KafError = io_err.into();
    assert!(matches!(err, kaf_cli::error::KafError::Io(_)));
}

#[test]
fn theme_preset_names_are_distinct() {
    let all = ThemePreset::all();
    for (i, a) in all.iter().enumerate() {
        for (j, b) in all.iter().enumerate() {
            assert_eq!(i == j, a.name() == b.name());
        }
    }
    assert_eq!(ThemePreset::Light.name(), "浅色主题");
    assert_eq!(ThemePreset::HighContrast.name(), "高对比度");
}
