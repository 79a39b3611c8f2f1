use kaf_cli::converter::css_resources::{
    asset_candidates, asset_type, check_import_css, check_import_cycle, check_import_depth, classify_url, css_asset_mime,
    import_error, inline_import, percent_decode_uri, rewrite_url, scan_css, AssetRegistry, CssPiece, UrlTarget,
};
use kaf_cli::converter::headers::{assign_header_images, is_header_image, match_header_image};
use kaf_cli::converter::entities::{decode_entity, decode_xml_attribute, is_external_image};
use kaf_cli::converter::epub3::{get_converter, EpubConverter3};
use kaf_cli::converter::numerals::{chapter_number_of, chinese_numeral_value, parse_numeral, stem_number};
use kaf_cli::model::{Book, ImagePosition, Section};
use kaf_cli::style::CssGenerator;
use kaf_cli::converter::epub3::assemble_style_sheet;
use kaf_cli::config::validator::Query;
use kaf_cli::converter::headers::{header_source, HeaderSource};
use kaf_cli::model::HeaderMode;
use kaf_cli::converter::content_images::{find_image_sources, rewrite_image_sources};
use kaf_cli::converter::content_images::locate_image;
use kaf_cli::converter::content_images::{content_resource_name, header_resource_name};

#[test]
fn chinese_numerals() {
    assert_eq!(chinese_numeral_value("十"), Some(10));
    assert_eq!(chinese_numeral_value("二十一"), Some(21));
    assert_eq!(chinese_numeral_value("一百零三"), Some(103));
    assert_eq!(chinese_numeral_value("十万"), Some(100_000));
    assert_eq!(chinese_numeral_value("两千"), Some(2000));
    assert_eq!(chinese_numeral_value("一万零一"), Some(10_001));
    assert_eq!(chinese_numeral_value("十a"), None);
    assert_eq!(chinese_numeral_value(""), None);
}

#[test]
fn numerals_and_chapter_numbers() {
    assert_eq!(parse_numeral("01"), Some(1));
    assert_eq!(parse_numeral("十"), Some(10));
    assert_eq!(chapter_number_of("第10章 开始"), Some(10));
    assert_eq!(chapter_number_of("Chapter 7"), Some(7));
    assert_eq!(chapter_number_of("12 回家"), Some(12));
    assert_eq!(chapter_number_of("  "), None);
    assert_eq!(stem_number("01"), Some(1));
    assert_eq!(stem_number("第十章"), Some(10));
    assert_eq!(stem_number("cover"), None);
}

#[test]
fn attribute_references_are_decoded_once() {
    assert_eq!(decode_xml_attribute("a&amp;lt;b"), "a&lt;b");
    assert_eq!(decode_xml_attribute("&#39;&#x41;&#X42;"), "'AB");
    assert_eq!(decode_xml_attribute("&nbsp;x&"), "&nbsp;x&");
    assert_eq!(decode_entity("quot"), Some("\"".to_string()));
    assert_eq!(decode_entity("#xD800"), None);
}

#[test]
fn external_images() {
    assert!(is_external_image(" HTTP://x/a.png"));
    assert!(is_external_image("data:image/png;base64,AA"));
    assert!(is_external_image("C:\\a.png"));
    assert!(is_external_image(""));
    assert!(!is_external_image("images/a.png"));
}

fn book() -> Book {
    let mut b = Book::default();
    b.filename = "n.txt".to_string();
    b
}

#[test]
fn chapter_pages() {
    let mut b = book();
    b.separate_chapter_number = true;
    let converter = EpubConverter3::new(b);
    let section = Section { title: "第1章 开始".to_string(), content: "<p>x\u{1}</p>".to_string(), subsections: Vec::new() };
    let html = converter.generate_chapter_html(&section, 0, None);
    assert!(html.contains("<title>第1章 开始</title>"));
    assert!(html.contains("<span class=\"chapter-number\">第1章</span><br/>开始"));
    assert!(html.contains("<p>x</p>"));
    assert_eq!(converter.nav_label("  "), "未知章节");
}

#[test]
fn table_of_contents() {
    let converter = get_converter(&book());
    let sections = vec![Section { title: "A&B".to_string(), content: String::new(), subsections: Vec::new() }];
    let toc = converter.generate_toc_content(&sections);
    assert!(toc.contains("<li><a href=\"chapter_0.xhtml\">A&amp;B</a></li>"));
}

#[test]
fn header_images_and_fonts() {
    let mut b = book();
    b.chapter_header.position = ImagePosition::Left;
    b.chapter_header.height = Some("120px".to_string());
    let converter = EpubConverter3::new(b);
    let html = converter.generate_header_html("images/h.png").unwrap();
    assert_eq!(
        html,
        "<div class=\"chapter-header left\"><img src=\"images/h.png\" alt=\"chapter header\" style=\"margin-left: 0; margin-right: auto; height: 120px;\"/></div>"
    );
    assert!(EpubConverter3::validate_css_dimension("auto", true).is_ok());
    assert!(EpubConverter3::validate_css_dimension("auto", false).is_err());
    assert_eq!(converter.font_resource("f.OTF").unwrap(), ("fonts/custom-font.otf", "font/otf", "opentype"));
    assert!(converter.font_resource("f.exe").is_err());
    assert_eq!(EpubConverter3::canonical_css_variable("primary-color"), "accent-color");
    assert_eq!(EpubConverter3::canonical_css_variable("x"), "x");
}

#[test]
fn test_minimal_css() {
    let generator = CssGenerator::new();
    let mut b = book();
    b.indent = 2;
    let css = generator.generate_minimal(&b);
    assert!(css.contains("body {"));
    assert!(css.contains("text-indent: 2em"));
}

fn text(s: &str) -> CssPiece {
    CssPiece::Text(s.to_string())
}

fn joined_text(pieces: &[CssPiece]) -> String {
    let mut out = String::new();
    for p in pieces {
        match p {
            CssPiece::Text(t) => out.push_str(t),
            CssPiece::Url { raw, .. } => out.push_str(raw),
            _ => out.push('?'),
        }
    }
    out
}

#[test]
fn scan_css_finds_urls_outside_comments_and_strings() {
    let css = "a{b:url( 'x y.png' )} /* url(c.png) */ \"url(d.png)\" URL(e.svg#i)";
    let pieces = scan_css(css);
    assert_eq!(joined_text(&pieces), css);
    let urls: Vec<(String, String, bool)> = pieces
        .iter()
        .filter_map(|p| match p {
            CssPiece::Url { raw, value, quoted } => Some((raw.clone(), value.clone(), *quoted)),
            _ => None,
        })
        .collect();
    assert_eq!(
        urls,
        vec![
            ("url( 'x y.png' )".to_string(), "x y.png".to_string(), true),
            ("URL(e.svg#i)".to_string(), "e.svg#i".to_string(), false),
        ]
    );
    assert!(pieces.contains(&text("/* url(c.png) */")));
    assert!(pieces.contains(&text("\"url(d.png)\"")));
}

#[test]
fn scan_css_imports() {
    let pieces = scan_css("@import \"a.css\";b{}");
    assert_eq!(pieces[0], CssPiece::Import("a.css".to_string()));
    assert_eq!(joined_text(&pieces[1..]), "b{}");
    let pieces = scan_css("@IMPORT url( a.css ) ;b");
    assert_eq!(pieces, vec![CssPiece::Import("a.css".to_string()), text("b")]);
    assert_eq!(scan_css("@import url(x\\).css);"), vec![CssPiece::ConditionalImport]);
    assert_eq!(scan_css("@import 'a.css' screen;"), vec![CssPiece::ConditionalImport]);
    assert_eq!(scan_css("@import foo;"), vec![CssPiece::BadImportSyntax]);
    assert_eq!(scan_css("@import \""), vec![CssPiece::DanglingQuote]);
    assert_eq!(scan_css("a url(\""), vec![text("a"), text(" "), CssPiece::DanglingQuote]);
    // "@imports" is not an import rule.
    assert_eq!(joined_text(&scan_css("@imports")), "@imports");
}

#[test]
fn scan_css_escapes_and_unterminated_strings() {
    let pieces = scan_css("url(\"a\\\"b\")x");
    assert_eq!(
        pieces[0],
        CssPiece::Url { raw: "url(\"a\\\"b\")".to_string(), value: "a\"b".to_string(), quoted: true }
    );
    assert_eq!(pieces[1], text("x"));
    let pieces = scan_css("'abc");
    assert_eq!(pieces, vec![text("'abc")]);
    let pieces = scan_css("/* open");
    assert_eq!(pieces, vec![text("/* open")]);
}

#[test]
fn import_errors_name_the_sheet() {
    let e = import_error(&CssPiece::BadImportSyntax, "custom_css(a.css)").unwrap();
    assert!(e.message().contains("不支持的 @import 语法（custom_css(a.css)）"));
    assert!(import_error(&CssPiece::Import("x".to_string()), "l").is_none());
    let e = import_error(&CssPiece::DanglingQuote, "l").unwrap();
    assert!(e.message().contains("自定义 CSS 中的引号没有闭合（l）"));
    assert!(check_import_depth(7, "l").is_ok());
    let e = check_import_depth(8, "l").unwrap_err();
    assert!(e.message().contains("@import 嵌套超过 8 层（l）"));
    assert!(check_import_css("/a/b.CSS", "b.CSS", "l").is_ok());
    let e = check_import_css("/a/b.txt", "b.txt", "l").unwrap_err();
    assert!(e.message().contains("@import 目标不是 .css 文件（l）: b.txt"));
    let stack = vec!["/a/x.css".to_string()];
    assert!(check_import_cycle(&stack, "/a/y.css", "l").is_ok());
    let e = check_import_cycle(&stack, "/a/x.css", "l").unwrap_err();
    assert!(e.message().contains("检测到循环 @import（l）: /a/x.css"));
    assert_eq!(inline_import("/a/x.css", "b{}"), "/* 内联 @import: /a/x.css */\nb{}\n");
}

#[test]
fn classify_url_values() {
    assert_eq!(classify_url("DATA:image/png;base64,AA", "l").unwrap(), UrlTarget::Keep);
    assert!(classify_url("", "l").unwrap_err().message().contains("空的 url() 引用（l）"));
    assert!(classify_url("#frag", "l").unwrap_err().message().contains("片段引用 url(#frag)（l）"));
    for remote in ["http://x/a.png", "//cdn/a.png", "\\\\server\\a.png", "C:/a.png", "file:a.png"] {
        assert!(classify_url(remote, "l").unwrap_err().message().contains("远程或带协议"));
    }
    assert_eq!(
        classify_url("img/a.svg#icon", "l").unwrap(),
        UrlTarget::Local { path: "img/a.svg".to_string(), fragment: Some("icon".to_string()) }
    );
    assert_eq!(
        classify_url("a/b:c.png", "l").unwrap(),
        UrlTarget::Local { path: "a/b:c.png".to_string(), fragment: None }
    );
    assert!(matches!(classify_url("abcd€.png", "l"), Err(kaf_cli::error::KafError::ParseError(_))));
}

#[test]
fn rewrite_and_resources() {
    assert_eq!(rewrite_url("css-assets/0.png", &None, false), "url(css-assets/0.png)");
    assert_eq!(rewrite_url("css-assets/1.svg", &Some("i".to_string()), true), "url(\"css-assets/1.svg#i\")");
    assert_eq!(css_asset_mime("woff2"), Some("font/woff2"));
    assert_eq!(css_asset_mime("jpeg"), Some("image/jpeg"));
    assert_eq!(css_asset_mime("exe"), None);
    assert_eq!(asset_type("svg", "/a.svg").unwrap(), "image/svg+xml");
    assert!(asset_type("exe", "/a.exe").unwrap_err().message().contains("不支持的资源类型 .exe"));
    let mut reg = AssetRegistry::new();
    assert_eq!(reg.lookup("/a.png"), None);
    assert_eq!(reg.add("/a.png", "png"), "css-assets/0.png");
    assert_eq!(reg.add("/b.ttf", "ttf"), "css-assets/1.ttf");
    assert_eq!(reg.lookup("/a.png"), Some("css-assets/0.png".to_string()));
    assert_eq!(reg.lookup("/b.ttf"), Some("css-assets/1.ttf".to_string()));
}

#[test]
fn percent_decoding() {
    assert_eq!(percent_decode_uri("a%20b.png"), Some("a b.png".to_string()));
    assert_eq!(percent_decode_uri("%E4%B8%AD.png"), Some("中.png".to_string()));
    assert_eq!(percent_decode_uri("100%.png"), Some("100%.png".to_string()));
    assert_eq!(percent_decode_uri("plain.png"), None);
    assert_eq!(percent_decode_uri("%FF.png"), None);
    assert_eq!(asset_candidates("a%20b.png"), vec!["a%20b.png".to_string(), "a b.png".to_string()]);
    assert_eq!(asset_candidates("100%.png"), vec!["100%.png".to_string()]);
}

#[test]
fn header_images_by_extension() {
    assert!(is_header_image("/h/a.PNG"));
    assert!(is_header_image("/h/a.tif"));
    assert!(!is_header_image("/h/a.svg"));
    assert!(!is_header_image("/h/readme"));
}

#[test]
fn header_image_choice() {
    let available: Vec<String> =
        ["/h/010.jpg", "/h/1.png", "/h/10.png", "/h/序章.png", "/h/第十章.png"].iter().map(|s| s.to_string()).collect();
    // The exact name wins.
    assert_eq!(match_header_image("序章", &available), Some(3));
    // Same chapter number: the shortest name, then the first in order.
    assert_eq!(match_header_image("第10章 开始", &available), Some(2));
    assert_eq!(match_header_image("第一章", &available), Some(1));
    assert_eq!(match_header_image("后记", &available), None);
    let titles: Vec<String> = ["  ", "第十章", "Chapter 1"].iter().map(|s| s.to_string()).collect();
    assert_eq!(assign_header_images(&titles, &available), vec![None, Some(4), Some(1)]);
}

#[test]
fn css_variables_prefer_current_names() {
    let vars: Vec<(String, String)> = [("--primary-color", "red"), ("accent-color", "blue"), ("link-color", "green"),
        ("--font-size", "20px"), ("zeta", "1"), ("--background-color", "#000")]
        .iter()
        .map(|(k, v)| (k.to_string(), v.to_string()))
        .collect();
    let merged = kaf_cli::converter::css_variables::merge_css_variables(&vars);
    let expected: Vec<(String, String)> = [("accent-color", "blue"), ("base-size", "20px"), ("bg-color", "#000"), ("zeta", "1")]
        .iter()
        .map(|(k, v)| (k.to_string(), v.to_string()))
        .collect();
    assert_eq!(merged, expected);
}

#[test]
fn style_sheet_assembly() {
    let vars = vec![
        ("accent-color".to_string(), "red".to_string()),
        ("base-size".to_string(), "1em".to_string()),
    ];
    let css = assemble_style_sheet(
        "body{}",
        Some(("fonts/custom-font.ttf", "truetype")),
        Some("p{}"),
        Some("h1{}"),
        &vars,
    );
    assert_eq!(
        css,
        "body{}\n@font-face { font-family: 'CustomFont'; src: url('fonts/custom-font.ttf') format('truetype'); }\nbody { font-family: 'CustomFont', serif; }\n\n/* 用户自定义 CSS */\np{}\n\n/* 扩展 CSS */\nh1{}\n\n:root {\n  --accent-color: red;\n  --base-size: 1em;\n}\n"
    );
    assert_eq!(assemble_style_sheet("body{}", None, None, None, &[]), "body{}");
}

#[test]
fn header_sources() {
    let mut b = Book::default();
    b.filename = "/books/a.txt".to_string();
    let yes = |_: &Query| true;
    let no = |_: &Query| false;
    assert_eq!(header_source(&b, &yes).unwrap(), HeaderSource::Single(None));
    b.chapter_header.image = Some("h.png".to_string());
    assert_eq!(header_source(&b, &yes).unwrap(), HeaderSource::Single(Some("/books/h.png".to_string())));
    b.chapter_header.mode = HeaderMode::Folder;
    assert_eq!(
        header_source(&b, &yes).unwrap_err().message(),
        "章节解析失败: 页眉模式为 folder 时必须设置 image_folder"
    );
    b.chapter_header.image_folder = Some("headers".to_string());
    assert_eq!(header_source(&b, &yes).unwrap(), HeaderSource::Folder("/books/headers".to_string()));
    assert_eq!(
        header_source(&b, &no).unwrap_err().message(),
        "章节解析失败: 章节页眉路径不是目录: /books/headers"
    );
}

#[test]
fn content_image_sources_are_found_and_rewritten() {
    let content = "<p>前</p><img alt=\"x\" src=\"a.png\"/>中<IMG SRC=\"b&amp;c.jpg\">后";
    let (sources, tail) = find_image_sources(content);
    assert_eq!(sources.len(), 2);
    assert_eq!(sources[0].before, "<p>前</p>");
    assert_eq!(sources[0].prefix, "<img alt=\"x\" src=\"");
    assert_eq!(sources[0].value, "a.png");
    assert_eq!(sources[0].suffix, "\"");
    assert_eq!(sources[1].before, "/>中");
    assert_eq!(sources[1].value, "b&amp;c.jpg");
    assert_eq!(tail, ">后");
    let resources = vec!["images/content-0.png".to_string(), "images/a&b.jpg".to_string()];
    assert_eq!(
        rewrite_image_sources(&sources, &resources, &tail),
        "<p>前</p><img alt=\"x\" src=\"images/content-0.png\"/>中<IMG SRC=\"images/a&amp;b.jpg\">后"
    );
    let (none, rest) = find_image_sources("no images");
    assert!(none.is_empty());
    assert_eq!(rest, "no images");
}

#[test]
fn content_images_are_located() {
    let everywhere = |_: &str| true;
    let nowhere = |_: &str| false;
    assert_eq!(locate_image("pic.png?x=1", Some("/b"), &everywhere).unwrap(), "/b/pic.png");
    assert_eq!(locate_image("a%20b.png", Some("/b"), &everywhere).unwrap(), "/b/a b.png");
    let only_raw = |p: &str| p == "/b/a%20b.png";
    assert_eq!(locate_image("a%20b.png", Some("/b"), &only_raw).unwrap(), "/b/a%20b.png");
    assert_eq!(
        locate_image("http://x/y.png", Some("/b"), &everywhere).unwrap_err().message(),
        "章节解析失败: EPUB 不支持未打包的远程或危险图片引用: http://x/y.png"
    );
    assert_eq!(
        locate_image("http%3A%2F%2Fx", Some("/b"), &everywhere).unwrap_err().message(),
        "章节解析失败: EPUB 不支持未打包的远程或危险图片引用: http%3A%2F%2Fx（解码后: http://x）"
    );
    assert_eq!(
        locate_image("gone.png#f", None, &nowhere).unwrap_err().message(),
        "文件不存在: 正文图片不存在: gone.png（源引用: gone.png#f）"
    );
}

#[test]
fn resource_names() {
    assert_eq!(content_resource_name(3, "png"), "images/content-3.png");
    assert_eq!(header_resource_name(0, "jpg"), "images/header-0.jpg");
}

#[test]
fn assets_are_found_in_order() {
    let dirs = vec!["/css".to_string(), "/book".to_string()];
    let only_book = |p: &str| p == "/book/img/a b.png";
    assert_eq!(
        kaf_cli::converter::css_resources::find_asset("img/a%20b.png", &dirs, Some("/cwd"), "extended_css", &only_book).unwrap(),
        "/book/img/a b.png"
    );
    let only_cwd = |p: &str| p == "/cwd/x.png";
    assert_eq!(
        kaf_cli::converter::css_resources::find_asset("x.png", &dirs, Some("/cwd"), "extended_css", &only_cwd).unwrap(),
        "/cwd/x.png"
    );
    let nowhere = |_: &str| false;
    assert_eq!(
        kaf_cli::converter::css_resources::find_asset("x.png", &dirs, None, "extended_css", &nowhere).unwrap_err().message(),
        "文件不存在: 自定义 CSS 引用的资源不存在（extended_css）: x.png"
    );
}

#[test]
fn decoding_an_escaped_attribute_gives_it_back() {
    let s = "\u{FEFF}a<b>&\"c'&amp;";
    let escaped = kaf_cli::utils::html::escape_xml(s);
    assert_eq!(decode_xml_attribute(&escaped), "a<b>&\"c'&amp;");
}
