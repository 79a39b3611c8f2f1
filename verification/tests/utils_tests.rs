use kaf_cli::config::validator::Query;
use kaf_cli::utils::cover::{
    detect_format_by_extension, detect_image_format, format_to_mime, is_image_file, validate_image_path, CoverConfig,
    CoverOutputFormat, ImageKind,
};
use kaf_cli::utils::cover::{cover_encoding, epub_image_encoding, needs_resize, resized_encoding, ImageEncoding};
use kaf_cli::utils::encoding::{clean_utf8_output, detect_and_convert, ensure_no_bom};
use kaf_cli::utils::file::extract_bookname_from_filename;
use kaf_cli::utils::html::{escape_xml, keep_ranges_escaping_rest, remove_invalid_xml_chars, sanitize_html_tags};
use kaf_cli::utils::regex::RegexCache;

#[test]
fn test_escape_xml() {
    let result = escape_xml("<tag>value</tag>");
    assert!(result.contains("&lt;tag&gt;"));
}

#[test]
fn test_sanitize_allowed_tags() {
    let input = "<p>合法段落</p>";
    let result = sanitize_html_tags(input);
    assert!(result.contains("<p>合法段落</p>"));
}

#[test]
fn test_sanitize_blocked_tags() {
    let input = "<p>合法</p><script>alert('xss')</script>";
    let result = sanitize_html_tags(input);
    assert!(result.contains("<p>合法</p>"));
    assert!(!result.contains("<script>"));
}

#[test]
fn sanitize_keeps_text_without_tags_verbatim() {
    assert_eq!(sanitize_html_tags("a & b \"c\""), "a & b \"c\"");
}

#[test]
fn sanitize_exact_output() {
    assert_eq!(
        sanitize_html_tags("<p class=\"x\">a & b</p><br/><pre>"),
        "<p class=\"x\">a &amp; b</p><br/>&lt;pre&gt;"
    );
    assert_eq!(
        sanitize_html_tags("<p>合法</p><script>alert('xss')</script>"),
        "<p>合法</p>&lt;script&gt;alert(&apos;xss&apos;)&lt;/script&gt;"
    );
}

#[test]
fn keep_ranges_by_byte_offsets() {
    // "é" takes two bytes: the kept range [2, 5) is "<b>".
    assert_eq!(keep_ranges_escaping_rest("é<b>&", &[(2, 5)]), "é<b>&amp;");
    assert_eq!(keep_ranges_escaping_rest("<i>", &[]), "&lt;i&gt;");
}

#[test]
fn escape_xml_all_specials() {
    assert_eq!(escape_xml("\u{feff}a&b\"c'd"), "a&amp;b&quot;c&apos;d");
}

#[test]
fn invalid_xml_characters_are_removed() {
    assert_eq!(remove_invalid_xml_chars("a\u{1}b\tc"), "ab\tc");
    assert_eq!(clean_utf8_output("\u{feff}\u{feff}x\u{0}"), "x");
    assert_eq!(ensure_no_bom("\u{feff}书"), "书");
}

#[test]
fn test_regex_cache() {
    let mut cache = RegexCache::new();
    let regex = cache.get_or_compile(r"^第.{1,8}章$").unwrap();
    assert!(regex.is_match("第一章"));
    assert!(regex.is_match("第十章"));
    assert!(!regex.is_match("第一章内容"));
}

#[test]
fn test_is_chapter() {
    let mut cache = RegexCache::new();
    assert!(cache.is_chapter("第一章", None).unwrap());
    assert!(cache.is_chapter("序章", None).unwrap());
    assert!(!cache.is_chapter("这是一个段落", None).unwrap());
}

#[test]
fn test_is_volume() {
    let mut cache = RegexCache::new();
    assert!(cache.is_volume("第一卷", None).unwrap());
    assert!(cache.is_volume("第十卷", None).unwrap());
    assert!(!cache.is_volume("第一章", None).unwrap());
}

#[test]
fn test_is_excluded() {
    let mut cache = RegexCache::new();
    assert!(cache.is_excluded("第一部门", None).unwrap());
    assert!(cache.is_excluded("第一部队", None).unwrap());
    assert!(!cache.is_excluded("第一章", None).unwrap());
    assert!(!cache.is_excluded("第一卷", None).unwrap());
}

#[test]
fn invalid_custom_pattern_is_an_error() {
    let mut cache = RegexCache::new();
    assert!(cache.is_chapter("第一章", Some("(")).is_err());
}

#[test]
fn test_extract_bookname_simple() {
    let (bookname, author) = extract_bookname_from_filename("测试小说.txt").unwrap();
    assert_eq!(bookname, "测试小说");
    assert!(author.is_none());
}

#[test]
fn test_extract_bookname_with_author() {
    let (bookname, author) = extract_bookname_from_filename("《希灵帝国》（校对版全本）作者：远瞳.txt").unwrap();
    assert_eq!(bookname, "希灵帝国");
    assert_eq!(author, Some("远瞳".to_string()));
}

#[test]
fn test_extract_bookname_with_prefix() {
    let (bookname, author) = extract_bookname_from_filename("soushu2024@《希灵帝国》作者：远瞳.txt").unwrap();
    assert_eq!(bookname, "希灵帝国");
    assert_eq!(author, Some("远瞳".to_string()));
}

#[test]
fn test_cover_config_default() {
    let config = CoverConfig::default();
    assert_eq!(config.max_width, 1200);
    assert_eq!(config.max_height, 1600);
    assert_eq!(config.quality, 85);
    assert_eq!(config.output_format, CoverOutputFormat::Auto);
}

fn probe(q: &Query) -> bool {
    match q {
        Query::Exists(p) => std::path::Path::new(p).exists(),
        Query::IsFile(p) => std::path::Path::new(p).is_file(),
        Query::IsDir(p) => std::path::Path::new(p).is_dir(),
        _ => true,
    }
}

#[test]
fn test_validate_image_path_not_found() {
    let result = validate_image_path("nonexistent.png", None, &probe);
    assert!(result.is_err());
    assert!(result.unwrap_err().message().contains("封面图片不存在"));
}

#[test]
fn validate_image_path_resolves_and_checks_extension() {
    let yes = |_q: &Query| true;
    assert_eq!(validate_image_path("c.png", Some("/books"), &yes).unwrap(), "/books/c.png");
    assert_eq!(validate_image_path("/abs/c.jpg", Some("/books"), &yes).unwrap(), "/abs/c.jpg");
    let err = validate_image_path("c.pdf", None, &yes).unwrap_err();
    assert!(err.message().contains("文件不是有效的图片"));
}

#[test]
fn test_detect_image_format_invalid() {
    assert!(detect_image_format(&[0x00, 0x01, 0x02, 0x03]).is_err());
}

#[test]
fn test_detect_image_format_empty() {
    assert!(detect_image_format(&[]).is_err());
}

#[test]
fn magic_bytes_name_formats() {
    assert_eq!(detect_image_format(&[0x89, 0x50, 0x4E, 0x47, 0x0D, 0x0A, 0x1A, 0x0A]).unwrap(), ImageKind::Png);
    assert_eq!(detect_image_format(&[0xFF, 0xD8, 0xFF, 0x00]).unwrap(), ImageKind::Jpeg);
    assert_eq!(detect_image_format(b"GIF89a").unwrap(), ImageKind::Gif);
    assert_eq!(detect_image_format(b"RIFF\0\0\0\0WEBP").unwrap(), ImageKind::WebP);
    assert_eq!(detect_image_format(b"BM").unwrap(), ImageKind::Bmp);
    assert_eq!(detect_image_format(b"\0\0\0\0ftypavif").unwrap(), ImageKind::Avif);
}

#[test]
fn test_format_to_mime() {
    assert_eq!(format_to_mime(&ImageKind::Jpeg), "image/jpeg");
    assert_eq!(format_to_mime(&ImageKind::Png), "image/png");
    assert_eq!(format_to_mime(&ImageKind::Gif), "image/gif");
    assert_eq!(format_to_mime(&ImageKind::Other), "image/jpeg");
}

fn create_test_image(format: image::ImageFormat) -> Vec<u8> {
    let img = image::RgbImage::new(10, 10);
    let mut buffer = Vec::new();
    img.write_to(&mut std::io::Cursor::new(&mut buffer), format).unwrap();
    buffer
}

#[test]
fn test_detect_image_format_png() {
    let png = create_test_image(image::ImageFormat::Png);
    assert_eq!(detect_image_format(&png).unwrap(), ImageKind::Png);
}

#[test]
fn test_detect_image_format_jpeg() {
    let jpeg = create_test_image(image::ImageFormat::Jpeg);
    assert_eq!(detect_image_format(&jpeg).unwrap(), ImageKind::Jpeg);
}

#[test]
fn test_is_image_file_by_extension() {
    let nothing_there = |_q: &Query| false;
    assert!(is_image_file("photo.jpg", &nothing_there));
    assert!(is_image_file("photo.jpeg", &nothing_there));
    assert!(is_image_file("photo.png", &nothing_there));
    assert!(is_image_file("photo.gif", &nothing_there));
    assert!(is_image_file("photo.webp", &nothing_there));
    assert!(!is_image_file("document.pdf", &nothing_there));
    assert!(!is_image_file("script.js", &nothing_there));
    assert!(!is_image_file("no_extension", &nothing_there));
}

#[test]
fn is_image_file_checks_content_of_existing_files() {
    let fake = |q: &Query| matches!(q, Query::Exists(_));
    assert!(!is_image_file("fake.png", &fake));
    let real = |_q: &Query| true;
    assert!(is_image_file("real.PNG", &real));
}

#[test]
fn test_detect_format_by_extension() {
    assert_eq!(detect_format_by_extension("photo.jpg"), Some(ImageKind::Jpeg));
    assert_eq!(detect_format_by_extension("photo.JPEG"), Some(ImageKind::Jpeg));
    assert_eq!(detect_format_by_extension("photo.png"), Some(ImageKind::Png));
    assert_eq!(detect_format_by_extension("photo.webp"), Some(ImageKind::WebP));
    assert_eq!(detect_format_by_extension("photo.txt"), None);
    assert_eq!(detect_format_by_extension("photo"), None);
}

#[test]
fn encoding_by_byte_order_mark_and_guess() {
    assert_eq!(detect_and_convert(&[0xEF, 0xBB, 0xBF, b'h', b'i']).unwrap(), "hi");
    assert_eq!(detect_and_convert(&[0xFF, 0xFE, b'h', 0, b'i', 0]).unwrap(), "hi");
    assert_eq!(detect_and_convert(&[0xFE, 0xFF, 0, b'h', 0, b'i']).unwrap(), "hi");
    assert_eq!(detect_and_convert("第一章".as_bytes()).unwrap(), "第一章");
    let gbk = [0xD6, 0xD0, 0xCE, 0xC4, 0xB5, 0xDA, 0xD2, 0xBB, 0xD5, 0xC2];
    assert_eq!(detect_and_convert(&gbk).unwrap(), "中文第一章");
    let e = detect_and_convert(&[0xEF, 0xBB, 0xBF, 0xFF]).unwrap_err();
    assert!(e.message().contains("无效的 UTF-8 字节序列"));
}

#[test]
fn cover_decisions() {
    let config = CoverConfig::default();
    assert!(!needs_resize(1200, 1600, &config));
    assert!(needs_resize(1201, 10, &config));
    assert!(needs_resize(10, 1601, &config));
    assert_eq!(resized_encoding(ImageKind::Png, &config), ImageEncoding::Png);
    assert_eq!(resized_encoding(ImageKind::Gif, &config), ImageEncoding::Jpeg);
    let (encoding, mime) = cover_encoding(ImageKind::WebP, &config);
    assert_eq!((encoding, mime.as_str()), (ImageEncoding::Keep, "image/webp"));
    let jpeg = CoverConfig { output_format: CoverOutputFormat::Jpeg, ..CoverConfig::default() };
    let (encoding, mime) = cover_encoding(ImageKind::Png, &jpeg);
    assert_eq!((encoding, mime.as_str()), (ImageEncoding::Jpeg, "image/jpeg"));
    let (encoding, _) = cover_encoding(ImageKind::Jpeg, &jpeg);
    assert_eq!(encoding, ImageEncoding::Keep);
    assert_eq!(epub_image_encoding(ImageKind::Gif), (ImageEncoding::Keep, "image/gif", "gif"));
    assert_eq!(epub_image_encoding(ImageKind::Bmp), (ImageEncoding::Png, "image/png", "png"));
}

#[test]
fn decoding_undoes_escaping() {
    use_decode_round_trip("a<b>&\"c'd &amp; 中文");
    use_decode_round_trip("");
    use_decode_round_trip("&&&;;");
}

fn use_decode_round_trip(text: &str) {
    assert_eq!(kaf_cli::converter::entities::decode_xml_attribute(&escape_xml(text)), text);
}

fn create_test_png(width: u32, height: u32) -> Vec<u8> {
    let img = image::RgbImage::new(width, height);
    let mut buffer = Vec::new();
    let mut cursor = std::io::Cursor::new(&mut buffer);
    img.write_to(&mut cursor, image::ImageFormat::Png).unwrap();
    buffer
}

#[test]
fn test_convert_to_jpeg() {
    let png = create_test_png(100, 100);
    let jpeg = kaf_cli::utils::cover::convert_to_jpeg(&png).unwrap();
    assert!(!jpeg.is_empty());
    assert!(jpeg.starts_with(&[0xFF, 0xD8, 0xFF]));
}

#[test]
fn convert_to_jpeg_refuses_garbage() {
    let r = kaf_cli::utils::cover::convert_to_jpeg(&[0x00, 0x01, 0x02]);
    assert!(matches!(r, Err(kaf_cli::error::KafError::ImageError(_))));
}

#[test]
fn test_get_image_dimensions() {
    let png = create_test_png(200, 300);
    let (w, h) = kaf_cli::utils::cover::get_image_dimensions(&png).unwrap();
    assert_eq!(w, 200);
    assert_eq!(h, 300);
}

#[test]
fn test_get_image_dimensions_invalid() {
    assert!(kaf_cli::utils::cover::get_image_dimensions(&[0x00, 0x01]).is_err());
}

#[test]
fn texts_are_sorted_as_strings_are() {
    let v = vec!["b".to_string(), "a/b".to_string(), "a".to_string(), "b".to_string(), "中".to_string()];
    let mut expected = v.clone();
    expected.sort();
    assert_eq!(kaf_cli::utils::sorting::sorted_texts(v.clone()), expected);
    expected.dedup();
    assert_eq!(kaf_cli::utils::sorting::sorted_distinct_texts(v), expected);
}
