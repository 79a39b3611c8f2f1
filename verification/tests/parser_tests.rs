use kaf_cli::parser::footnotes::{resolve_footnotes, MdItem};
use kaf_cli::parser::markdown_sections::{keeps_section, section_images, split_sections_exec, MdKind};
use kaf_cli::model::{Book, InputFormat};
use kaf_cli::parser::chapter_detector::{blank_separator_lines, ChapterDetector, MatchType};
use kaf_cli::parser::format_detector::FormatDetector;
use kaf_cli::parser::markdown_parser::MarkdownParser;
use kaf_cli::parser::paragraph_processor::{ParagraphMode, ParagraphProcessor};
use kaf_cli::parser::scorer::{ChapterScore, ScoreCalculator, ScoringFactors};
use kaf_cli::parser::Parser;

fn test_book(indent: usize) -> Book {
    let mut book = Book::default();
    book.filename = "test.txt".to_string();
    book.indent = indent;
    book
}

#[test]
fn test_detect_by_extension_txt() {
    assert_eq!(FormatDetector::detect_by_extension("test.txt"), InputFormat::Txt);
}

#[test]
fn test_detect_by_extension_text() {
    assert_eq!(FormatDetector::detect_by_extension("test.text"), InputFormat::Txt);
}

#[test]
fn test_detect_by_extension_md() {
    assert_eq!(FormatDetector::detect_by_extension("test.md"), InputFormat::Markdown);
}

#[test]
fn test_detect_by_extension_markdown() {
    assert_eq!(FormatDetector::detect_by_extension("test.markdown"), InputFormat::Markdown);
}

#[test]
fn test_detect_by_extension_mkd() {
    assert_eq!(FormatDetector::detect_by_extension("test.mkd"), InputFormat::Markdown);
}

#[test]
fn test_detect_by_extension_unknown() {
    assert_eq!(FormatDetector::detect_by_extension("test.unknown"), InputFormat::Auto);
}

#[test]
fn test_detect_by_extension_no_ext() {
    assert_eq!(FormatDetector::detect_by_extension("test"), InputFormat::Auto);
}

#[test]
fn test_detect_by_content_markdown_headers() {
    let content = "# 标题\n\n## 子标题\n\n内容段落\n";
    assert_eq!(FormatDetector::detect_by_content(content), InputFormat::Markdown);
}

#[test]
fn test_detect_by_content_markdown_links() {
    let content = "这是一个段落\n\n[链接文字](https://example.com)\n\n另一个段落\n";
    assert_eq!(FormatDetector::detect_by_content(content), InputFormat::Txt);
}

#[test]
fn test_detect_by_content_markdown_mixed() {
    let content = "# 标题\n\n内容段落\n\n- 列表项1\n- 列表项2\n";
    assert_eq!(FormatDetector::detect_by_content(content), InputFormat::Markdown);
}

#[test]
fn test_detect_by_content_txt_chinese() {
    let content = "第一章 开始\n\n这是第一章的内容。\n\n第二章 发展\n\n这是第二章的内容。\n";
    assert_eq!(FormatDetector::detect_by_content(content), InputFormat::Txt);
}

#[test]
fn test_detect_by_content_empty() {
    assert_eq!(FormatDetector::detect_by_content(""), InputFormat::Txt);
}

#[test]
fn test_detect_by_content_code_block() {
    let content = "普通文本\n\n```\n代码内容\n```\n\n更多文本\n";
    assert_eq!(FormatDetector::detect_by_content(content), InputFormat::Markdown);
}

#[test]
fn test_detect_by_content_blockquote() {
    let content = "普通文本\n\n> 引用内容\n\n更多文本\n";
    assert_eq!(FormatDetector::detect_by_content(content), InputFormat::Txt);
}

#[test]
fn test_detect_combined_with_extension() {
    assert_eq!(FormatDetector::detect("book.md", "纯文本内容"), InputFormat::Markdown);
}

#[test]
fn test_detect_combined_without_extension() {
    let content = "# 标题\n\n- 列表项\n";
    assert_eq!(FormatDetector::detect("book", content), InputFormat::Markdown);
}

#[test]
fn test_detect_by_content_markdown_hr() {
    let content = "内容\n\n---\n\n更多内容\n";
    assert_eq!(FormatDetector::detect_by_content(content), InputFormat::Txt);
}

#[test]
fn test_detect_by_content_bold_text() {
    let content = "普通文本\n\n这是包含粗体文本的段落\n\n更多文本\n";
    assert_eq!(FormatDetector::detect_by_content(content), InputFormat::Txt);
}

#[test]
fn test_detect_by_content_markdown_asterisk_list() {
    let content = "# 标题\n\n* 项目一\n* 项目二\n* 项目三\n";
    assert_eq!(FormatDetector::detect_by_content(content), InputFormat::Markdown);
}

#[test]
fn test_detect_extension_case_insensitive() {
    assert_eq!(FormatDetector::detect_by_extension("TEST.MD"), InputFormat::Markdown);
    assert_eq!(FormatDetector::detect_by_extension("test.TXT"), InputFormat::Txt);
}

#[test]
fn content_detection_reads_fifty_lines_only() {
    let mut content = String::new();
    for _ in 0..50 {
        content.push_str("plain\n");
    }
    content.push_str("# late heading\n");
    assert_eq!(FormatDetector::detect_by_content(&content), InputFormat::Txt);
}

#[test]
fn test_paragraph_processor_creation() {
    let processor = ParagraphProcessor::new(test_book(2));
    assert_eq!(processor.mode(), ParagraphMode::Smart);
}

#[test]
fn test_process_line() {
    let processor = ParagraphProcessor::new(test_book(2));
    assert_eq!(processor.process("这是一个段落"), "<p>  这是一个段落</p>");
}

#[test]
fn blank_lines_give_no_paragraph() {
    let processor = ParagraphProcessor::new(test_book(2));
    assert_eq!(processor.process("  \t "), "");
    assert_eq!(processor.process("\u{feff}正文"), "<p>  正文</p>");
}

#[test]
fn test_process_line_mode() {
    let mut processor = ParagraphProcessor::new(test_book(2));
    processor.set_mode(ParagraphMode::Line);
    let lines = vec!["第一行", "第二行", "第三行"];
    assert_eq!(processor.process_lines(&lines).len(), 3);
}

#[test]
fn test_process_blank_line_mode() {
    let mut processor = ParagraphProcessor::new(test_book(2));
    processor.set_mode(ParagraphMode::BlankLine);
    let lines = vec!["第一行", "第二行", "", "第三行"];
    let results = processor.process_lines(&lines);
    assert_eq!(results.len(), 2);
    assert_eq!(results[0], "<p>  第一行 第二行</p>");
}

#[test]
fn smart_mode_starts_paragraphs_at_dialogue() {
    let processor = ParagraphProcessor::new(test_book(0));
    let lines = vec!["他走了过来", "「你好」", "她说"];
    let results = processor.process_lines(&lines);
    assert_eq!(results, vec!["<p>他走了过来</p>".to_string(), "<p>「你好」 她说</p>".to_string()]);
}

#[test]
fn test_is_dialogue() {
    let processor = ParagraphProcessor::new(test_book(2));
    assert!(processor.is_dialogue("「你好」"));
    assert!(processor.is_dialogue("他说道：「你好」"));
    assert!(!processor.is_dialogue("这是一个很长的普通段落内容"));
}

#[test]
fn test_merge_short_lines() {
    let processor = ParagraphProcessor::new(test_book(2));
    let lines = vec!["这是第一行", "这是第二行", "这是一行很长的普通段落内容"];
    let merged = processor.merge_short_lines(&lines);
    assert!(merged.len() <= 3);
}

#[test]
fn merge_short_lines_joins_with_spaces() {
    let mut processor = ParagraphProcessor::new(test_book(2));
    processor.set_merge_threshold(10);
    let merged = processor.merge_short_lines(&["a", "b", "", "c"]);
    assert_eq!(merged, vec!["a b".to_string(), "c".to_string()]);
}

#[test]
fn test_parser_creation() {
    let parser = Parser::new(test_book(2));
    assert_eq!(parser.book_settings().filename, "test.txt");
}

#[test]
fn test_parse_txt_content() {
    let content = "第一章 开始\n\n这是第一章的内容。\n\n这是第二段内容。\n\n第二章 结束\n\n这是第二章的内容。\n";
    let mut parser = Parser::new(test_book(2));
    let sections = parser.parse_txt(content).unwrap();
    assert_eq!(sections.len(), 2);
    assert_eq!(sections[0].title, "第一章 开始");
    assert!(sections[0].content.contains("这是第一章的内容"));
    assert_eq!(sections[1].title, "第二章 结束");
}

#[test]
fn test_parse_with_volumes() {
    let content = "第一卷 开始\n\n第一章 开端\n\n这是第一章的内容。\n\n第二卷 发展\n\n第二章 延续\n\n这是第二章的内容。\n";
    let mut parser = Parser::new(test_book(2));
    let sections = parser.parse_txt(content).unwrap();
    assert_eq!(sections.len(), 4);
    assert_eq!(sections[0].title, "第一卷 开始");
    assert_eq!(sections[1].title, "第一章 开端");
    assert_eq!(sections[2].title, "第二卷 发展");
    assert_eq!(sections[3].title, "第二章 延续");
}

#[test]
fn preface_keeps_its_text_and_bad_patterns_are_errors() {
    let mut parser = Parser::new(test_book(0));
    let sections = parser.parse_content("序言文字。\n\n第1章 开始\n\n正文。").unwrap();
    assert_eq!(sections.len(), 2);
    assert_eq!(sections[0].title, "");
    assert_eq!(sections[0].content, "<p>序言文字。</p>");
    let mut book = test_book(2);
    book.chapter_match = Some("(".to_string());
    let mut parser = Parser::new(book);
    let err = parser.parse_content("第1章").unwrap_err();
    assert!(err.message().contains("chapter_match 正则表达式无效"));
}

#[test]
fn test_score_calculator_creation() {
    let calc = ScoreCalculator::new();
    assert_eq!(calc.factors().min_threshold, 500);
}

#[test]
fn test_score_regex_match() {
    let calc = ScoreCalculator::new();
    assert_eq!(calc.score_regex_match("第1章", None), 900);
    assert_eq!(calc.score_regex_match("第一章", None), 900);
    assert_eq!(calc.score_regex_match("Chapter 1", None), 700);
    assert_eq!(calc.score_regex_match("第1章 开始", None), 300);
    assert_eq!(calc.score_regex_match("普通段落", None), 0);
}

#[test]
fn test_score_length() {
    let calc = ScoreCalculator::new();
    assert_eq!(calc.score_length("第1章", 35), 1000);
    assert_eq!(calc.score_length("章", 35), 0);
    let long_text = "这个标题非常长非常长非常长非常长非常长非常长非常长非常长非常长非常长非常长";
    assert!(calc.score_length(long_text, 35) > 0);
    assert_eq!(calc.score_length("第一", 35), 800);
}

#[test]
fn test_score_format() {
    let calc = ScoreCalculator::new();
    assert!(calc.score_format("第1章 开始？") > 500);
    assert!(calc.score_format("这是一个完整的句子。") < calc.score_format("第1章"));
}

#[test]
fn test_calculate_chapter_score() {
    let calc = ScoreCalculator::new();
    let lines = vec!["", "第1章 开始", ""];
    let score = calc.calculate_chapter_score("第1章 开始", 1, &lines, None, 35);
    assert!(score.total_score > 600_000);
    assert!(score.regex_score >= 300);
    assert!(score.line_position_score > 500);
    assert!(score.format_score > 0);
}

#[test]
fn test_chapter_score_passes_threshold() {
    let factors = ScoringFactors::default();
    let mut score = ChapterScore::new();
    score.total_score = 400_000;
    assert!(!score.passes_threshold(&factors));
    score.total_score = 600_000;
    assert!(score.passes_threshold(&factors));
}

#[test]
fn test_chapter_detector_creation() {
    let detector = ChapterDetector::new();
    assert_eq!(detector.volume_threshold(), 500);
}

#[test]
fn test_detect_chapter() {
    let detector = ChapterDetector::new();
    let lines = vec!["", "第1章 开始", ""];
    let result = detector.detect_chapter("第1章 开始", 1, &lines, None);
    assert!(result.is_some());
    let result = result.unwrap();
    assert!(result.is_match);
    assert_eq!(result.match_type, MatchType::Chapter);
    assert!(result.score.total_score > 700_000);
}

#[test]
fn test_detect_volume() {
    let detector = ChapterDetector::new();
    let lines = vec!["", "第一卷 开始", ""];
    let result = detector.detect_volume("第一卷 开始", 1, &lines, None);
    assert!(result.is_some());
    let result = result.unwrap();
    assert!(result.is_match);
    assert_eq!(result.match_type, MatchType::Volume);
}

#[test]
fn test_detect_not_chapter() {
    let detector = ChapterDetector::new();
    let lines = vec!["这是一个普通的段落", "这是第二段", "这是第三段"];
    let result = detector.detect_chapter("这是一个普通的段落", 0, &lines, None);
    assert!(result.is_none() || !result.unwrap().is_match);
}

#[test]
fn test_detect_all_chapters() {
    let detector = ChapterDetector::new();
    let lines = vec!["前言", "", "第1章 开始", "这是内容", "", "第2章 继续", "更多内容", "", "第3章 结束"];
    let results = detector.detect_all_chapters(&lines, None);
    assert_eq!(results.len(), 3);
    let line_numbers: Vec<usize> = results.iter().map(|r| r.0).collect();
    assert!(line_numbers.contains(&2));
    assert!(line_numbers.contains(&5));
    assert!(line_numbers.contains(&8));
}

#[test]
fn test_detect_short_chapter() {
    let detector = ChapterDetector::new();
    let lines = vec!["", "第1章", ""];
    let result = detector.detect_chapter("第1章", 1, &lines, None);
    assert!(result.is_some());
    assert!(result.unwrap().is_match);
}

#[test]
fn test_detect_long_title() {
    let detector = ChapterDetector::new();
    let long_chapter = "第1529章 六爻点龙入门根基，天子望气登峰造极";
    let lines = vec!["", long_chapter, ""];
    let result = detector.detect_chapter(long_chapter, 1, &lines, None);
    assert!(result.is_some());
    assert!(result.unwrap().is_match);
}

#[test]
fn test_detect_wan_chapter() {
    let detector = ChapterDetector::new();
    let lines = vec!["", "第一万章 大结局", ""];
    let result = detector.detect_chapter("第一万章 大结局", 1, &lines, None);
    assert!(result.is_some());
    assert!(result.unwrap().is_match);
}

#[test]
fn separators_after_sentences_are_blank() {
    let lines: Vec<Vec<char>> = vec!["正文结束。".chars().collect(), "-----".chars().collect(), "第2章".chars().collect()];
    let blanked = blank_separator_lines(&lines);
    assert!(blanked[1].is_empty());
    assert_eq!(blanked[2], lines[2]);
}

#[test]
fn markdown_parser_settings_and_links() {
    let mut parser = MarkdownParser::new().with_max_title_length(10).with_image_collection(false);
    assert_eq!(parser.max_title_length(), 10);
    assert!(!parser.collects_images());
    let mut collecting = MarkdownParser::new();
    collecting.parse("![A](a.png)\n").unwrap();
    assert_eq!(collecting.images().len(), 1);
    collecting.clear_images();
    assert!(collecting.images().is_empty());
    parser.clear_images();
    assert!(parser.images().is_empty());
    assert_eq!(MarkdownParser::safe_uri(" https://x.org/a ", false), "https://x.org/a");
    assert_eq!(MarkdownParser::safe_uri("javascript:alert(1)", false), "#");
    assert_eq!(MarkdownParser::safe_uri("mailto:a@b.c", true), "#");
    assert_eq!(MarkdownParser::safe_uri("img/a.png", true), "img/a.png");
    assert_eq!(MarkdownParser::escape_html("<a&b>"), "&lt;a&amp;b&gt;");
}

fn t(s: &str) -> MdKind {
    MdKind::Text(s.to_string())
}

fn doc() -> Vec<MdKind> {
    vec![
        MdKind::BlockStart, t("preface"), MdKind::BlockEnd,
        MdKind::HeadingStart, t("Ch1"), MdKind::HeadingEnd,
        MdKind::BlockStart, t("see"), MdKind::FootnoteRef("a".to_string()), MdKind::BlockEnd,
        MdKind::FootnoteStart("a".to_string()), MdKind::BlockStart, t("note a"), MdKind::FootnoteRef("b".to_string()), MdKind::BlockEnd, MdKind::FootnoteEnd,
        MdKind::HeadingStart, t("Ch2"), MdKind::HeadingEnd,
        MdKind::FootnoteStart("b".to_string()), MdKind::BlockStart, t("note b"), MdKind::BlockEnd, MdKind::FootnoteEnd,
        MdKind::FootnoteStart("c".to_string()), t("orphan"), MdKind::FootnoteEnd,
    ]
}

#[test]
fn markdown_sections_by_heading() {
    let ks = doc();
    let sections = split_sections_exec(&ks, usize::MAX);
    assert_eq!(sections.len(), 3);
    assert_eq!(sections[0], (String::new(), vec![0, 1, 2]));
    assert_eq!(sections[1], ("Ch1".to_string(), (6..16).collect::<Vec<usize>>()));
    assert_eq!(sections[2], ("Ch2".to_string(), (19..27).collect::<Vec<usize>>()));
}

#[test]
fn markdown_long_heading_stays_in_text() {
    let ks = vec![MdKind::HeadingStart, t("A very long title"), MdKind::HeadingEnd, MdKind::BlockStart, t("x"), MdKind::BlockEnd, MdKind::HeadingStart, t("B"), MdKind::HeadingEnd];
    let sections = split_sections_exec(&ks, 5);
    assert_eq!(sections, vec![(String::new(), vec![0, 1, 2, 3, 4, 5]), ("B".to_string(), vec![])]);
    // A heading inside a block container does not open a section.
    let nested = vec![MdKind::BlockStart, MdKind::HeadingStart, t("In"), MdKind::HeadingEnd, MdKind::BlockEnd];
    assert_eq!(split_sections_exec(&nested, 10), vec![(String::new(), vec![0, 1, 2, 3, 4])]);
}

#[test]
fn footnotes_move_to_the_sections_that_cite_them() {
    let ks = doc();
    let sections: Vec<Vec<MdItem>> = split_sections_exec(&ks, usize::MAX)
        .into_iter()
        .map(|(_, v)| v.into_iter().map(MdItem::Event).collect())
        .collect();
    let resolved = resolve_footnotes(&ks, &sections);
    let ev = |v: &[usize]| v.iter().map(|i| MdItem::Event(*i)).collect::<Vec<MdItem>>();
    assert_eq!(resolved[0], ev(&[0, 1, 2]));
    let mut one = ev(&[6, 7, 8, 9, 10, 11, 12, 13, 14]);
    one.push(MdItem::DefinitionEnd);
    one.extend(ev(&[19, 20, 21, 22]));
    one.push(MdItem::DefinitionEnd);
    assert_eq!(resolved[1], one);
    let mut two = ev(&[24, 25]);
    two.push(MdItem::DefinitionEnd);
    assert_eq!(resolved[2], two);
}

#[test]
fn repeated_footnote_label_in_a_section_keeps_its_text() {
    let ks = vec![
        MdKind::FootnoteStart("x".to_string()), t("first"), MdKind::FootnoteEnd,
        MdKind::FootnoteStart("x".to_string()), t("second"), MdKind::FootnoteEnd,
        MdKind::FootnoteRef("x".to_string()),
    ];
    let sections = vec![(0..7).map(MdItem::Event).collect::<Vec<_>>()];
    let resolved = resolve_footnotes(&ks, &sections);
    assert_eq!(
        resolved[0],
        vec![MdItem::Event(4), MdItem::Event(6), MdItem::Event(0), MdItem::Event(1), MdItem::DefinitionEnd]
    );
}

#[test]
fn markdown_images_and_kept_sections() {
    let ks = vec![MdKind::ImageStart("a.png".to_string()), t("alt"), t("!"), MdKind::ImageEnd, t("x"), MdKind::ImageEnd];
    let images = section_images(&ks, 3);
    assert_eq!(images.len(), 1);
    assert_eq!(images[0].path, "a.png");
    assert_eq!(images[0].alt, "alt!");
    assert_eq!(images[0].chapter_index, 3);
    assert!(keeps_section("t", ""));
    assert!(keeps_section("", "<p>x</p>"));
    assert!(!keeps_section("", " \n "));
}

#[test]
fn parser_test_parser_creation() {
    let mut book = Book::default();
    book.filename = "test.txt".to_string();
    let parser = Parser::new(book);
    assert_eq!(parser.book_settings().filename, "test.txt");
}

#[test]
fn mod_test_parser_creation() {
    let mut book = Book::default();
    book.filename = "test.txt".to_string();
    let parser = Parser::new(book);
    assert_eq!(parser.book_settings().filename, "test.txt");
}

#[test]
fn test_parse_content() {
    let content = "第一章 开始\n\n这是第一章的内容。\n\n这是第二段内容。\n\n第二章 结束\n\n这是第二章的内容。\n";
    let mut book = Book::default();
    book.filename = "test.txt".to_string();
    let mut parser = Parser::new(book);
    let sections = parser.parse_content(content).unwrap();
    assert_eq!(sections.len(), 2);
    assert_eq!(sections[0].title, "第一章 开始");
    assert!(sections[0].content.contains("这是第一章的内容"));
}

#[test]
fn custom_pattern_cache_shared_across_detectors() {
    let pattern = r"^\d+\.\s+.*";
    let lines = vec!["", "1. Introduction", "This is content.", ""];
    let detector1 = ChapterDetector::new();
    let result1 = detector1.detect_chapter("1. Introduction", 1, &lines, Some(pattern));
    assert!(result1.is_some());
    assert!(result1.unwrap().is_match);
    let detector2 = ChapterDetector::new();
    let result2 = detector2.detect_chapter("2. Next Chapter", 1, &lines, Some(pattern));
    assert!(result2.is_some());
    assert!(result2.unwrap().is_match);
    let result3 = detector1.detect_chapter("3. Another", 1, &lines, Some(pattern));
    assert!(result3.is_some());
}

#[test]
fn test_parse_markdown_content() {
    let content = r#"# 第一章 开始

这是第一章的内容。

## 第一节

这是第一节的内容。

# 第二章 结束

这是第二章的内容。
"#;
    let mut book = Book::default();
    book.filename = "test.md".to_string();
    book.input_format = InputFormat::Markdown;
    let mut parser = Parser::new(book);
    let sections = parser.parse_markdown(content).unwrap();
    assert_eq!(sections.len(), 3);
    assert_eq!(sections[0].title, "第一章 开始");
    assert!(sections[0].content.contains("这是第一章的内容"));
    assert_eq!(sections[1].title, "第一节");
    assert_eq!(sections[2].title, "第二章 结束");
}

#[test]
fn markdown_raw_html_is_written_as_text() {
    let mut parser = MarkdownParser::new();
    let sections = parser.parse("# T\n\n<script>alert(1)</script>\n\nA <b>bold</b> word.\n").unwrap();
    assert_eq!(sections.len(), 1);
    assert!(!sections[0].content.contains("<script>"));
    assert!(sections[0].content.contains("&lt;script&gt;"));
    assert!(sections[0].content.contains("&lt;b&gt;"));
}

#[test]
fn markdown_unsafe_targets_become_hash() {
    let mut parser = MarkdownParser::new();
    let sections = parser.parse("[x](javascript:alert(1)) [y](https://a.example/)\n\n![p](data:image/png;base64,AAA)\n").unwrap();
    assert_eq!(sections.len(), 1);
    assert!(sections[0].content.contains("href=\"#\""));
    assert!(sections[0].content.contains("href=\"https://a.example/\""));
    assert!(!sections[0].content.contains("javascript:"));
    assert!(!sections[0].content.contains("data:image"));
}

#[test]
fn markdown_images_are_collected_by_section() {
    let mut parser = MarkdownParser::new();
    let sections = parser.parse("intro ![a](a.png)\n\n# One\n\n![b *c*](img/b.jpg)\n").unwrap();
    assert_eq!(sections.len(), 2);
    let images = parser.images();
    assert_eq!(images.len(), 2);
    assert_eq!(images[0].path, "a.png");
    assert_eq!(images[0].chapter_index, 0);
    assert_eq!(images[1].path, "img/b.jpg");
    assert_eq!(images[1].alt, "b c");
    assert_eq!(images[1].chapter_index, 1);
    let mut quiet = MarkdownParser::new().with_image_collection(false);
    quiet.parse("![a](a.png)\n").unwrap();
    assert!(quiet.images().is_empty());
}

#[test]
fn markdown_long_headings_stay_in_text_and_footnotes_follow() {
    let mut parser = MarkdownParser::new().with_max_title_length(6);
    let sections = parser.parse("# Short\n\nSee[^n].\n\n# A heading far too long\n\nbody\n\n[^n]: The note.\n").unwrap();
    assert_eq!(sections.len(), 1);
    assert_eq!(sections[0].title, "Short");
    assert!(sections[0].content.contains("A heading far too long"));
    assert!(sections[0].content.contains("The note."));
}

#[test]
fn zero_merge_threshold_keeps_each_line() {
    let mut processor = ParagraphProcessor::new(test_book(2));
    processor.set_merge_threshold(0);
    let merged = processor.merge_short_lines(&["  a ", "b", "", "   ", " c"]);
    assert_eq!(merged, vec!["a".to_string(), "b".to_string(), "c".to_string()]);
}

#[test]
fn long_headings_do_not_become_titles() {
    let mut parser = MarkdownParser::new().with_max_title_length(3);
    let sections = parser.parse("# 很长的标题啊\n\n正文\n").unwrap();
    assert_eq!(sections.len(), 1);
    assert_eq!(sections[0].title, "");
    assert!(sections[0].content.contains("很长的标题啊"));
    assert!(sections[0].content.contains("正文"));
}
