use kaf_cli::batch::enhanced::{BatchConfig, BatchInput, BatchSchedule, EnhancedBatchConverter, PlannedJob, Step};
use kaf_cli::batch::report::{
    count_statuses, group_errors, sort_by_message, success_rate, summarize_errors, BatchReport, ConversionStatus,
    ConversionSummary, ErrorDetail, FileConversionResult, ReportFormat, ReportGenerator,
};
use kaf_cli::batch::scanner::FolderScanner;
use kaf_cli::batch::BatchConverter;
use kaf_cli::config::validator::Query;
use kaf_cli::model::Book;
use kaf_cli::batch::results::{
    batch_summary_text, dry_run_result, empty_file_result, failed_result, report_file_name, stopped_result,
    success_result,
};

#[test]
fn test_report_format_from_str() {
    assert!(matches!(ReportFormat::parse("json"), Ok(ReportFormat::Json)));
    assert!(matches!(ReportFormat::parse("markdown"), Ok(ReportFormat::Markdown)));
    assert!(matches!(ReportFormat::parse("html"), Ok(ReportFormat::Html)));
    assert!(ReportFormat::parse("invalid").is_err());
}

#[test]
fn test_report_format_extension() {
    assert_eq!(ReportFormat::Json.extension(), "json");
    assert_eq!(ReportFormat::Markdown.extension(), "md");
    assert_eq!(ReportFormat::Html.extension(), "html");
}

#[test]
fn report_generator_keeps_its_format() {
    let generator = ReportGenerator::new(ReportFormat::Html);
    assert_eq!(generator.report_format(), ReportFormat::Html);
}

#[test]
fn test_batch_converter_creation() {
    let converter = BatchConverter::new(4);
    assert_eq!(converter.concurrency, 4);
    let config = converter.batch_config();
    assert!(config.continue_on_error);
    assert_eq!(config.concurrency, 4);
}

#[test]
fn test_folder_scanner_creation() {
    let scanner = FolderScanner::new("/tmp".to_string(), true);
    assert_eq!(scanner.root(), "/tmp");
    assert!(scanner.recursive());
}

#[test]
fn supported_inputs_and_reports() {
    assert!(FolderScanner::is_supported_input("a/b.TXT"));
    assert!(FolderScanner::is_supported_input("b.markdown"));
    assert!(!FolderScanner::is_supported_input("b.epub"));
    assert!(FolderScanner::matches_generated_report_stem("batch_report_20240101_120000"));
    assert!(FolderScanner::matches_generated_report_stem("batch_report_20240101_120000 (2)"));
    assert!(!FolderScanner::matches_generated_report_stem("batch_report_2024"));
    assert!(!FolderScanner::matches_generated_report_stem("batch_report_20240101_120000 ()"));
    assert!(!FolderScanner::matches_generated_report_stem("my_report"));
}

#[test]
fn output_names_are_sanitized() {
    assert_eq!(EnhancedBatchConverter::sanitize_output_name("  a/b:c?  "), "a_b_c_");
    assert_eq!(EnhancedBatchConverter::sanitize_output_name(" .. "), "output");
    assert_eq!(EnhancedBatchConverter::sanitize_output_name(".hidden."), "hidden");
}

#[test]
fn output_paths_are_reserved_once() {
    let mut book = Book::default();
    book.filename = "/in/novel.txt".to_string();
    book.bookname = Some("书".to_string());
    let config = BatchConfig::default();
    let mut reserved = Vec::new();
    let never = |_p: &str| false;
    let first = EnhancedBatchConverter::reserve_output_path(&book, &config, &mut reserved, &never).unwrap();
    let second = EnhancedBatchConverter::reserve_output_path(&book, &config, &mut reserved, &never).unwrap();
    assert_eq!(first, "/in/书.epub");
    assert_eq!(second, "/in/书 (1).epub");
    let taken = |p: &str| p == "/in/书.epub";
    let mut fresh = Vec::new();
    assert_eq!(EnhancedBatchConverter::reserve_output_path(&book, &config, &mut fresh, &taken).unwrap(), "/in/书 (1).epub");
}

#[test]
fn jobs_follow_inputs() {
    let mut book = Book::default();
    book.filename = "/in/a.txt".to_string();
    let inputs = vec![BatchInput::failed("/in/x.txt".to_string(), "bad".to_string()), BatchInput::book(book)];
    let mut config = BatchConfig::default();
    config.dry_run = true;
    let yes = |_q: &Query| true;
    let never = |_p: &str| false;
    let jobs = EnhancedBatchConverter::plan_jobs(inputs, &config, &yes, &never);
    assert_eq!(jobs.len(), 2);
    assert_eq!(jobs[0].input(), "/in/x.txt");
    assert!(matches!(jobs[0], PlannedJob::Failed { .. }));
    assert!(matches!(jobs[1], PlannedJob::Ready { .. }));
}

#[test]
fn schedule_runs_waves_and_stops() {
    let mut config = BatchConfig::default();
    config.concurrency = 2;
    let mut schedule = BatchSchedule::new(vec![true, true, true, false, true], &config).unwrap();
    assert_eq!(schedule.next_step(), Step::Launch(0, 2));
    schedule.finish_wave(0);
    assert_eq!(schedule.next_step(), Step::Launch(2, 3));
    schedule.finish_wave(1);
    assert_eq!(schedule.next_step(), Step::SkipRest(3));
    assert_eq!(schedule.next_step(), Step::Done);
    config.concurrency = 0;
    assert!(BatchSchedule::new(vec![], &config).is_err());
}

#[test]
fn schedule_tolerates_errors_when_asked() {
    let mut config = BatchConfig::default();
    config.concurrency = 4;
    config.continue_on_error = true;
    let mut schedule = BatchSchedule::new(vec![false, true], &config).unwrap();
    assert_eq!(schedule.next_step(), Step::RecordFailure(0));
    assert_eq!(schedule.next_step(), Step::Launch(1, 2));
    schedule.finish_wave(0);
    assert_eq!(schedule.next_step(), Step::Done);
}

#[test]
fn errors_are_grouped() {
    let failures = vec![
        ("a".to_string(), "ConversionError".to_string(), "boom".to_string()),
        ("b".to_string(), "ConfigurationError".to_string(), "bad".to_string()),
        ("c".to_string(), "ConversionError".to_string(), "boom".to_string()),
    ];
    let groups = group_errors(&failures);
    assert_eq!(groups.len(), 2);
    assert_eq!(groups[0].affected_files, vec!["a".to_string(), "c".to_string()]);
    assert_eq!(groups[0].occurrence_count, 2);
    assert_eq!(groups[1].message, "bad");
}

fn sample_report() -> BatchReport {
    BatchReport {
        timestamp: "2024-01-01T00:00:00Z".to_string(),
        summary: ConversionSummary {
            total_files: 2,
            successful_conversions: 1,
            failed_conversions: 1,
            total_duration_text: "3.50".to_string(),
            average_duration_text: "1.75".to_string(),
            success_rate_text: "50.0".to_string(),
        },
        files: vec![
            FileConversionResult {
                input_file: "a.txt".to_string(),
                output_file: Some("a.epub".to_string()),
                status: ConversionStatus::Success,
                duration_text: "1.25".to_string(),
                chapter_count: Some(12),
                file_size_bytes: 2048,
                error_message: None,
            },
            FileConversionResult {
                input_file: "b.txt".to_string(),
                output_file: None,
                status: ConversionStatus::Failed,
                duration_text: "2.25".to_string(),
                chapter_count: None,
                file_size_bytes: 0,
                error_message: Some("bad".to_string()),
            },
        ],
        errors: vec![ErrorDetail {
            error_type: "ParseError".to_string(),
            message: "bad".to_string(),
            affected_files: vec!["b.txt".to_string()],
            occurrence_count: 1,
        }],
    }
}

#[test]
fn markdown_report_exact() {
    let md = ReportGenerator::new(ReportFormat::Markdown).generate_markdown(&sample_report());
    let expected = "# Batch Conversion Report\n\nGenerated at: 2024-01-01T00:00:00Z\n\n## Summary\n\n\
- Total files: 2\n- Successful conversions: 1\n- Failed conversions: 1\n- Total duration: 3.50 seconds\n\
- Average duration: 1.75 seconds\n- Success rate: 50.0%\n\n## File Details\n\n\
1. a.txt\n\n   - Status: Success\n   - Output: a.epub\n   - Duration: 1.25 seconds\n   - Chapters: 12\n   - Size: 2048 bytes\n\n\
2. b.txt\n\n   - Status: Failed\n   - Duration: 2.25 seconds\n   - Size: 0 bytes\n   - Error: bad\n\n\
## Error Details\n\n### 1. ParseError\n\n**Message**: bad\n\n**Occurrences**: 1\n\n**Affected files**:\n\n- b.txt\n\n";
    assert_eq!(md, expected);
    assert!(md.starts_with(kaf_cli::batch::report::REPORT_MARKER));
}

#[test]
fn html_report_rows_and_errors() {
    let html = ReportGenerator::new(ReportFormat::Html).generate_html(&sample_report());
    assert!(html.starts_with("<!DOCTYPE html>\n<html lang=\"en\">\n"));
    assert!(html.contains("<tr><td>Success rate</td><td>50.0%</td></tr>\n"));
    assert!(html.contains("<tr><td>1</td><td>a.txt</td><td>a.epub</td><td class=\"success\">success</td><td>1.25s</td><td>12</td><td>2048</td></tr>\n"));
    assert!(html.contains("<tr><td>2</td><td>b.txt</td><td></td><td class=\"failed\">failed</td><td>2.25s</td><td></td><td>0</td></tr>\n"));
    assert!(html.contains("<h3>1. ParseError</h3>\n<p><strong>Message:</strong> bad</p>\n"));
    assert!(html.contains("<ul>\n<li>b.txt</li>\n</ul>\n"));
    assert!(html.ends_with("</body>\n</html>\n"));
}

#[test]
fn html_report_without_errors_has_no_error_section() {
    let mut report = sample_report();
    report.errors.clear();
    let html = ReportGenerator::new(ReportFormat::Html).generate_html(&report);
    assert!(!html.contains("Error Details"));
    let md = ReportGenerator::new(ReportFormat::Markdown).generate_markdown(&report);
    assert!(!md.contains("Error Details"));
}

#[test]
fn status_counts_and_rate() {
    let statuses = [ConversionStatus::Success, ConversionStatus::Failed, ConversionStatus::Success, ConversionStatus::Skipped];
    let c = count_statuses(&statuses);
    assert_eq!(c.total_files, 4);
    assert_eq!(c.successful_conversions, 2);
    assert_eq!(c.failed_conversions, 1);
    assert_eq!(c.skipped_conversions, 1);
    assert_eq!(success_rate(&c), (2, 3));
    let only_skipped = count_statuses(&[ConversionStatus::Skipped]);
    assert_eq!(success_rate(&only_skipped), (1, 1));
    let none = count_statuses(&[]);
    assert_eq!(success_rate(&none), (0, 1));
}

fn detail(kind: &str, message: &str) -> ErrorDetail {
    ErrorDetail { error_type: kind.to_string(), message: message.to_string(), affected_files: vec![], occurrence_count: 0 }
}

#[test]
fn errors_sorted_by_message_stably() {
    let sorted = sort_by_message(vec![detail("A", "zeta"), detail("B", "alpha"), detail("C", "zeta"), detail("D", "Beta")]);
    let kinds: Vec<&str> = sorted.iter().map(|d| d.error_type.as_str()).collect();
    assert_eq!(kinds, vec!["D", "B", "A", "C"]);
}

#[test]
fn summarize_errors_groups_failed_files() {
    let mut report = sample_report();
    report.files.push(FileConversionResult {
        input_file: "c.txt".to_string(),
        output_file: None,
        status: ConversionStatus::Failed,
        duration_text: "0.10".to_string(),
        chapter_count: None,
        file_size_bytes: 1,
        error_message: Some("bad".to_string()),
    });
    report.files.push(FileConversionResult {
        input_file: "d.txt".to_string(),
        output_file: None,
        status: ConversionStatus::Failed,
        duration_text: "0.10".to_string(),
        chapter_count: None,
        file_size_bytes: 1,
        error_message: Some("another".to_string()),
    });
    let kinds = vec![("c.txt".to_string(), "IoError".to_string())];
    let errors = summarize_errors(&report.files, &kinds);
    assert_eq!(errors.len(), 3);
    assert_eq!(errors[0].message, "another");
    assert_eq!(errors[0].error_type, "ConversionError");
    assert_eq!(errors[1].message, "bad");
    assert_eq!(errors[2].message, "bad");
    let mut types = vec![errors[1].error_type.clone(), errors[2].error_type.clone()];
    types.sort();
    assert_eq!(types, vec!["ConversionError".to_string(), "IoError".to_string()]);
}

#[test]
fn ready_jobs_get_distinct_outputs() {
    let mut first = Book::default();
    first.filename = "/in/a.txt".to_string();
    first.bookname = Some("同名".to_string());
    let mut second = Book::default();
    second.filename = "/in/b.txt".to_string();
    second.bookname = Some("同名".to_string());
    let config = BatchConfig::default();
    let yes = |_q: &Query| true;
    let never = |_p: &str| false;
    let jobs = EnhancedBatchConverter::plan_jobs(vec![BatchInput::book(first), BatchInput::book(second)], &config, &yes, &never);
    let outputs: Vec<String> = jobs
        .iter()
        .filter_map(|job| match job {
            PlannedJob::Ready { output_path, .. } => Some(output_path.clone()),
            PlannedJob::Failed { .. } => None,
        })
        .collect();
    assert_eq!(outputs, vec!["/in/同名.epub".to_string(), "/in/同名 (1).epub".to_string()]);
}

#[test]
fn max_errors_stops_a_tolerant_batch() {
    let mut config = BatchConfig::default();
    config.concurrency = 4;
    config.continue_on_error = true;
    config.max_errors = 2;
    let mut schedule = BatchSchedule::new(vec![false, true, true, false, true], &config).unwrap();
    assert_eq!(schedule.next_step(), Step::RecordFailure(0));
    assert_eq!(schedule.next_step(), Step::Launch(1, 3));
    schedule.finish_wave(0);
    assert_eq!(schedule.next_step(), Step::RecordFailure(3));
    assert_eq!(schedule.next_step(), Step::SkipRest(4));
    assert_eq!(schedule.next_step(), Step::Done);
}

#[test]
fn result_records() {
    let failed = failed_result("/in/a.txt", 12, "boom".to_string());
    assert_eq!(failed.status, ConversionStatus::Failed);
    assert_eq!(failed.duration_text, "0.00");
    assert_eq!(failed.file_size_bytes, 12);
    assert_eq!(failed.error_message.as_deref(), Some("boom"));
    let stopped = stopped_result("/in/b.txt", 3);
    assert_eq!(stopped.status, ConversionStatus::Skipped);
    assert_eq!(stopped.error_message.as_deref(), Some("达到批量停止条件，未执行转换"));
    let empty = empty_file_result("/in/c.txt", "0.01".to_string());
    assert_eq!(empty.chapter_count, Some(0));
    assert_eq!(empty.error_message.as_deref(), Some("文件为空，跳过处理"));
    let dry = dry_run_result("/in/d.txt", "0.20".to_string(), 7, 99);
    assert_eq!((dry.status, dry.chapter_count, dry.file_size_bytes), (ConversionStatus::Skipped, Some(7), 99));
    let done = success_result("/in/e.txt", "/out/e.epub".to_string(), "1.50".to_string(), 3, 10);
    assert_eq!(done.output_file.as_deref(), Some("/out/e.epub"));
    assert_eq!(done.status, ConversionStatus::Success);
}

#[test]
fn summary_and_report_names() {
    let report = BatchReport {
        timestamp: "t".to_string(),
        summary: ConversionSummary {
            total_files: 3,
            successful_conversions: 1,
            failed_conversions: 1,
            total_duration_text: "2.00".to_string(),
            average_duration_text: "0.67".to_string(),
            success_rate_text: "50.0".to_string(),
        },
        files: Vec::new(),
        errors: vec![ErrorDetail {
            error_type: "ConversionError".to_string(),
            message: "boom".to_string(),
            affected_files: vec!["a".to_string()],
            occurrence_count: 1,
        }],
    };
    assert_eq!(
        batch_summary_text(&report, 1),
        "\n=== 批量转换汇总 ===\n总文件数: 3\n成功转换: 1\n失败转换: 1\n跳过转换: 1\n总耗时: 2.00 秒\n平均耗时: 0.67 秒\n成功率: 50.0%\n\n=== 错误汇总 ===\nConversionError: boom (1 次)\n"
    );
    assert_eq!(report_file_name("20250101_120000", ReportFormat::Markdown), "batch_report_20250101_120000.md");
}

#[test]
fn test_batch_report_default() {
    let report = BatchReport::default();
    assert_eq!(report.files.len(), 0);
    assert_eq!(report.errors.len(), 0);
    assert_eq!(report.summary.total_files, 0);
}

#[test]
fn test_conversion_summary_default() {
    let summary = ConversionSummary::default();
    assert_eq!(summary.total_files, 0);
    assert_eq!(summary.successful_conversions, 0);
    assert_eq!(summary.failed_conversions, 0);
}

#[test]
fn test_file_conversion_result_status() {
    let result = FileConversionResult {
        status: ConversionStatus::Success,
        ..Default::default()
    };
    assert_eq!(result.status, ConversionStatus::Success);
}

#[test]
fn scanned_books_take_their_resources() {
    let scanner = FolderScanner::new("lib".to_string(), false);
    let probe = |q: &Query| matches!(q, Query::IsFile(p) if p == "lib/cover.png");
    let books = scanner
        .scan_with_config(&["lib/作者-书名.txt".to_string(), "lib/b.md".to_string()], &probe)
        .unwrap();
    assert_eq!(books.len(), 2);
    assert_eq!(books[0].filename, "lib/作者-书名.txt");
    assert_eq!(books[1].bookname, Some("b".to_string()));
    assert!(matches!(&books[1].cover,
        Some(kaf_cli::model::CoverSource::Local { path }) if path == "lib/cover.png"));
    let bad = scanner.scan_with_config(&["lib/a.txt".to_string(), "".to_string()], &probe);
    assert!(matches!(bad, Err(kaf_cli::error::KafError::ParseError(m)) if m == "Invalid filename"));
}

#[test]
fn scan_with_cli_reports_the_first_failure() {
    let scanner = FolderScanner::new("lib".to_string(), false);
    let probe = |_q: &Query| false;
    let mut cli = kaf_cli::cli::Cli::default();
    let ok = scanner.scan_with_cli(&cli, vec![("lib/a.txt".to_string(), None)], ".", &probe).unwrap();
    assert_eq!(ok[0].bookname, Some("a".to_string()));
    let one = scanner.create_book_from_cli(&cli, "", None, ".", &probe);
    assert!(matches!(one, Err(kaf_cli::error::KafError::ParseError(m)) if m == "Invalid filename"));
    cli.align = "sideways".to_string();
    cli.explicit = vec!["align".to_string()];
    let bad = scanner.scan_with_cli(&cli, vec![("lib/a.txt".to_string(), None)], ".", &probe);
    assert!(matches!(bad, Err(kaf_cli::error::KafError::ParseError(m)) if m == "无效的对齐方式: sideways"));
}

#[test]
fn own_reports_need_stem_and_marker() {
    let yes = |_s: &str| true;
    let no = |_s: &str| false;
    assert!(FolderScanner::is_own_generated_report("out/batch_report_20240101_120000.md", &yes));
    assert!(!FolderScanner::is_own_generated_report("out/batch_report_20240101_120000.md", &no));
    assert!(!FolderScanner::is_own_generated_report("out/notes.md", &yes));
}

#[test]
fn scanned_books_take_names_from_file_names() {
    let scanner = FolderScanner::new("lib".to_string(), false);
    let probe = |_q: &Query| false;
    let books = scanner
        .scan_with_config(&["lib/《希灵帝国》作者：远瞳.txt".to_string(), "lib/plain.txt".to_string()], &probe)
        .unwrap();
    assert_eq!(books[0].bookname, Some("希灵帝国".to_string()));
    assert_eq!(books[0].author, "远瞳");
    assert_eq!(books[1].bookname, Some("plain".to_string()));
    assert_eq!(books[1].author, "YSTYLE");
}

#[test]
fn batch_inputs_follow_the_files() {
    let scanner = FolderScanner::new("lib".to_string(), false);
    let probe = |_q: &Query| false;
    let cli = kaf_cli::cli::Cli::default();
    let inputs = scanner.scan_with_cli_inputs(
        &cli,
        vec![
            ("lib/a.txt".to_string(), Ok(None)),
            ("".to_string(), Ok(None)),
            ("lib/b.txt".to_string(), Err(kaf_cli::error::KafError::ParseError("bad yaml".to_string()))),
        ],
        vec![("lib/x".to_string(), "denied".to_string())],
        ".",
        &probe,
    );
    assert_eq!(inputs.len(), 4);
    assert!(matches!(&inputs[0], BatchInput::Book(b) if b.filename == "lib/a.txt"));
    assert!(matches!(&inputs[1], BatchInput::Failed { input, error } if input.is_empty() && error == "章节解析失败: Invalid filename"));
    assert!(matches!(&inputs[2], BatchInput::Failed { input, error } if input == "lib/b.txt" && error == "章节解析失败: bad yaml"));
    assert!(matches!(&inputs[3], BatchInput::Failed { input, error } if input == "lib/x" && error == "扫描失败: denied"));
}

#[test]
fn batch_config_reflects_cli_concurrency() {
    // What `kaf-cli --concurrency 8` gives.
    let mut cli = kaf_cli::cli::Cli::default();
    cli.concurrency = 8;
    let config = BatchConfig::from_cli(&cli);
    assert_eq!(config.concurrency, 8);
}

#[test]
fn dry_run_plans_ready_jobs_for_valid_books() {
    let mut book = Book::default();
    book.filename = "a.txt".to_string();
    let mut config = BatchConfig::default();
    config.dry_run = true;
    let yes = |_q: &Query| true;
    let exists = |_s: &str| true;
    let jobs = EnhancedBatchConverter::plan_jobs(vec![BatchInput::book(book.clone())], &config, &yes, &exists);
    assert!(matches!(&jobs[0], PlannedJob::Ready { output_path, .. } if output_path.is_empty()));
    let no = |_q: &Query| false;
    let jobs = EnhancedBatchConverter::plan_jobs(vec![BatchInput::book(book)], &config, &no, &exists);
    assert!(matches!(&jobs[0], PlannedJob::Failed { error, error_type, .. }
        if error == "章节解析失败: 文件不存在: a.txt" && *error_type == "ConfigurationError"));
}
