//! The outcome records of single files in a batch, the totals printed at
//! the end of a batch, and the name of a saved report.

use vstd::prelude::*;
use crate::batch::report::{
    report_extension, BatchReport, ConversionStatus, ErrorDetail, FileConversionResult, ReportFormat,
};
use crate::text::{chars_of, dec, decimal, push_chars, push_str, string_of};

verus! {

/// A copy of a string.
fn copy(s: &str) -> (r: String)
    ensures
        r@ == s@,
{
    string_of(&chars_of(s))
}

/// The record of a file whose conversion failed with `message`.
pub fn failed_result(input: &str, file_size: u64, message: String) -> (r: FileConversionResult)
    ensures
        r.input_file@ == input@ && r.output_file is None && r.status == ConversionStatus::Failed,
        r.duration_text@ == "0.00"@ && r.chapter_count is None && r.file_size_bytes == file_size,
        r.error_message == Some(message),
{
    FileConversionResult {
        input_file: copy(input),
        output_file: None,
        status: ConversionStatus::Failed,
        duration_text: "0.00".to_string(),
        chapter_count: None,
        file_size_bytes: file_size,
        error_message: Some(message),
    }
}

/// The record of a file left alone because the batch had stopped.
pub fn stopped_result(input: &str, file_size: u64) -> (r: FileConversionResult)
    ensures
        r.input_file@ == input@ && r.output_file is None && r.status == ConversionStatus::Skipped,
        r.duration_text@ == "0.00"@ && r.chapter_count is None && r.file_size_bytes == file_size,
        r.error_message matches Some(m) && m@ == "达到批量停止条件，未执行转换"@,
{
    FileConversionResult {
        input_file: copy(input),
        output_file: None,
        status: ConversionStatus::Skipped,
        duration_text: "0.00".to_string(),
        chapter_count: None,
        file_size_bytes: file_size,
        error_message: Some("达到批量停止条件，未执行转换".to_string()),
    }
}

/// The record of an empty file, skipped after `duration_text` seconds.
pub fn empty_file_result(input: &str, duration_text: String) -> (r: FileConversionResult)
    ensures
        r.input_file@ == input@ && r.output_file is None && r.status == ConversionStatus::Skipped,
        r.duration_text == duration_text && r.chapter_count == Some(0usize) && r.file_size_bytes == 0,
        r.error_message matches Some(m) && m@ == "文件为空，跳过处理"@,
{
    FileConversionResult {
        input_file: copy(input),
        output_file: None,
        status: ConversionStatus::Skipped,
        duration_text,
        chapter_count: Some(0),
        file_size_bytes: 0,
        error_message: Some("文件为空，跳过处理".to_string()),
    }
}

/// The record of a file that was only parsed, into `chapters` chapters.
pub fn dry_run_result(input: &str, duration_text: String, chapters: usize, file_size: u64) -> (r: FileConversionResult)
    ensures
        r.input_file@ == input@ && r.output_file is None && r.status == ConversionStatus::Skipped,
        r.duration_text == duration_text && r.chapter_count == Some(chapters) && r.file_size_bytes == file_size,
        r.error_message is None,
{
    FileConversionResult {
        input_file: copy(input),
        output_file: None,
        status: ConversionStatus::Skipped,
        duration_text,
        chapter_count: Some(chapters),
        file_size_bytes: file_size,
        error_message: None,
    }
}

/// The record of a file converted into `output`.
pub fn success_result(input: &str, output: String, duration_text: String, chapters: usize, file_size: u64)
    -> (r: FileConversionResult)
    ensures
        r.input_file@ == input@ && r.output_file == Some(output) && r.status == ConversionStatus::Success,
        r.duration_text == duration_text && r.chapter_count == Some(chapters) && r.file_size_bytes == file_size,
        r.error_message is None,
{
    FileConversionResult {
        input_file: copy(input),
        output_file: Some(output),
        status: ConversionStatus::Success,
        duration_text,
        chapter_count: Some(chapters),
        file_size_bytes: file_size,
        error_message: None,
    }
}

/// The lines of the grouped errors.
pub open spec fn error_summary_lines(errors: Seq<ErrorDetail>) -> Seq<char>
    decreases errors.len(),
{
    if errors.len() == 0 {
        Seq::empty()
    } else {
        let e = errors.last();
        error_summary_lines(errors.drop_last()) + e.error_type@ + ": "@ + e.message@ + " ("@ + dec(
            e.occurrence_count as nat,
        ) + " 次)\n"@
    }
}

/// The totals of a batch as printed at its end, with `skipped` files
/// skipped, then the grouped errors when there are any.
pub open spec fn batch_summary(report: BatchReport, skipped: nat) -> Seq<char> {
    let s = report.summary;
    "\n=== 批量转换汇总 ===\n"@ + "总文件数: "@ + dec(s.total_files as nat) + "\n"@ + "成功转换: "@ + dec(
        s.successful_conversions as nat,
    ) + "\n"@ + "失败转换: "@ + dec(s.failed_conversions as nat) + "\n"@ + "跳过转换: "@ + dec(skipped) + "\n"@
        + "总耗时: "@ + s.total_duration_text@ + " 秒\n"@ + "平均耗时: "@ + s.average_duration_text@ + " 秒\n"@
        + "成功率: "@ + s.success_rate_text@ + "%\n"@ + if report.errors@.len() > 0 {
        "\n=== 错误汇总 ===\n"@ + error_summary_lines(report.errors@)
    } else {
        Seq::empty()
    }
}

/// Appends `label`, the number `n` and a line break.
fn push_count(out: &mut String, label: &str, n: u64)
    ensures
        final(out)@ == old(out)@ + label@ + dec(n as nat) + "\n"@,
{
    push_str(out, label);
    push_chars(out, &decimal(n));
    push_str(out, "\n");
}

/// The totals of a batch as printed at its end, as [`batch_summary`]
/// says.
pub fn batch_summary_text(report: &BatchReport, skipped: usize) -> (r: String)
    ensures
        r@ == batch_summary(*report, skipped as nat),
{
    let s = &report.summary;
    let mut out = "\n=== 批量转换汇总 ===\n".to_string();
    push_count(&mut out, "总文件数: ", s.total_files as u64);
    push_count(&mut out, "成功转换: ", s.successful_conversions as u64);
    push_count(&mut out, "失败转换: ", s.failed_conversions as u64);
    push_count(&mut out, "跳过转换: ", skipped as u64);
    push_str(&mut out, "总耗时: ");
    push_str(&mut out, s.total_duration_text.as_str());
    push_str(&mut out, " 秒\n");
    push_str(&mut out, "平均耗时: ");
    push_str(&mut out, s.average_duration_text.as_str());
    push_str(&mut out, " 秒\n");
    push_str(&mut out, "成功率: ");
    push_str(&mut out, s.success_rate_text.as_str());
    push_str(&mut out, "%\n");
    let ghost head = out@;
    if report.errors.len() > 0 {
        push_str(&mut out, "\n=== 错误汇总 ===\n");
        let ghost start = out@;
        let mut i: usize = 0;
        while i < report.errors.len()
            invariant
                i <= report.errors@.len(),
                out@ == start + error_summary_lines(report.errors@.take(i as int)),
            decreases report.errors.len() - i,
        {
            assert(report.errors@.take(i + 1).drop_last() == report.errors@.take(i as int));
            let e = &report.errors[i];
            push_str(&mut out, e.error_type.as_str());
            push_str(&mut out, ": ");
            push_str(&mut out, e.message.as_str());
            push_str(&mut out, " (");
            push_chars(&mut out, &decimal(e.occurrence_count as u64));
            push_str(&mut out, " 次)\n");
            i = i + 1;
        }
        assert(report.errors@.take(i as int) == report.errors@);
    }
    out
}

/// The name of a report saved at `timestamp` in `format`.
pub fn report_file_name(timestamp: &str, format: ReportFormat) -> (r: String)
    ensures
        r@ == "batch_report_"@ + timestamp@ + "."@ + report_extension(format),
{
    let mut r = "batch_report_".to_string();
    push_str(&mut r, timestamp);
    push_str(&mut r, ".");
    push_str(&mut r, format.extension());
    r
}

} // verus!
