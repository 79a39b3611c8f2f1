//! Batch reports: formats, statuses, and the grouping of failures by kind
//! and message.

use vstd::prelude::*;
use vstd::multiset::Multiset;
use crate::error::KafError;
use crate::text::{
    chars_eq, chars_eq_str, chars_of, dec, decimal, lemma_text_less_total, lemma_text_less_transitive, lowercase, push_chars,
    push_str, string_of, text_less, text_less_exec, to_lowercase,
};

verus! {

/// The first line of a Markdown report written by this tool.
pub const REPORT_MARKER: &'static str = "# Batch Conversion Report";

/// The outcome of one file.
#[derive(Debug, Clone, Copy, PartialEq, Eq, Structural)]
pub enum ConversionStatus {
    Success,
    Failed,
    Skipped,
}

/// Files that failed with the same kind of error and the same message.
#[derive(Debug, Clone)]
pub struct ErrorDetail {
    pub error_type: String,
    pub message: String,
    pub affected_files: Vec<String>,
    pub occurrence_count: usize,
}

/// Report formats.
#[derive(Debug, Clone, Copy, PartialEq, Eq, Structural)]
pub enum ReportFormat {
    Json,
    Markdown,
    Html,
}

/// The report format a lower-case name names.
pub open spec fn report_format_keyword(l: Seq<char>) -> Option<ReportFormat> {
    if l == "json"@ {
        Some(ReportFormat::Json)
    } else if l == "markdown"@ || l == "md"@ {
        Some(ReportFormat::Markdown)
    } else if l == "html"@ {
        Some(ReportFormat::Html)
    } else {
        None
    }
}

/// The file extension of a report format.
pub open spec fn report_extension(f: ReportFormat) -> Seq<char> {
    match f {
        ReportFormat::Json => "json"@,
        ReportFormat::Markdown => "md"@,
        ReportFormat::Html => "html"@,
    }
}

impl ReportFormat {
    /// Parses a report format, ignoring case: `json`, `markdown` or `md`,
    /// `html`.
    pub fn parse(s: &str) -> (r: Result<ReportFormat, KafError>)
        ensures
            match report_format_keyword(lowercase(s@)) {
                Some(f) => r == Ok::<ReportFormat, KafError>(f),
                None => r matches Err(KafError::ParseError(m)) && m@ == "Invalid report format: "@ + s@,
            },
    {
        let l = chars_of(to_lowercase(s).as_str());
        if chars_eq_str(&l, "json") {
            Ok(ReportFormat::Json)
        } else if chars_eq_str(&l, "markdown") || chars_eq_str(&l, "md") {
            Ok(ReportFormat::Markdown)
        } else if chars_eq_str(&l, "html") {
            Ok(ReportFormat::Html)
        } else {
            let mut m = "Invalid report format: ".to_string();
            crate::text::push_str(&mut m, s);
            Err(KafError::ParseError(m))
        }
    }

    /// The file extension of the format.
    pub fn extension(&self) -> (r: &'static str)
        ensures
            r@ == report_extension(*self),
    {
        match self {
            ReportFormat::Json => "json",
            ReportFormat::Markdown => "md",
            ReportFormat::Html => "html",
        }
    }
}

/// Writes reports in one format.
pub struct ReportGenerator {
    format: ReportFormat,
}

impl ReportGenerator {
    /// A generator of `format` reports.
    pub fn new(format: ReportFormat) -> (r: Self)
        ensures
            r.format() == format,
    {
        ReportGenerator { format }
    }

    /// The format of the reports.
    pub closed spec fn format(&self) -> ReportFormat {
        self.format
    }

    /// The format of the reports.
    pub fn report_format(&self) -> (r: ReportFormat)
        ensures
            r == self.format(),
    {
        self.format
    }
}

/// A failure: the input file, the kind of error and the message.
pub type Failure = (String, String, String);

/// A group of failures: kind, message, and the files, in order.
pub type Group = (Seq<char>, Seq<char>, Seq<Seq<char>>);

/// The position of the group of kind `t` and message `m` among `g`, if any.
pub open spec fn group_index(g: Seq<Group>, t: Seq<char>, m: Seq<char>) -> int
    decreases g.len(),
{
    if g.len() == 0 {
        -1
    } else if g.last().0 == t && g.last().1 == m {
        g.len() - 1
    } else {
        group_index(g.drop_last(), t, m)
    }
}

/// The failures grouped by kind and message, groups in the order of their
/// first failure and files in the order of the failures.
pub open spec fn grouped(fs: Seq<(Seq<char>, Seq<char>, Seq<char>)>) -> Seq<Group>
    decreases fs.len(),
{
    if fs.len() == 0 {
        Seq::empty()
    } else {
        let g = grouped(fs.drop_last());
        let (input, t, m) = fs.last();
        let i = group_index(g, t, m);
        if i >= 0 {
            g.update(i, (t, m, g[i].2.push(input)))
        } else {
            g.push((t, m, seq![input]))
        }
    }
}

/// The number of files of all groups.
pub open spec fn total_files(g: Seq<Group>) -> nat
    decreases g.len(),
{
    if g.len() == 0 {
        0
    } else {
        total_files(g.drop_last()) + g.last().2.len()
    }
}

/// The views of failures.
pub open spec fn failure_views(fs: Seq<Failure>) -> Seq<(Seq<char>, Seq<char>, Seq<char>)> {
    fs.map_values(|f: Failure| (f.0@, f.1@, f.2@))
}

/// The view of a group of failures.
pub open spec fn detail_view(d: ErrorDetail) -> Group {
    (d.error_type@, d.message@, d.affected_files@.map_values(|s: String| s@))
}

proof fn lemma_group_index(g: Seq<Group>, t: Seq<char>, m: Seq<char>)
    ensures
        -1 <= group_index(g, t, m) < g.len(),
        group_index(g, t, m) >= 0 ==> g[group_index(g, t, m)].0 == t && g[group_index(g, t, m)].1 == m,
        group_index(g, t, m) < 0 ==> forall|k: int| 0 <= k < g.len() ==> !(#[trigger] g[k].0 == t && g[k].1 == m),
    decreases g.len(),
{
    if g.len() > 0 {
        lemma_group_index(g.drop_last(), t, m);
        if group_index(g, t, m) < 0 {
            assert forall|k: int| 0 <= k < g.len() implies !(#[trigger] g[k].0 == t && g[k].1 == m) by {
                if k < g.len() - 1 {
                    assert(g.drop_last()[k] == g[k]);
                }
            }
        }
    }
}

proof fn lemma_total_update(g: Seq<Group>, i: int, x: Group)
    requires
        0 <= i < g.len(),
    ensures
        total_files(g.update(i, x)) == total_files(g) - g[i].2.len() + x.2.len(),
    decreases g.len(),
{
    if i < g.len() - 1 {
        assert(g.update(i, x).drop_last() == g.drop_last().update(i, x));
        lemma_total_update(g.drop_last(), i, x);
    } else {
        assert(g.update(i, x).drop_last() == g.drop_last());
    }
}

/// Law: grouping loses and invents no failure: the groups hold as many
/// files as there were failures, and every group holds at least one.
pub proof fn lemma_grouping_counts(fs: Seq<(Seq<char>, Seq<char>, Seq<char>)>)
    ensures
        total_files(grouped(fs)) == fs.len(),
        forall|k: int| 0 <= k < grouped(fs).len() ==> (#[trigger] grouped(fs)[k]).2.len() >= 1,
    decreases fs.len(),
{
    if fs.len() > 0 {
        lemma_grouping_counts(fs.drop_last());
        let g = grouped(fs.drop_last());
        let (input, t, m) = fs.last();
        lemma_group_index(g, t, m);
        let i = group_index(g, t, m);
        if i >= 0 {
            lemma_total_update(g, i, (t, m, g[i].2.push(input)));
        } else {
            assert(g.push((t, m, seq![input])).drop_last() == g);
        }
    }
}

/// Law: no two groups share a kind and a message.
pub proof fn lemma_groups_distinct(fs: Seq<(Seq<char>, Seq<char>, Seq<char>)>)
    ensures
        forall|a: int, b: int| 0 <= a < b < grouped(fs).len() ==>
            !(#[trigger] grouped(fs)[a].0 == #[trigger] grouped(fs)[b].0 && grouped(fs)[a].1 == grouped(fs)[b].1),
    decreases fs.len(),
{
    if fs.len() > 0 {
        lemma_groups_distinct(fs.drop_last());
        let g = grouped(fs.drop_last());
        let (input, t, m) = fs.last();
        lemma_group_index(g, t, m);
    }
}

/// The failures grouped by kind and message: one detail per kind and
/// message, in the order of first occurrence, listing the files in order
/// and counting them.
pub fn group_errors(failures: &[Failure]) -> (r: Vec<ErrorDetail>)
    ensures
        r@.map_values(|d: ErrorDetail| detail_view(d)) == grouped(failure_views(failures@)),
        forall|k: int| 0 <= k < r@.len() ==> (#[trigger] r@[k]).occurrence_count == r@[k].affected_files@.len(),
{
    let ghost fv = failure_views(failures@);
    let mut r: Vec<ErrorDetail> = Vec::new();
    let mut i: usize = 0;
    while i < failures.len()
        invariant
            i <= failures@.len(),
            fv == failure_views(failures@),
            r@.map_values(|d: ErrorDetail| detail_view(d)) == grouped(fv.take(i as int)),
            forall|k: int| 0 <= k < r@.len() ==> (#[trigger] r@[k]).occurrence_count == r@[k].affected_files@.len(),
            r@.len() <= i,
            forall|k: int| 0 <= k < r@.len() ==> (#[trigger] r@[k]).affected_files@.len() <= i,
        decreases failures.len() - i,
    {
        let ghost g = grouped(fv.take(i as int));
        assert(fv.take(i + 1).drop_last() == fv.take(i as int));
        assert(fv.take(i + 1).last() == fv[i as int]);
        let (input, t, m) = &failures[i];
        let tc = chars_of(t.as_str());
        let mc = chars_of(m.as_str());
        proof { lemma_group_index(g, t@, m@); }
        let mut j: usize = 0;
        let mut found: Option<usize> = None;
        while j < r.len()
            invariant
                j <= r@.len(),
                r@.map_values(|d: ErrorDetail| detail_view(d)) == g,
                tc@ == t@,
                mc@ == m@,
                found matches Some(x) ==> x < j && g[x as int].0 == t@ && g[x as int].1 == m@
                    && forall|k: int| x < k < j ==> !(#[trigger] g[k].0 == t@ && g[k].1 == m@),
                found is None ==> forall|k: int| 0 <= k < j ==> !(#[trigger] g[k].0 == t@ && g[k].1 == m@),
            decreases r.len() - j,
        {
            assert(g[j as int] == detail_view(r@[j as int]));
            if chars_eq(&chars_of(r[j].error_type.as_str()), &tc) && chars_eq(&chars_of(r[j].message.as_str()), &mc) {
                found = Some(j);
            }
            j = j + 1;
        }
        proof {
            if let Some(x) = found {
                assert(group_index(g, t@, m@) == x) by {
                    lemma_last_match(g, t@, m@, x as int);
                }
            }
        }
        match found {
            Some(x) => {
                let ghost before = r@;
                let mut d = r.remove(x);
                assert(d == before[x as int]);
                assert(detail_view(d) == g[x as int]);
                let ghost files_before = d.affected_files@;
                d.affected_files.push(input.clone());
                assert(d.affected_files@.map_values(|s: String| s@) =~= files_before.map_values(|s: String| s@).push(
                    input@));
                d.occurrence_count = d.occurrence_count + 1;
                assert(detail_view(d) == (t@, m@, g[x as int].2.push(input@)));
                r.insert(x, d);
                assert(r@ =~= before.update(x as int, d));
                assert(r@.map_values(|d: ErrorDetail| detail_view(d)) =~= g.update(x as int,
                    (t@, m@, g[x as int].2.push(input@))));
            },
            None => {
                let mut files: Vec<String> = Vec::new();
                files.push(input.clone());
                assert(files@.map_values(|s: String| s@) =~= seq![input@]);
                r.push(ErrorDetail { error_type: t.clone(), message: m.clone(), affected_files: files,
                    occurrence_count: 1 });
                assert(r@.map_values(|d: ErrorDetail| detail_view(d)) =~= g.push((t@, m@, seq![input@])));
            },
        }
        i = i + 1;
    }
    assert(fv.take(failures@.len() as int) == fv);
    r
}

/// The group found last among equals is the one `group_index` names.
proof fn lemma_last_match(g: Seq<Group>, t: Seq<char>, m: Seq<char>, x: int)
    requires
        0 <= x < g.len(),
        g[x].0 == t && g[x].1 == m,
        forall|k: int| x < k < g.len() ==> !(#[trigger] g[k].0 == t && g[k].1 == m),
    ensures
        group_index(g, t, m) == x,
    decreases g.len(),
{
    if x < g.len() - 1 {
        lemma_last_match(g.drop_last(), t, m, x);
    }
}

/// The number of entries of `s` equal to `st`.
pub open spec fn count_of(s: Seq<ConversionStatus>, st: ConversionStatus) -> nat
    decreases s.len(),
{
    if s.len() == 0 {
        0
    } else {
        count_of(s.drop_last(), st) + if s.last() == st { 1nat } else { 0nat }
    }
}

/// How many files ended in each status.
#[derive(Debug, Clone, Copy, PartialEq, Eq, Structural)]
pub struct StatusCounts {
    pub total_files: usize,
    pub successful_conversions: usize,
    pub failed_conversions: usize,
    pub skipped_conversions: usize,
}

/// The counts of the statuses `s`.
pub open spec fn counts_of(s: Seq<ConversionStatus>) -> (nat, nat, nat, nat) {
    (
        s.len(),
        count_of(s, ConversionStatus::Success),
        count_of(s, ConversionStatus::Failed),
        count_of(s, ConversionStatus::Skipped),
    )
}

/// Law: every file is counted under exactly one status.
pub proof fn lemma_counts_partition(s: Seq<ConversionStatus>)
    ensures
        count_of(s, ConversionStatus::Success) + count_of(s, ConversionStatus::Failed) + count_of(
            s,
            ConversionStatus::Skipped,
        ) == s.len(),
    decreases s.len(),
{
    if s.len() > 0 {
        lemma_counts_partition(s.drop_last());
    }
}

/// Counts the files of each status.
pub fn count_statuses(statuses: &[ConversionStatus]) -> (r: StatusCounts)
    ensures
        (r.total_files as nat, r.successful_conversions as nat, r.failed_conversions as nat,
            r.skipped_conversions as nat) == counts_of(statuses@),
{
    let mut ok: usize = 0;
    let mut failed: usize = 0;
    let mut skipped: usize = 0;
    let mut i: usize = 0;
    while i < statuses.len()
        invariant
            i <= statuses@.len(),
            ok == count_of(statuses@.take(i as int), ConversionStatus::Success),
            failed == count_of(statuses@.take(i as int), ConversionStatus::Failed),
            skipped == count_of(statuses@.take(i as int), ConversionStatus::Skipped),
            ok + failed + skipped == i,
        decreases statuses.len() - i,
    {
        proof {
            assert(statuses@.take(i + 1).drop_last() == statuses@.take(i as int));
            lemma_counts_partition(statuses@.take(i as int));
        }
        match statuses[i] {
            ConversionStatus::Success => ok = ok + 1,
            ConversionStatus::Failed => failed = failed + 1,
            ConversionStatus::Skipped => skipped = skipped + 1,
        }
        i = i + 1;
    }
    assert(statuses@.take(i as int) == statuses@);
    StatusCounts { total_files: i, successful_conversions: ok, failed_conversions: failed, skipped_conversions: skipped }
}

/// The success rate as a fraction (numerator, denominator): successes
/// among the files that were tried; with none tried, 1 when some were
/// skipped and 0 otherwise.
pub open spec fn success_fraction(c: StatusCounts) -> (nat, nat) {
    let attempted = c.successful_conversions + c.failed_conversions;
    if attempted == 0 {
        if c.skipped_conversions > 0 { (1, 1) } else { (0, 1) }
    } else {
        (c.successful_conversions as nat, attempted as nat)
    }
}

/// The success rate of `c` as a fraction (numerator, denominator).
pub fn success_rate(c: &StatusCounts) -> (r: (usize, usize))
    requires
        c.successful_conversions + c.failed_conversions <= usize::MAX,
    ensures
        (r.0 as nat, r.1 as nat) == success_fraction(*c),
        r.1 > 0,
        r.0 <= r.1,
{
    let attempted = c.successful_conversions + c.failed_conversions;
    if attempted == 0 {
        if c.skipped_conversions > 0 { (1, 1) } else { (0, 1) }
    } else {
        (c.successful_conversions, attempted)
    }
}

/// Details ordered by message.
pub open spec fn sorted_by_message(v: Seq<ErrorDetail>) -> bool {
    forall|a: int, b: int| 0 <= a < b < v.len() ==> !text_less((#[trigger] v[b]).message@, (#[trigger] v[a]).message@)
}

/// Orders error details by message; details with equal messages keep
/// their order.
pub fn sort_by_message(details: Vec<ErrorDetail>) -> (r: Vec<ErrorDetail>)
    ensures
        sorted_by_message(r@),
        r@.to_multiset() == details@.to_multiset(),
{
    broadcast use vstd::seq_lib::group_to_multiset_ensures;
    let mut r: Vec<ErrorDetail> = Vec::new();
    let mut rest = details;
    while rest.len() > 0
        invariant
            sorted_by_message(r@),
            r@.to_multiset().add(rest@.to_multiset()) == details@.to_multiset(),
        decreases rest.len(),
    {
        let ghost rest0 = rest@;
        let x = rest.remove(0);
        assert(rest0.remove(0) == rest@);
        proof { rest0.to_multiset_ensures(); }
        assert(rest0[0] == x);
        assert(rest0.contains(x));
        assert(rest0.to_multiset().count(x) > 0);
        let xm = chars_of(x.message.as_str());
        let mut j: usize = 0;
        while j < r.len() && !text_less_exec(&xm, &chars_of(r[j].message.as_str()))
            invariant
                j <= r@.len(),
                xm@ == x.message@,
                forall|k: int| 0 <= k < j ==> !text_less(xm@, (#[trigger] r@[k]).message@),
            decreases r.len() - j,
        {
            j = j + 1;
        }
        let ghost r0 = r@;
        proof { lemma_insert_sorted(r0, j as int, x); }
        r.insert(j, x);
        proof {
            assert(r@ == r0.insert(j as int, x));
            lemma_insert_multiset(r0, j as int, x);
            assert(rest0.to_multiset() =~= rest@.to_multiset().insert(x));
            assert(r@.to_multiset().add(rest@.to_multiset()) =~= r0.to_multiset().add(rest0.to_multiset()));
        }
    }
    assert(rest@.to_multiset() =~= Multiset::empty());
    assert(r@.to_multiset().add(Multiset::empty()) =~= r@.to_multiset());
    r
}

/// Inserting where every earlier message is not after `x` and the message
/// at `j` is after it keeps the order.
proof fn lemma_insert_sorted(v: Seq<ErrorDetail>, j: int, x: ErrorDetail)
    requires
        0 <= j <= v.len(),
        sorted_by_message(v),
        forall|k: int| 0 <= k < j ==> !text_less(x.message@, (#[trigger] v[k]).message@),
        j < v.len() ==> text_less(x.message@, v[j].message@),
    ensures
        sorted_by_message(v.insert(j, x)),
{
    let w = v.insert(j, x);
    assert forall|a: int, b: int| 0 <= a < b < w.len() implies !text_less((#[trigger] w[b]).message@,
        (#[trigger] w[a]).message@) by {
        if a < j && b == j {
            lemma_text_less_total(x.message@, v[a].message@);
        } else if a == j && b > j {
            // v[b - 1] is not before v[j], which comes after x.
            lemma_text_less_total(v[j].message@, v[b - 1].message@);
            if text_less(v[b - 1].message@, x.message@) {
                if v[j].message@ == v[b - 1].message@ {
                    lemma_text_less_total(x.message@, v[j].message@);
                } else {
                    lemma_text_less_transitive(v[j].message@, v[b - 1].message@, x.message@);
                    lemma_text_less_total(x.message@, v[j].message@);
                }
            }
        } else if a < j && b > j {
            assert(w[a] == v[a] && w[b] == v[b - 1]);
        } else if b < j {
            assert(w[a] == v[a] && w[b] == v[b]);
        } else {
            assert(w[a] == v[a - 1] && w[b] == v[b - 1]);
        }
    }
}

/// Inserting an element adds it to the multiset of elements.
proof fn lemma_insert_multiset<A>(v: Seq<A>, j: int, x: A)
    requires
        0 <= j <= v.len(),
    ensures
        v.insert(j, x).to_multiset() == v.to_multiset().insert(x),
{
    broadcast use vstd::seq_lib::group_to_multiset_ensures;
    let w = v.insert(j, x);
    w.to_multiset_ensures();
    assert(w.remove(j) =~= v);
    assert(w[j] == x);
    assert(w.to_multiset().remove(x) == v.to_multiset());
    assert(w.to_multiset().count(x) > 0);
    assert(w.to_multiset() =~= v.to_multiset().insert(x));
}

/// The outcome of converting one file. Durations are given as the text the
/// report shows: seconds with two decimals.
#[derive(Debug, Clone)]
pub struct FileConversionResult {
    pub input_file: String,
    pub output_file: Option<String>,
    pub status: ConversionStatus,
    pub duration_text: String,
    pub chapter_count: Option<usize>,
    pub file_size_bytes: u64,
    pub error_message: Option<String>,
}

/// The totals of a batch. Times are seconds with two decimals and the
/// success rate is a percentage with one decimal, as the report shows them.
#[derive(Debug, Clone)]
pub struct ConversionSummary {
    pub total_files: usize,
    pub successful_conversions: usize,
    pub failed_conversions: usize,
    pub total_duration_text: String,
    pub average_duration_text: String,
    pub success_rate_text: String,
}

/// A batch report: when it was made, the totals, every file, and the
/// failures grouped.
#[derive(Debug, Clone)]
pub struct BatchReport {
    pub timestamp: String,
    pub summary: ConversionSummary,
    pub files: Vec<FileConversionResult>,
    pub errors: Vec<ErrorDetail>,
}

/// The name of a status as the Markdown report writes it.
pub open spec fn status_name(s: ConversionStatus) -> Seq<char> {
    match s {
        ConversionStatus::Success => "Success"@,
        ConversionStatus::Failed => "Failed"@,
        ConversionStatus::Skipped => "Skipped"@,
    }
}

/// The name of a status in lower case, as the HTML report writes it and
/// uses as a class.
pub open spec fn status_class(s: ConversionStatus) -> Seq<char> {
    match s {
        ConversionStatus::Success => "success"@,
        ConversionStatus::Failed => "failed"@,
        ConversionStatus::Skipped => "skipped"@,
    }
}

/// `prefix`, the text and a line break when there is a text.
pub open spec fn optional_line(prefix: Seq<char>, v: Option<String>) -> Seq<char> {
    match v {
        Some(t) => prefix + t@ + "\n"@,
        None => Seq::empty(),
    }
}

/// The Markdown entry of the `n`-th file (from 1).
pub open spec fn markdown_file(n: nat, f: FileConversionResult) -> Seq<char> {
    dec(n) + ". "@ + f.input_file@ + "\n\n"@
        + "   - Status: "@ + status_name(f.status) + "\n"@
        + optional_line("   - Output: "@, f.output_file)
        + "   - Duration: "@ + f.duration_text@ + " seconds\n"@
        + (match f.chapter_count {
            Some(c) => "   - Chapters: "@ + dec(c as nat) + "\n"@,
            None => Seq::<char>::empty(),
        })
        + "   - Size: "@ + dec(f.file_size_bytes as nat) + " bytes\n"@
        + optional_line("   - Error: "@, f.error_message)
        + "\n"@
}

/// The Markdown entries of `files`, numbered from 1.
pub open spec fn markdown_files(files: Seq<FileConversionResult>) -> Seq<char>
    decreases files.len(),
{
    if files.len() == 0 {
        Seq::empty()
    } else {
        markdown_files(files.drop_last()) + markdown_file(files.len(), files.last())
    }
}

/// A list of files, one line each, every line `prefix`, file, `suffix`.
pub open spec fn file_lines(files: Seq<String>, prefix: Seq<char>, suffix: Seq<char>) -> Seq<char>
    decreases files.len(),
{
    if files.len() == 0 {
        Seq::empty()
    } else {
        file_lines(files.drop_last(), prefix, suffix) + prefix + files.last()@ + suffix
    }
}

/// The Markdown entry of the `n`-th error group (from 1).
pub open spec fn markdown_error(n: nat, e: ErrorDetail) -> Seq<char> {
    "### "@ + dec(n) + ". "@ + e.error_type@ + "\n\n"@
        + "**Message**: "@ + e.message@ + "\n\n"@
        + "**Occurrences**: "@ + dec(e.occurrence_count as nat) + "\n\n"@
        + "**Affected files**:\n\n"@
        + file_lines(e.affected_files@, "- "@, "\n"@)
        + "\n"@
}

/// The Markdown entries of `errors`, numbered from 1.
pub open spec fn markdown_errors(errors: Seq<ErrorDetail>) -> Seq<char>
    decreases errors.len(),
{
    if errors.len() == 0 {
        Seq::empty()
    } else {
        markdown_errors(errors.drop_last()) + markdown_error(errors.len(), errors.last())
    }
}

/// The Markdown report of `r`.
pub open spec fn markdown_report(r: BatchReport) -> Seq<char> {
    "# Batch Conversion Report\n\n"@
        + "Generated at: "@ + r.timestamp@ + "\n\n"@
        + "## Summary\n\n"@
        + "- Total files: "@ + dec(r.summary.total_files as nat) + "\n"@
        + "- Successful conversions: "@ + dec(r.summary.successful_conversions as nat) + "\n"@
        + "- Failed conversions: "@ + dec(r.summary.failed_conversions as nat) + "\n"@
        + "- Total duration: "@ + r.summary.total_duration_text@ + " seconds\n"@
        + "- Average duration: "@ + r.summary.average_duration_text@ + " seconds\n"@
        + "- Success rate: "@ + r.summary.success_rate_text@ + "%\n\n"@
        + "## File Details\n\n"@
        + markdown_files(r.files@)
        + (if r.errors@.len() == 0 {
            Seq::<char>::empty()
        } else {
            "## Error Details\n\n"@ + markdown_errors(r.errors@)
        })
}

/// Appends the decimal digits of `n`.
fn push_number(out: &mut String, n: u64)
    ensures
        final(out)@ == old(out)@ + dec(n as nat),
{
    let d = decimal(n);
    push_chars(out, &d);
}

/// Appends `prefix`, the text and a line break when there is a text.
fn push_optional_line(out: &mut String, prefix: &str, v: &Option<String>)
    ensures
        final(out)@ == old(out)@ + optional_line(prefix@, *v),
{
    if let Some(t) = v {
        push_str(out, prefix);
        push_str(out, t.as_str());
        push_str(out, "\n");
    } else {
        assert(old(out)@ + optional_line(prefix@, *v) == old(out)@);
    }
}

/// Appends one line per file.
fn push_file_lines(out: &mut String, files: &Vec<String>, prefix: &str, suffix: &str)
    ensures
        final(out)@ == old(out)@ + file_lines(files@, prefix@, suffix@),
{
    let mut i: usize = 0;
    while i < files.len()
        invariant
            i <= files@.len(),
            out@ == old(out)@ + file_lines(files@.take(i as int), prefix@, suffix@),
        decreases files.len() - i,
    {
        let ghost before = out@;
        push_str(out, prefix);
        push_str(out, files[i].as_str());
        push_str(out, suffix);
        proof {
            assert(files@.take(i + 1).drop_last() == files@.take(i as int));
            assert(out@ =~= before + prefix@ + files@[i as int]@ + suffix@);
        }
        i = i + 1;
    }
    assert(files@.take(i as int) == files@);
}

/// Appends the Markdown entry of file `f`, numbered `n`.
fn push_markdown_file(md: &mut String, n: u64, f: &FileConversionResult)
    ensures
        final(md)@ == old(md)@ + markdown_file(n as nat, *f),
{
    let mut e = String::new();
    push_number(&mut e, n);
    assert(e@ =~= dec(n as nat));
    push_str(&mut e, ". ");
    push_str(&mut e, f.input_file.as_str());
    push_str(&mut e, "\n\n");
    push_str(&mut e, "   - Status: ");
    match f.status {
        ConversionStatus::Success => push_str(&mut e, "Success"),
        ConversionStatus::Failed => push_str(&mut e, "Failed"),
        ConversionStatus::Skipped => push_str(&mut e, "Skipped"),
    }
    push_str(&mut e, "\n");
    push_optional_line(&mut e, "   - Output: ", &f.output_file);
    push_str(&mut e, "   - Duration: ");
    push_str(&mut e, f.duration_text.as_str());
    push_str(&mut e, " seconds\n");
    let ghost mid = e@;
    if let Some(c) = f.chapter_count {
        push_str(&mut e, "   - Chapters: ");
        push_number(&mut e, c as u64);
        push_str(&mut e, "\n");
    }
    assert(e@ =~= mid + (match f.chapter_count {
        Some(c) => "   - Chapters: "@ + dec(c as nat) + "\n"@,
        None => Seq::<char>::empty(),
    }));
    push_str(&mut e, "   - Size: ");
    push_number(&mut e, f.file_size_bytes);
    push_str(&mut e, " bytes\n");
    push_optional_line(&mut e, "   - Error: ", &f.error_message);
    push_str(&mut e, "\n");
    push_str(md, e.as_str());
}

/// Appends the Markdown entry of error group `e`, numbered `n`.
fn push_markdown_error(md: &mut String, n: u64, e: &ErrorDetail)
    ensures
        final(md)@ == old(md)@ + markdown_error(n as nat, *e),
{
    let mut t = String::new();
    push_str(&mut t, "### ");
    assert(t@ =~= "### "@);
    push_number(&mut t, n);
    push_str(&mut t, ". ");
    push_str(&mut t, e.error_type.as_str());
    push_str(&mut t, "\n\n");
    push_str(&mut t, "**Message**: ");
    push_str(&mut t, e.message.as_str());
    push_str(&mut t, "\n\n");
    push_str(&mut t, "**Occurrences**: ");
    push_number(&mut t, e.occurrence_count as u64);
    push_str(&mut t, "\n\n");
    push_str(&mut t, "**Affected files**:\n\n");
    push_file_lines(&mut t, &e.affected_files, "- ", "\n");
    push_str(&mut t, "\n");
    push_str(md, t.as_str());
}

impl ReportGenerator {
    /// The Markdown report of `report`.
    pub fn generate_markdown(&self, report: &BatchReport) -> (r: String)
        ensures
            r@ == markdown_report(*report),
    {
        let mut md = String::new();
        push_str(&mut md, "# Batch Conversion Report\n\n");
        assert(md@ =~= "# Batch Conversion Report\n\n"@);
        push_str(&mut md, "Generated at: ");
        push_str(&mut md, report.timestamp.as_str());
        push_str(&mut md, "\n\n");
        push_str(&mut md, "## Summary\n\n");
        push_str(&mut md, "- Total files: ");
        push_number(&mut md, report.summary.total_files as u64);
        push_str(&mut md, "\n");
        push_str(&mut md, "- Successful conversions: ");
        push_number(&mut md, report.summary.successful_conversions as u64);
        push_str(&mut md, "\n");
        push_str(&mut md, "- Failed conversions: ");
        push_number(&mut md, report.summary.failed_conversions as u64);
        push_str(&mut md, "\n");
        push_str(&mut md, "- Total duration: ");
        push_str(&mut md, report.summary.total_duration_text.as_str());
        push_str(&mut md, " seconds\n");
        push_str(&mut md, "- Average duration: ");
        push_str(&mut md, report.summary.average_duration_text.as_str());
        push_str(&mut md, " seconds\n");
        push_str(&mut md, "- Success rate: ");
        push_str(&mut md, report.summary.success_rate_text.as_str());
        push_str(&mut md, "%\n\n");
        push_str(&mut md, "## File Details\n\n");
        let ghost head = md@;
        let mut i: usize = 0;
        while i < report.files.len()
            invariant
                i <= report.files@.len(),
                md@ == head + markdown_files(report.files@.take(i as int)),
            decreases report.files.len() - i,
        {
            let ghost before = md@;
            push_markdown_file(&mut md, (i + 1) as u64, &report.files[i]);
            proof {
                assert(report.files@.take(i + 1).drop_last() == report.files@.take(i as int));
            }
            i = i + 1;
        }
        assert(report.files@.take(i as int) == report.files@);
        if report.errors.len() > 0 {
            push_str(&mut md, "## Error Details\n\n");
            let ghost head2 = md@;
            let mut k: usize = 0;
            while k < report.errors.len()
                invariant
                    k <= report.errors@.len(),
                    md@ == head2 + markdown_errors(report.errors@.take(k as int)),
                decreases report.errors.len() - k,
            {
                push_markdown_error(&mut md, (k + 1) as u64, &report.errors[k]);
                proof {
                    assert(report.errors@.take(k + 1).drop_last() == report.errors@.take(k as int));
                }
                k = k + 1;
            }
            assert(report.errors@.take(k as int) == report.errors@);
        }
        assert(md@ =~= markdown_report(*report));
        md
    }
}

/// The head of an HTML report, up to the opening of its body.
pub const HTML_REPORT_HEAD: &'static str = "<!DOCTYPE html>\n<html lang=\"en\">\n<head>\n<meta charset=\"UTF-8\">\n<title>Batch Conversion Report</title>\n<style>\nbody { font-family: Arial, sans-serif; line-height: 1.6; margin: 20px; }\nh1 { color: #333; }\nh2 { color: #555; border-bottom: 2px solid #eee; padding-bottom: 10px; }\ntable { border-collapse: collapse; width: 100%; margin-bottom: 20px; }\nth, td { border: 1px solid #ddd; padding: 8px; text-align: left; }\nth { background-color: #f2f2f2; }\n.success { color: #28a745; }\n.failed { color: #dc3545; }\n.skipped { color: #ffc107; }\n</style>\n</head>\n<body>\n";

/// The HTML table row of the `n`-th file (from 1).
pub open spec fn html_file_row(n: nat, f: FileConversionResult) -> Seq<char> {
    "<tr><td>"@ + dec(n) + "</td><td>"@ + f.input_file@ + "</td><td>"@
        + (match f.output_file { Some(o) => o@, None => Seq::<char>::empty() })
        + "</td><td class=\""@ + status_class(f.status) + "\">"@ + status_class(f.status) + "</td><td>"@
        + f.duration_text@ + "s</td><td>"@
        + (match f.chapter_count { Some(c) => dec(c as nat), None => Seq::<char>::empty() })
        + "</td><td>"@ + dec(f.file_size_bytes as nat) + "</td></tr>\n"@
}

/// The HTML rows of `files`, numbered from 1.
pub open spec fn html_file_rows(files: Seq<FileConversionResult>) -> Seq<char>
    decreases files.len(),
{
    if files.len() == 0 {
        Seq::empty()
    } else {
        html_file_rows(files.drop_last()) + html_file_row(files.len(), files.last())
    }
}

/// The HTML section of the `n`-th error group (from 1).
pub open spec fn html_error(n: nat, e: ErrorDetail) -> Seq<char> {
    "<h3>"@ + dec(n) + ". "@ + e.error_type@ + "</h3>\n"@
        + "<p><strong>Message:</strong> "@ + e.message@ + "</p>\n"@
        + "<p><strong>Occurrences:</strong> "@ + dec(e.occurrence_count as nat) + "</p>\n"@
        + "<p><strong>Affected files:</strong></p>\n"@
        + "<ul>\n"@
        + file_lines(e.affected_files@, "<li>"@, "</li>\n"@)
        + "</ul>\n"@
}

/// The HTML sections of `errors`, numbered from 1.
pub open spec fn html_errors(errors: Seq<ErrorDetail>) -> Seq<char>
    decreases errors.len(),
{
    if errors.len() == 0 {
        Seq::empty()
    } else {
        html_errors(errors.drop_last()) + html_error(errors.len(), errors.last())
    }
}

/// The HTML summary table of `r`.
pub open spec fn html_summary(r: BatchReport) -> Seq<char> {
    "<h2>Summary</h2>\n"@ + "<table>\n"@ + "<tr><th>Metric</th><th>Value</th></tr>\n"@
        + "<tr><td>Total files</td><td>"@ + dec(r.summary.total_files as nat) + "</td></tr>\n"@
        + "<tr><td>Successful conversions</td><td class=\"success\">"@
        + dec(r.summary.successful_conversions as nat) + "</td></tr>\n"@
        + "<tr><td>Failed conversions</td><td class=\"failed\">"@
        + dec(r.summary.failed_conversions as nat) + "</td></tr>\n"@
        + "<tr><td>Total duration</td><td>"@ + r.summary.total_duration_text@ + " seconds</td></tr>\n"@
        + "<tr><td>Average duration</td><td>"@ + r.summary.average_duration_text@ + " seconds</td></tr>\n"@
        + "<tr><td>Success rate</td><td>"@ + r.summary.success_rate_text@ + "%</td></tr>\n"@
        + "</table>\n"@
}

/// The HTML report of `r`.
pub open spec fn html_report(r: BatchReport) -> Seq<char> {
    HTML_REPORT_HEAD@ + "<h1>Batch Conversion Report</h1>\n"@
        + "<p><strong>Generated at:</strong> "@ + r.timestamp@ + "</p>\n"@
        + html_summary(r)
        + "<h2>File Details</h2>\n"@ + "<table>\n"@
        + "<tr><th>#</th><th>Input file</th><th>Output file</th><th>Status</th><th>Duration</th><th>Chapters</th><th>Size</th></tr>\n"@
        + html_file_rows(r.files@) + "</table>\n"@
        + (if r.errors@.len() == 0 {
            Seq::<char>::empty()
        } else {
            "<h2>Error Details</h2>\n"@ + html_errors(r.errors@)
        })
        + "</body>\n"@ + "</html>\n"@
}

/// Appends the HTML row of file `f`, numbered `n`.
fn push_html_file_row(out: &mut String, n: u64, f: &FileConversionResult)
    ensures
        final(out)@ == old(out)@ + html_file_row(n as nat, *f),
{
    let mut t = String::new();
    push_str(&mut t, "<tr><td>");
    assert(t@ =~= "<tr><td>"@);
    push_number(&mut t, n);
    push_str(&mut t, "</td><td>");
    push_str(&mut t, f.input_file.as_str());
    push_str(&mut t, "</td><td>");
    let ghost a = t@;
    if let Some(o) = &f.output_file {
        push_str(&mut t, o.as_str());
    }
    assert(t@ =~= a + (match f.output_file { Some(o) => o@, None => Seq::<char>::empty() }));
    push_str(&mut t, "</td><td class=\"");
    let class = match f.status {
        ConversionStatus::Success => "success",
        ConversionStatus::Failed => "failed",
        ConversionStatus::Skipped => "skipped",
    };
    assert(class@ == status_class(f.status));
    push_str(&mut t, class);
    push_str(&mut t, "\">");
    push_str(&mut t, class);
    push_str(&mut t, "</td><td>");
    push_str(&mut t, f.duration_text.as_str());
    push_str(&mut t, "s</td><td>");
    let ghost b = t@;
    if let Some(c) = f.chapter_count {
        push_number(&mut t, c as u64);
    }
    assert(t@ =~= b + (match f.chapter_count { Some(c) => dec(c as nat), None => Seq::<char>::empty() }));
    push_str(&mut t, "</td><td>");
    push_number(&mut t, f.file_size_bytes);
    push_str(&mut t, "</td></tr>\n");
    push_str(out, t.as_str());
}

/// Appends the HTML section of error group `e`, numbered `n`.
fn push_html_error(out: &mut String, n: u64, e: &ErrorDetail)
    ensures
        final(out)@ == old(out)@ + html_error(n as nat, *e),
{
    let mut t = String::new();
    push_str(&mut t, "<h3>");
    assert(t@ =~= "<h3>"@);
    push_number(&mut t, n);
    push_str(&mut t, ". ");
    push_str(&mut t, e.error_type.as_str());
    push_str(&mut t, "</h3>\n");
    push_str(&mut t, "<p><strong>Message:</strong> ");
    push_str(&mut t, e.message.as_str());
    push_str(&mut t, "</p>\n");
    push_str(&mut t, "<p><strong>Occurrences:</strong> ");
    push_number(&mut t, e.occurrence_count as u64);
    push_str(&mut t, "</p>\n");
    push_str(&mut t, "<p><strong>Affected files:</strong></p>\n");
    push_str(&mut t, "<ul>\n");
    push_file_lines(&mut t, &e.affected_files, "<li>", "</li>\n");
    push_str(&mut t, "</ul>\n");
    push_str(out, t.as_str());
}

/// Appends the HTML summary table of `report`.
fn push_html_summary(out: &mut String, report: &BatchReport)
    ensures
        final(out)@ == old(out)@ + html_summary(*report),
{
    let mut t = String::new();
    push_str(&mut t, "<h2>Summary</h2>\n");
    assert(t@ =~= "<h2>Summary</h2>\n"@);
    push_str(&mut t, "<table>\n");
    push_str(&mut t, "<tr><th>Metric</th><th>Value</th></tr>\n");
    push_str(&mut t, "<tr><td>Total files</td><td>");
    push_number(&mut t, report.summary.total_files as u64);
    push_str(&mut t, "</td></tr>\n");
    push_str(&mut t, "<tr><td>Successful conversions</td><td class=\"success\">");
    push_number(&mut t, report.summary.successful_conversions as u64);
    push_str(&mut t, "</td></tr>\n");
    push_str(&mut t, "<tr><td>Failed conversions</td><td class=\"failed\">");
    push_number(&mut t, report.summary.failed_conversions as u64);
    push_str(&mut t, "</td></tr>\n");
    push_str(&mut t, "<tr><td>Total duration</td><td>");
    push_str(&mut t, report.summary.total_duration_text.as_str());
    push_str(&mut t, " seconds</td></tr>\n");
    push_str(&mut t, "<tr><td>Average duration</td><td>");
    push_str(&mut t, report.summary.average_duration_text.as_str());
    push_str(&mut t, " seconds</td></tr>\n");
    push_str(&mut t, "<tr><td>Success rate</td><td>");
    push_str(&mut t, report.summary.success_rate_text.as_str());
    push_str(&mut t, "%</td></tr>\n");
    push_str(&mut t, "</table>\n");
    push_str(out, t.as_str());
}

impl ReportGenerator {
    /// The HTML report of `report`.
    pub fn generate_html(&self, report: &BatchReport) -> (r: String)
        ensures
            r@ == html_report(*report),
    {
        let mut html = String::new();
        push_str(&mut html, HTML_REPORT_HEAD);
        assert(html@ =~= HTML_REPORT_HEAD@);
        push_str(&mut html, "<h1>Batch Conversion Report</h1>\n");
        push_str(&mut html, "<p><strong>Generated at:</strong> ");
        push_str(&mut html, report.timestamp.as_str());
        push_str(&mut html, "</p>\n");
        push_html_summary(&mut html, report);
        push_str(&mut html, "<h2>File Details</h2>\n");
        push_str(&mut html, "<table>\n");
        push_str(&mut html, "<tr><th>#</th><th>Input file</th><th>Output file</th><th>Status</th><th>Duration</th><th>Chapters</th><th>Size</th></tr>\n");
        let ghost head = html@;
        let mut i: usize = 0;
        while i < report.files.len()
            invariant
                i <= report.files@.len(),
                html@ == head + html_file_rows(report.files@.take(i as int)),
            decreases report.files.len() - i,
        {
            push_html_file_row(&mut html, (i + 1) as u64, &report.files[i]);
            assert(report.files@.take(i + 1).drop_last() == report.files@.take(i as int));
            i = i + 1;
        }
        assert(report.files@.take(i as int) == report.files@);
        push_str(&mut html, "</table>\n");
        let ghost mid = html@;
        if report.errors.len() > 0 {
            push_str(&mut html, "<h2>Error Details</h2>\n");
            let ghost head2 = html@;
            let mut k: usize = 0;
            while k < report.errors.len()
                invariant
                    k <= report.errors@.len(),
                    html@ == head2 + html_errors(report.errors@.take(k as int)),
                decreases report.errors.len() - k,
            {
                push_html_error(&mut html, (k + 1) as u64, &report.errors[k]);
                assert(report.errors@.take(k + 1).drop_last() == report.errors@.take(k as int));
                k = k + 1;
            }
            assert(report.errors@.take(k as int) == report.errors@);
        }
        push_str(&mut html, "</body>\n");
        push_str(&mut html, "</html>\n");
        html
    }
}

/// The kind of error recorded for `input`: the last entry of `kinds` for
/// it (a later record replaces an earlier one), `ConversionError` when
/// there is none.
pub open spec fn error_kind_of(kinds: Seq<(String, String)>, input: Seq<char>) -> Seq<char>
    decreases kinds.len(),
{
    if kinds.len() == 0 {
        "ConversionError"@
    } else if kinds.last().0@ == input {
        kinds.last().1@
    } else {
        error_kind_of(kinds.drop_last(), input)
    }
}

/// The failures of `files`: each failed file with a message, in order,
/// with its kind of error.
pub open spec fn failures_of(files: Seq<FileConversionResult>, kinds: Seq<(String, String)>) -> Seq<
    (Seq<char>, Seq<char>, Seq<char>),
>
    decreases files.len(),
{
    if files.len() == 0 {
        Seq::empty()
    } else {
        let f = files.last();
        let rest = failures_of(files.drop_last(), kinds);
        match f.error_message {
            Some(m) if f.status == ConversionStatus::Failed => rest.push(
                (f.input_file@, error_kind_of(kinds, f.input_file@), m@),
            ),
            _ => rest,
        }
    }
}

/// The kind of error recorded for `input`.
fn error_kind(kinds: &[(String, String)], input: &str) -> (r: String)
    ensures
        r@ == error_kind_of(kinds@, input@),
{
    let iv = chars_of(input);
    let mut i: usize = kinds.len();
    assert(kinds@.take(i as int) == kinds@);
    while i > 0
        invariant
            i <= kinds@.len(),
            iv@ == input@,
            error_kind_of(kinds@, input@) == error_kind_of(kinds@.take(i as int), input@),
        decreases i,
    {
        assert(kinds@.take(i as int).last() == kinds@[i - 1]);
        assert(kinds@.take(i as int).drop_last() == kinds@.take(i - 1));
        if chars_eq(&chars_of(kinds[i - 1].0.as_str()), &iv) {
            return string_of(&chars_of(kinds[i - 1].1.as_str()));
        }
        i = i - 1;
    }
    "ConversionError".to_string()
}

/// The failures of `files`, with their kinds of error.
pub fn collect_failures(files: &[FileConversionResult], kinds: &[(String, String)]) -> (r: Vec<Failure>)
    ensures
        failure_views(r@) == failures_of(files@, kinds@),
{
    let mut r: Vec<Failure> = Vec::new();
    let mut i: usize = 0;
    while i < files.len()
        invariant
            i <= files@.len(),
            failure_views(r@) == failures_of(files@.take(i as int), kinds@),
        decreases files.len() - i,
    {
        let f = &files[i];
        assert(files@.take(i + 1).drop_last() == files@.take(i as int));
        assert(files@.take(i + 1).last() == files@[i as int]);
        if f.status == ConversionStatus::Failed {
            if let Some(m) = &f.error_message {
                let kind = error_kind(kinds, f.input_file.as_str());
                let input = string_of(&chars_of(f.input_file.as_str()));
                let msg = string_of(&chars_of(m.as_str()));
                let ghost before = r@;
                r.push((input, kind, msg));
                assert(failure_views(r@) =~= failure_views(before).push((f.input_file@, error_kind_of(kinds@,
                    f.input_file@), m@)));
            }
        }
        i = i + 1;
    }
    assert(files@.take(i as int) == files@);
    r
}

/// The failures of `files` grouped by kind and message and ordered by
/// message, as a batch report lists them.
pub fn summarize_errors(files: &[FileConversionResult], kinds: &[(String, String)]) -> (r: Vec<ErrorDetail>)
    ensures
        sorted_by_message(r@),
        r@.len() == grouped(failures_of(files@, kinds@)).len(),
        forall|k: int| 0 <= k < r@.len() ==> grouped(failures_of(files@, kinds@)).contains(detail_view(#[trigger] r@[k])),
        forall|g: Group| grouped(failures_of(files@, kinds@)).contains(g) ==> exists|k: int|
            0 <= k < r@.len() && detail_view(#[trigger] r@[k]) == g,
        forall|k: int| 0 <= k < r@.len() ==> (#[trigger] r@[k]).occurrence_count == r@[k].affected_files@.len(),
{
    let failures = collect_failures(files, kinds);
    let groups = group_errors(&failures);
    let ghost gs = groups@;
    let ghost gv = grouped(failures_of(files@, kinds@));
    assert(gs.map_values(|d: ErrorDetail| detail_view(d)) == gv);
    let r = sort_by_message(groups);
    proof {
        r@.to_multiset_ensures();
        gs.to_multiset_ensures();
        assert forall|k: int| 0 <= k < r@.len() implies gv.contains(detail_view(#[trigger] r@[k]))
            && r@[k].occurrence_count == r@[k].affected_files@.len() by {
            assert(r@.to_multiset().count(r@[k]) > 0);
            assert(gs.contains(r@[k]));
            let j = choose|j: int| 0 <= j < gs.len() && gs[j] == r@[k];
            assert(gv[j] == detail_view(gs[j]));
        }
        assert forall|g: Group| gv.contains(g) implies exists|k: int|
            0 <= k < r@.len() && detail_view(#[trigger] r@[k]) == g by {
            let j = choose|j: int| 0 <= j < gv.len() && gv[j] == g;
            assert(detail_view(gs[j]) == g);
            assert(gs.to_multiset().count(gs[j]) > 0);
            assert(r@.contains(gs[j]));
            let k = choose|k: int| 0 <= k < r@.len() && r@[k] == gs[j];
            assert(detail_view(r@[k]) == g);
        }
    }
    r
}


/// Calls `chrono::Utc::now` and writes the moment in RFC 3339 form; the
/// moment depends on the clock, so nothing is stated of it.
#[verifier::external_body]
fn now_rfc3339() -> (r: String) {
    chrono::Utc::now().to_rfc3339()
}

impl Default for ConversionSummary {
    /// Totals of an empty batch.
    fn default() -> (r: Self)
        ensures
            r.total_files == 0 && r.successful_conversions == 0 && r.failed_conversions == 0,
            r.total_duration_text@ == "0.00"@ && r.average_duration_text@ == "0.00"@ && r.success_rate_text@ == "0.0"@,
    {
        ConversionSummary {
            total_files: 0,
            successful_conversions: 0,
            failed_conversions: 0,
            total_duration_text: "0.00".to_string(),
            average_duration_text: "0.00".to_string(),
            success_rate_text: "0.0".to_string(),
        }
    }
}

impl Default for FileConversionResult {
    /// A successful outcome with nothing filled in.
    fn default() -> (r: Self)
        ensures
            r.input_file@.len() == 0 && r.output_file is None && r.status == ConversionStatus::Success,
            r.duration_text@ == "0.00"@ && r.chapter_count is None && r.file_size_bytes == 0 && r.error_message is None,
    {
        FileConversionResult {
            input_file: String::new(),
            output_file: None,
            status: ConversionStatus::Success,
            duration_text: "0.00".to_string(),
            chapter_count: None,
            file_size_bytes: 0,
            error_message: None,
        }
    }
}

impl Default for BatchReport {
    /// An empty report made now.
    fn default() -> (r: Self)
        ensures
            r.files@.len() == 0 && r.errors@.len() == 0,
            r.summary.total_files == 0 && r.summary.successful_conversions == 0 && r.summary.failed_conversions == 0,
            r.summary.total_duration_text@ == "0.00"@ && r.summary.average_duration_text@ == "0.00"@,
            r.summary.success_rate_text@ == "0.0"@,
    {
        BatchReport {
            timestamp: now_rfc3339(),
            summary: ConversionSummary::default(),
            files: Vec::new(),
            errors: Vec::new(),
        }
    }
}

} // verus!
