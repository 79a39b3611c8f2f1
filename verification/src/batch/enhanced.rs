//! Batch conversion: output names, the plan of jobs, and the schedule that
//! runs them in waves and stops on errors.

use vstd::prelude::*;
use crate::config::validate_config;
use crate::config::loader::probed;
use crate::config::validator::{always_yes, answered, passes_when_found, validation_outcome, Query};
use crate::error::{message_of, KafError};
use crate::model::Book;
use crate::text::{chars_of, dec, decimal, extend_chars, push_chars, push_str, string_of, trim, trim_chars};
use crate::utils::file::{join_path, parent_of, path_joined, path_parent};

verus! {

/// Settings of a batch conversion.
#[derive(Debug, Clone)]
pub struct BatchConfig {
    pub output_dir: Option<String>,
    pub continue_on_error: bool,
    /// Stop after this many errors (0: never).
    pub max_errors: usize,
    pub dry_run: bool,
    pub show_chapters: bool,
    pub concurrency: usize,
}

impl Default for BatchConfig {
    fn default() -> (r: Self)
        ensures
            r.output_dir is None && !r.continue_on_error && r.max_errors == 0 && !r.dry_run && !r.show_chapters
                && r.concurrency == 4,
    {
        BatchConfig {
            output_dir: None,
            continue_on_error: false,
            max_errors: 0,
            dry_run: false,
            show_chapters: false,
            concurrency: 4,
        }
    }
}

impl BatchConfig {
    /// The batch settings the command line gives.
    pub fn from_cli(cli: &crate::cli::Cli) -> (r: Self)
        ensures
            r.output_dir == cli.output_dir,
            r.continue_on_error == cli.continue_on_error,
            r.max_errors == cli.max_errors,
            r.dry_run == cli.dry_run,
            r.show_chapters == cli.show_chapters,
            r.concurrency == cli.concurrency,
    {
        BatchConfig {
            output_dir: match &cli.output_dir {
                Some(d) => Some(d.clone()),
                None => None,
            },
            continue_on_error: cli.continue_on_error,
            max_errors: cli.max_errors,
            dry_run: cli.dry_run,
            show_chapters: cli.show_chapters,
            concurrency: cli.concurrency as usize,
        }
    }
}

/// One input of a batch: a book, or a file whose configuration failed.
#[derive(Debug)]
pub enum BatchInput {
    Book(Box<Book>),
    Failed { input: String, error: String },
}

impl BatchInput {
    /// An input holding `book`.
    pub fn book(book: Book) -> (r: Self)
        ensures
            r matches BatchInput::Book(b) && *b == book,
    {
        BatchInput::Book(Box::new(book))
    }

    /// An input that failed with `error`.
    pub fn failed(input: String, error: String) -> (r: Self)
        ensures
            r matches BatchInput::Failed { input: i, error: e } && i == input && e == error,
    {
        BatchInput::Failed { input, error }
    }
}

/// A planned job: a book ready to convert into an output path, or a
/// failure with its kind.
#[derive(Debug)]
pub enum PlannedJob {
    Ready { book: Box<Book>, output_path: String },
    Failed { input: String, error: String, error_type: &'static str },
}

/// The input path of a job.
pub open spec fn job_input(j: PlannedJob) -> Seq<char> {
    match j {
        PlannedJob::Ready { book, .. } => book.filename@,
        PlannedJob::Failed { input, .. } => input@,
    }
}

/// The output path of a job that is ready to run.
pub open spec fn ready_output(j: PlannedJob) -> Option<Seq<char>> {
    match j {
        PlannedJob::Ready { output_path, .. } => Some(output_path@),
        PlannedJob::Failed { .. } => None,
    }
}

/// A ready job converts the book of its input exactly as it was
/// configured.
pub open spec fn keeps_book(input: BatchInput, job: PlannedJob) -> bool {
    match (input, job) {
        (BatchInput::Book(b), PlannedJob::Ready { book, .. }) => book == b,
        _ => true,
    }
}

/// No two ready jobs write the same output path.
pub open spec fn distinct_outputs(jobs: Seq<PlannedJob>) -> bool {
    forall|a: int, b: int|
        0 <= a < b < jobs.len() && #[trigger] ready_output(jobs[a]) is Some && #[trigger] ready_output(jobs[b]) is Some
            ==> ready_output(jobs[a]) != ready_output(jobs[b])
}

/// A job that failed for its configuration.
pub open spec fn configuration_failure(j: PlannedJob) -> bool {
    j matches PlannedJob::Failed { error_type, .. } && error_type@ == "ConfigurationError"@
}

/// The input path of a batch input.
pub open spec fn batch_input_path(i: BatchInput) -> Seq<char> {
    match i {
        BatchInput::Book(b) => b.filename@,
        BatchInput::Failed { input, .. } => input@,
    }
}

impl PlannedJob {
    /// The input path of the job.
    pub fn input(&self) -> (r: &str)
        ensures
            r@ == job_input(*self),
    {
        match self {
            PlannedJob::Ready { book, .. } => book.filename.as_str(),
            PlannedJob::Failed { input, .. } => input.as_str(),
        }
    }
}

/// A control character (`char::is_control`: category Cc).
pub open spec fn is_control(c: char) -> bool {
    (c as u32) <= 0x1F || (0x7F <= (c as u32) && (c as u32) <= 0x9F)
}

/// A character not allowed in file names.
pub open spec fn forbidden_in_name(c: char) -> bool {
    is_control(c) || c == '<' || c == '>' || c == ':' || c == '"' || c == '/' || c == '\\' || c == '|' || c == '?'
        || c == '*'
}

/// A character trimmed from the ends of a file name.
pub open spec fn name_edge(c: char) -> bool {
    c == ' ' || c == '.'
}

/// `s` without leading spaces and dots.
pub open spec fn trim_edges_start(s: Seq<char>) -> Seq<char>
    decreases s.len(),
{
    if s.len() > 0 && name_edge(s[0]) { trim_edges_start(s.drop_first()) } else { s }
}

/// `s` without trailing spaces and dots.
pub open spec fn trim_edges_end(s: Seq<char>) -> Seq<char>
    decreases s.len(),
{
    if s.len() > 0 && name_edge(s.last()) { trim_edges_end(s.drop_last()) } else { s }
}

/// A safe output name: trimmed, forbidden characters replaced by `_`,
/// spaces and dots removed from the ends; `output` when nothing is left.
pub open spec fn sanitized_name(value: Seq<char>) -> Seq<char> {
    let mapped = trim(value).map_values(|c: char| if forbidden_in_name(c) { '_' } else { c });
    let s = trim_edges_end(trim_edges_start(mapped));
    if s.len() == 0 || s == "."@ || s == ".."@ { "output"@ } else { s }
}

/// The `k`-th candidate output file name for `base`.
pub open spec fn candidate_name(base: Seq<char>, k: nat) -> Seq<char> {
    if k == 0 { base + ".epub"@ } else { base + " ("@ + dec(k) + ").epub"@ }
}

/// The folder outputs of `book` go to.
pub open spec fn output_dir_of(book: Book, config: BatchConfig) -> Seq<char> {
    match config.output_dir {
        Some(d) => d@,
        None => match path_parent(book.filename@) {
            Some(p) => p,
            None => "."@,
        },
    }
}

/// The requested output name of `book`.
pub open spec fn requested_name(book: Book) -> Seq<char> {
    match book.output_name {
        Some(o) => o@,
        None => match book.bookname {
            Some(b) => b@,
            None => "output"@,
        },
    }
}

/// The `k`-th candidate output path of `book`.
pub open spec fn candidate_path(book: Book, config: BatchConfig, k: nat) -> Seq<char> {
    path_joined(output_dir_of(book, config), candidate_name(sanitized_name(requested_name(book)), k))
}

/// The candidate `c` exists, as `exists_at` tells, or is reserved.
pub open spec fn taken<F: Fn(&str) -> bool>(exists_at: F, reserved: Seq<String>, c: Seq<char>) -> bool {
    probed(exists_at, c, true) || keys(reserved).contains(c)
}

/// The views of some strings.
pub open spec fn keys(v: Seq<String>) -> Seq<Seq<char>> {
    v.map_values(|s: String| s@)
}

/// The output paths of the ready jobs among `jobs`, in order.
pub open spec fn outputs_of(jobs: Seq<PlannedJob>) -> Seq<Seq<char>>
    decreases jobs.len(),
{
    if jobs.len() == 0 {
        Seq::empty()
    } else {
        match ready_output(jobs.last()) {
            Some(p) => outputs_of(jobs.drop_last()).push(p),
            None => outputs_of(jobs.drop_last()),
        }
    }
}

/// The candidate `c` exists, as `exists_at` tells, or is the output of an
/// earlier job.
pub open spec fn taken_by<F: Fn(&str) -> bool>(exists_at: F, earlier: Seq<Seq<char>>, c: Seq<char>) -> bool {
    probed(exists_at, c, true) || earlier.contains(c)
}

/// The job of a valid book outside a dry run: ready with the first free
/// candidate path, or failed when every candidate is taken.
pub open spec fn reserved_job<F: Fn(&str) -> bool>(
    config: BatchConfig,
    exists_at: F,
    earlier: Seq<Seq<char>>,
    b: Book,
    job: PlannedJob,
) -> bool {
    ||| job matches PlannedJob::Ready { book, output_path } && *book == b && exists|k: nat|
        k <= 10000 && output_path@ == #[trigger] candidate_path(b, config, k) && probed(exists_at, output_path@, false)
            && !earlier.contains(output_path@) && forall|j: nat| j < k ==> taken_by(
            exists_at,
            earlier,
            #[trigger] candidate_path(b, config, j),
        )
    ||| job matches PlannedJob::Failed { input, error, error_type } && input@ == b.filename@ && error@ == "章节解析失败: "@
        + ("无法为 "@ + b.filename@ + " 分配唯一输出文件名"@) && error_type@ == "ConversionError"@ && forall|j: nat|
        j <= 10000 ==> taken_by(exists_at, earlier, #[trigger] candidate_path(b, config, j))
}

/// The job planned for `input`, after the jobs whose outputs are
/// `earlier`: a failed input stays failed as a configuration error; a
/// book is validated with the default limits (questions answered by
/// `probe`), and a validation error fails it as a configuration error
/// with the error's message; a valid book is ready with no output path in
/// a dry run, else with a reserved output path.
pub open spec fn job_planned<P: Fn(&Query) -> bool, F: Fn(&str) -> bool>(
    config: BatchConfig,
    probe: P,
    exists_at: F,
    earlier: Seq<Seq<char>>,
    input: BatchInput,
    job: PlannedJob,
) -> bool {
    match input {
        BatchInput::Failed { input: i, error: e } => job matches PlannedJob::Failed { input, error, error_type } && input
            == i && error == e && error_type@ == "ConfigurationError"@,
        BatchInput::Book(b) => {
            ||| exists|e: KafError|
                #![trigger validation_outcome((5usize, 100usize, 10usize), probe, *b, Err(e))]
                validation_outcome((5usize, 100usize, 10usize), probe, *b, Err(e)) && (job matches PlannedJob::Failed {
                    input,
                    error,
                    error_type,
                } && input@ == b.filename@ && message_of(e) == Some(error@) && error_type@ == "ConfigurationError"@)
            ||| validation_outcome((5usize, 100usize, 10usize), probe, *b, Ok(())) && if config.dry_run {
                job matches PlannedJob::Ready { book, output_path } && book == b && output_path@.len() == 0
            } else {
                reserved_job(config, exists_at, earlier, *b, job)
            }
        },
    }
}

/// Runs batch conversions.
pub struct EnhancedBatchConverter {
    config: BatchConfig,
}

/// Whether `c` may not stand in a file name.
fn forbidden_char(c: char) -> (r: bool)
    ensures
        r == forbidden_in_name(c),
{
    (c as u32) <= 0x1F || (0x7F <= (c as u32) && (c as u32) <= 0x9F) || c == '<' || c == '>' || c == ':' || c == '"'
        || c == '/' || c == '\\' || c == '|' || c == '?' || c == '*'
}

impl EnhancedBatchConverter {
    /// A converter with `config`.
    pub fn new(config: BatchConfig) -> (r: Self)
        ensures
            r.config() == config,
    {
        EnhancedBatchConverter { config }
    }

    /// The settings.
    pub closed spec fn config(&self) -> BatchConfig {
        self.config
    }

    /// A safe output file name for `value`.
    pub fn sanitize_output_name(value: &str) -> (r: String)
        ensures
            r@ == sanitized_name(value@),
    {
        let t = trim_chars(&chars_of(value));
        let mut mapped: Vec<char> = Vec::new();
        let mut i: usize = 0;
        while i < t.len()
            invariant
                i <= t@.len(),
                mapped@ == t@.take(i as int).map_values(|c: char| if forbidden_in_name(c) { '_' } else { c }),
            decreases t.len() - i,
        {
            let c = t[i];
            mapped.push(if forbidden_char(c) { '_' } else { c });
            i = i + 1;
            assert(mapped@ =~= t@.take(i as int).map_values(|c: char| if forbidden_in_name(c) { '_' } else { c }));
        }
        assert(t@.take(t@.len() as int) == t@);
        let mut a: usize = 0;
        assert(mapped@.skip(0) == mapped@);
        while a < mapped.len() && (mapped[a] == ' ' || mapped[a] == '.')
            invariant
                a <= mapped@.len(),
                trim_edges_start(mapped@) == trim_edges_start(mapped@.skip(a as int)),
            decreases mapped.len() - a,
        {
            assert(mapped@.skip(a as int).drop_first() == mapped@.skip(a + 1));
            a = a + 1;
        }
        let mut b: usize = mapped.len();
        let ghost s1 = mapped@.skip(a as int);
        while b > a && (mapped[b - 1] == ' ' || mapped[b - 1] == '.')
            invariant
                a <= b <= mapped@.len(),
                s1 == mapped@.skip(a as int),
                trim_edges_end(s1) == trim_edges_end(mapped@.subrange(a as int, b as int)),
            decreases b,
        {
            assert(mapped@.subrange(a as int, b as int).drop_last() == mapped@.subrange(a as int, b - 1));
            b = b - 1;
        }
        assert(mapped@.subrange(a as int, mapped@.len() as int) == s1);
        let mut s: Vec<char> = Vec::new();
        let mut k: usize = a;
        while k < b
            invariant
                a <= k <= b,
                b <= mapped@.len(),
                s@ == mapped@.subrange(a as int, k as int),
            decreases b - k,
        {
            s.push(mapped[k]);
            k = k + 1;
            assert(mapped@.subrange(a as int, k as int) == mapped@.subrange(a as int, k - 1).push(mapped@[k - 1]));
        }
        if s.len() == 0 || crate::text::chars_eq_str(&s, ".") || crate::text::chars_eq_str(&s, "..") {
            "output".to_string()
        } else {
            string_of(&s)
        }
    }

    /// The key under which an output path is reserved.
    pub fn path_key(path: &str) -> (r: String)
        ensures
            r@ == path@,
    {
        path.to_string()
    }

    /// The `k`-th candidate file name for `base`.
    pub(crate) fn candidate(base: &str, k: usize) -> (r: String)
        ensures
            r@ == candidate_name(base@, k as nat),
    {
        let mut s = base.to_string();
        if k == 0 {
            push_str(&mut s, ".epub");
        } else {
            push_str(&mut s, " (");
            push_chars(&mut s, &decimal(k as u64));
            push_str(&mut s, ").epub");
            assert(s@ =~= base@ + " ("@ + dec(k as nat) + ").epub"@);
        }
        s
    }

    /// Reserves the first candidate output path that does not exist (as
    /// `exists` tells) and is not reserved yet: `name.epub`, then
    /// `name (1).epub` up to `name (10000).epub`. Every candidate before it
    /// exists or is reserved; so does every candidate when none is left.
    pub fn reserve_output_path<F: Fn(&str) -> bool>(book: &Book, config: &BatchConfig, reserved: &mut Vec<String>,
        exists_at: &F) -> (r: Result<String, KafError>)
        requires
            forall|s: &str| exists_at.requires((s,)),
        ensures
            r matches Ok(p) ==> exists|k: nat| k <= 10000 && p@ == #[trigger] candidate_path(*book, *config, k)
                && probed(*exists_at, p@, false) && !keys(old(reserved)@).contains(p@)
                && forall|j: nat| j < k ==> taken(*exists_at, old(reserved)@, #[trigger] candidate_path(*book, *config, j)),
            r is Err ==> forall|j: nat| j <= 10000 ==> taken(*exists_at, old(reserved)@, #[trigger] candidate_path(
                *book,
                *config,
                j,
            )),
            r matches Ok(p) ==> keys(final(reserved)@) == keys(old(reserved)@).push(p@),
            r is Err ==> final(reserved)@ == old(reserved)@,
            r matches Err(e) ==> e matches KafError::ParseError(m) && m@ == "无法为 "@ + book.filename@
                + " 分配唯一输出文件名"@,
    {
        let dir: String = match &config.output_dir {
            Some(d) => d.clone(),
            None => match parent_of(book.filename.as_str()) {
                Some(p) => p,
                None => ".".to_string(),
            },
        };
        let requested: &str = match &book.output_name {
            Some(o) => o.as_str(),
            None => match &book.bookname {
                Some(b) => b.as_str(),
                None => "output",
            },
        };
        let base = Self::sanitize_output_name(requested);
        let mut k: usize = 0;
        while k <= 10000
            invariant
                k <= 10001,
                dir@ == output_dir_of(*book, *config),
                base@ == sanitized_name(requested_name(*book)),
                reserved@ == old(reserved)@,
                forall|s: &str| exists_at.requires((s,)),
                forall|j: nat| j < k ==> taken(*exists_at, old(reserved)@, #[trigger] candidate_path(*book, *config, j)),
            decreases 10001 - k,
        {
            let candidate = join_path(dir.as_str(), Self::candidate(base.as_str(), k).as_str());
            assert(candidate@ == candidate_path(*book, *config, k as nat));
            let key = Self::path_key(candidate.as_str());
            let exists = exists_at(candidate.as_str());
            if exists {
                assert(probed(*exists_at, candidate@, true));
            }
            if !exists && !Self::holds(reserved, key.as_str()) {
                assert(probed(*exists_at, candidate@, false));
                assert(candidate@ == candidate_path(*book, *config, k as nat));
                reserved.push(key);
                assert(keys(reserved@) =~= keys(old(reserved)@).push(candidate@));
                return Ok(candidate);
            }
            assert(taken(*exists_at, old(reserved)@, candidate_path(*book, *config, k as nat)));
            k = k + 1;
        }
        let mut m = "无法为 ".to_string();
        push_str(&mut m, book.filename.as_str());
        push_str(&mut m, " 分配唯一输出文件名");
        Err(KafError::ParseError(m))
    }

    /// Whether `key` is among `reserved`.
    fn holds(reserved: &Vec<String>, key: &str) -> (r: bool)
        ensures
            r == keys(reserved@).contains(key@),
    {
        let mut i: usize = 0;
        while i < reserved.len()
            invariant
                i <= reserved@.len(),
                forall|j: int| 0 <= j < i ==> reserved@[j]@ != key@,
            decreases reserved.len() - i,
        {
            if crate::text::chars_eq_str(&chars_of(reserved[i].as_str()), key) {
                assert(keys(reserved@)[i as int] == key@);
                return true;
            }
            i = i + 1;
        }
        assert(!keys(reserved@).contains(key@)) by {
            if keys(reserved@).contains(key@) {
                let j = choose|j: int| 0 <= j < keys(reserved@).len() && keys(reserved@)[j] == key@;
                assert(reserved@[j]@ == key@);
            }
        }
        false
    }

    /// One job per input, in order and for the same input path: a failed
    /// input stays failed; a book that does not validate fails; in a dry
    /// run a valid book is ready with no output path; otherwise it is
    /// ready with a reserved output path, or fails when none is free.
    pub fn plan_jobs<F: Fn(&Query) -> bool, G: Fn(&str) -> bool>(inputs: Vec<BatchInput>, config: &BatchConfig,
        probe: &F, exists_at: &G) -> (r: Vec<PlannedJob>)
        requires
            forall|q: &Query| probe.requires((q,)),
            forall|s: &str| exists_at.requires((s,)),
        ensures
            r@.len() == inputs@.len(),
            forall|k: int| 0 <= k < r@.len() ==> job_input(#[trigger] r@[k]) == batch_input_path(inputs@[k]),
            forall|k: int| 0 <= k < r@.len() ==> (inputs@[k] is Failed ==> configuration_failure(#[trigger] r@[k])),
            forall|k: int| 0 <= k < r@.len() ==> (#[trigger] r@[k] matches PlannedJob::Ready { output_path, .. } ==> (
                config.dry_run ==> output_path@.len() == 0)),
            !config.dry_run ==> distinct_outputs(r@),
            forall|k: int| 0 <= k < r@.len() ==> keeps_book(inputs@[k], #[trigger] r@[k]),
            forall|k: int| 0 <= k < r@.len() ==> job_planned(*config, probe, *exists_at, outputs_of(r@.take(k)), inputs@[k],
                #[trigger] r@[k]),
            config.dry_run && always_yes(probe) ==> forall|k: int| 0 <= k < r@.len() ==> (inputs@[k] matches BatchInput::Book(
                b) ==> (#[trigger] r@[k] is Ready <==> passes_when_found((5usize, 100usize, 10usize), *b))),
    {
        let mut reserved: Vec<String> = Vec::new();
        let mut jobs: Vec<PlannedJob> = Vec::new();
        let mut inputs = inputs;
        let ghost all = inputs@;
        while inputs.len() > 0
            invariant
                jobs@.len() + inputs@.len() == all.len(),
                inputs@ == all.skip(jobs@.len() as int),
                forall|q: &Query| probe.requires((q,)),
                forall|s: &str| exists_at.requires((s,)),
                forall|k: int| 0 <= k < jobs@.len() ==> job_input(#[trigger] jobs@[k]) == batch_input_path(all[k]),
                forall|k: int| 0 <= k < jobs@.len() ==> (all[k] is Failed ==> configuration_failure(#[trigger] jobs@[k])),
                forall|k: int| 0 <= k < jobs@.len() ==> (#[trigger] jobs@[k] matches PlannedJob::Ready { output_path, .. }
                    ==> (config.dry_run ==> output_path@.len() == 0)),
                !config.dry_run ==> distinct_outputs(jobs@),
                forall|k: int| 0 <= k < jobs@.len() ==> keeps_book(all[k], #[trigger] jobs@[k]),
                !config.dry_run ==> forall|k: int| 0 <= k < jobs@.len() && #[trigger] ready_output(jobs@[k]) is Some
                    ==> keys(reserved@).contains(ready_output(jobs@[k])->0),
                !config.dry_run ==> keys(reserved@) == outputs_of(jobs@),
                forall|k: int| 0 <= k < jobs@.len() ==> job_planned(*config, probe, *exists_at, outputs_of(jobs@.take(k)),
                    all[k], #[trigger] jobs@[k]),
                config.dry_run && always_yes(probe) ==> forall|k: int| 0 <= k < jobs@.len() ==> (all[k] matches BatchInput::Book(
                    b) ==> (#[trigger] jobs@[k] is Ready <==> passes_when_found((5usize, 100usize, 10usize), *b))),
            decreases inputs.len(),
        {
            let ghost k = jobs@.len();
            let ghost reserved_before = reserved@;
            let x = inputs.remove(0);
            assert(x == all[k as int]);
            assert(inputs@ =~= all.skip((k + 1) as int));
            proof { reveal_strlit("ConfigurationError"); }
            let job = match x {
                BatchInput::Failed { input, error } => PlannedJob::Failed {
                    input,
                    error,
                    error_type: "ConfigurationError",
                },
                BatchInput::Book(book) => {
                    match validate_config(&book, probe) {
                        Err(e) => PlannedJob::Failed {
                            input: book.filename.clone(),
                            error: e.message(),
                            error_type: "ConfigurationError",
                        },
                        Ok(()) => {
                            if config.dry_run {
                                PlannedJob::Ready { book, output_path: String::new() }
                            } else {
                                let ghost before = reserved@;
                                let reserved_path = Self::reserve_output_path(&book, config, &mut reserved, exists_at);
                                proof {
                                    if let Ok(ref p) = reserved_path {
                                        assert forall|x: Seq<char>| keys(before).contains(x) implies keys(reserved@).contains(x)
                                            by {
                                            let w = choose|w: int| 0 <= w < keys(before).len() && keys(before)[w] == x;
                                            assert(keys(reserved@)[w] == x);
                                        }
                                        assert(keys(reserved@)[keys(before).len() as int] == p@);
                                    }
                                }
                                match reserved_path {
                                    Ok(output_path) => PlannedJob::Ready { book, output_path },
                                    Err(e) => PlannedJob::Failed {
                                        input: book.filename.clone(),
                                        error: e.message(),
                                        error_type: "ConversionError",
                                    },
                                }
                            }
                        },
                    }
                },
            };
            let ghost prev = jobs@;
            jobs.push(job);
            proof {
                assert(jobs@ == prev.push(job));
                assert(jobs@.take(k as int) == prev);
                assert(jobs@.drop_last() == prev);
                assert forall|j: int| 0 <= j < k implies #[trigger] jobs@.take(j) == prev.take(j) by {}

                if !config.dry_run {
                    assert forall|a: int, b: int|
                        0 <= a < b < jobs@.len() && #[trigger] ready_output(jobs@[a]) is Some
                            && #[trigger] ready_output(jobs@[b]) is Some implies ready_output(jobs@[a]) != ready_output(
                        jobs@[b]) by {
                        if b == prev.len() {
                            assert(jobs@[a] == prev[a]);
                            assert(keys(reserved_before).contains(ready_output(prev[a])->0));
                        } else {
                            assert(jobs@[a] == prev[a] && jobs@[b] == prev[b]);
                        }
                    }
                }
            }
        }
        jobs
    }
}

/// What the schedule asks for next.
#[derive(Debug, Clone, Copy, PartialEq, Eq, Structural)]
pub enum Step {
    /// Record the planned failure of job `i`.
    RecordFailure(usize),
    /// Run the ready jobs from `start` up to `end` (excluded) together.
    Launch(usize, usize),
    /// Mark the jobs from `start` on as skipped: the batch stopped.
    SkipRest(usize),
    /// Nothing is left.
    Done,
}

/// The schedule of a batch: jobs run in order, ready jobs in waves of at
/// most `concurrency`; a failure stops the batch unless errors are
/// tolerated, and `max_errors` failures stop it in any case.
pub struct BatchSchedule {
    ready: Vec<bool>,
    concurrency: usize,
    continue_on_error: bool,
    max_errors: usize,
    next_job: usize,
    error_count: usize,
    stopped: bool,
    awaiting: bool,
    finished: bool,
}

/// The state of a schedule.
pub struct ScheduleView {
    pub ready: Seq<bool>,
    pub concurrency: usize,
    pub continue_on_error: bool,
    pub max_errors: usize,
    pub next_job: usize,
    pub error_count: usize,
    pub stopped: bool,
    pub awaiting: bool,
    pub finished: bool,
}

/// Whether the error count stops the batch.
pub open spec fn too_many(max_errors: usize, count: int) -> bool {
    max_errors > 0 && count >= max_errors
}

/// The step `r` taken from the state `o` leads to the state `n`.
pub open spec fn step_taken(o: ScheduleView, n: ScheduleView, r: Step) -> bool {
    &&& n.ready == o.ready && n.concurrency == o.concurrency
    &&& n.continue_on_error == o.continue_on_error && n.max_errors == o.max_errors
    &&& match r {
        Step::RecordFailure(i) => {
            &&& !o.finished && !o.stopped && i == o.next_job && i < o.ready.len() && !o.ready[i as int]
            &&& n.next_job == i + 1 && n.error_count == o.error_count + 1 && !n.awaiting && !n.finished
            &&& n.stopped == (!o.continue_on_error || too_many(o.max_errors, o.error_count + 1))
        },
        Step::Launch(a, b) => {
            &&& !o.finished && !o.stopped && a == o.next_job && a < b && b <= o.ready.len()
            &&& b - a <= o.concurrency
            &&& forall|k: int| a <= k < b ==> o.ready[k]
            &&& (b < o.ready.len() && b - a < o.concurrency ==> !o.ready[b as int])
            &&& n.next_job == b && n.awaiting && !n.finished && n.error_count == o.error_count
            &&& n.stopped == o.stopped
        },
        Step::SkipRest(a) => {
            &&& !o.finished && o.stopped && a == o.next_job && a < o.ready.len()
            &&& n.next_job == o.ready.len() && n.finished && !n.awaiting
        },
        Step::Done => {
            &&& o.finished || o.next_job == o.ready.len()
            &&& n.finished && n.next_job == o.ready.len() && !n.awaiting
        },
    }
}

/// A wave that ended with `failures` failed jobs takes the state `o` to
/// `n`: the failures are counted, and the batch stops on a failure unless
/// it continues on errors, and once the errors reach the limit.
pub open spec fn wave_finished(o: ScheduleView, failures: usize, n: ScheduleView) -> bool {
    n == (ScheduleView {
        error_count: (o.error_count + failures) as usize,
        awaiting: false,
        stopped: (failures > 0 && !o.continue_on_error) || too_many(o.max_errors, o.error_count + failures),
        ..o
    })
}

/// Law: a stopped batch runs nothing more; its next step skips the jobs
/// that are left, or ends the batch.
pub proof fn lemma_stopped_runs_nothing(o: ScheduleView, n: ScheduleView, r: Step)
    requires
        step_taken(o, n, r),
        o.stopped,
    ensures
        r is SkipRest || r is Done,
        n.finished,
{
}

/// Law: a batch that does not continue on errors stops at its first
/// failure, whether the failure was planned or met in a wave; and any
/// batch stops once its errors reach a limit that is set.
pub proof fn lemma_errors_stop_the_batch(o: ScheduleView, n: ScheduleView, r: Step, failures: usize, w: ScheduleView)
    ensures
        step_taken(o, n, r) && r is RecordFailure && !o.continue_on_error ==> n.stopped,
        step_taken(o, n, r) && r is RecordFailure && too_many(o.max_errors, n.error_count as int) ==> n.stopped,
        wave_finished(o, failures, w) && failures > 0 && !o.continue_on_error ==> w.stopped,
        wave_finished(o, failures, w) && too_many(o.max_errors, w.error_count as int) ==> w.stopped,
{
}

/// Law: every step but the last moves on through the jobs, so the steps
/// of a batch take each job once, in order, and end.
pub proof fn lemma_steps_cover_jobs_in_order(o: ScheduleView, n: ScheduleView, r: Step)
    requires
        step_taken(o, n, r),
        o.next_job <= o.ready.len(),
    ensures
        !(r is Done) ==> o.next_job < n.next_job <= o.ready.len(),
        r is Done ==> n.next_job == o.ready.len() && n.finished,
        match r {
            Step::RecordFailure(i) => i == o.next_job && n.next_job == i + 1,
            Step::Launch(a, b) => a == o.next_job && n.next_job == b,
            Step::SkipRest(a) => a == o.next_job && n.next_job == o.ready.len(),
            Step::Done => true,
        },
{
}

impl BatchSchedule {
    /// The state of the schedule.
    pub closed spec fn view(&self) -> ScheduleView {
        ScheduleView {
            ready: self.ready@,
            concurrency: self.concurrency,
            continue_on_error: self.continue_on_error,
            max_errors: self.max_errors,
            next_job: self.next_job,
            error_count: self.error_count,
            stopped: self.stopped,
            awaiting: self.awaiting,
            finished: self.finished,
        }
    }

    /// The schedule is consistent.
    pub closed spec fn wf(&self) -> bool {
        &&& self.next_job <= self.ready@.len()
        &&& self.concurrency > 0
        &&& self.error_count <= self.next_job
        &&& (self.finished ==> self.next_job == self.ready@.len() && !self.awaiting)
    }

    /// A schedule for jobs whose readiness is `ready`; a concurrency of 0
    /// is an error.
    pub fn new(ready: Vec<bool>, config: &BatchConfig) -> (r: Result<BatchSchedule, KafError>)
        ensures
            config.concurrency == 0 ==> (r matches Err(KafError::ParseError(m)) && m@ == "并发数必须大于 0"@),
            config.concurrency > 0 ==> (r matches Ok(s) && s.wf() && s.view() == (ScheduleView {
                ready: ready@,
                concurrency: config.concurrency,
                continue_on_error: config.continue_on_error,
                max_errors: config.max_errors,
                next_job: 0,
                error_count: 0,
                stopped: false,
                awaiting: false,
                finished: false,
            })),
    {
        if config.concurrency == 0 {
            return Err(KafError::ParseError("并发数必须大于 0".to_string()));
        }
        Ok(BatchSchedule {
            ready,
            concurrency: config.concurrency,
            continue_on_error: config.continue_on_error,
            max_errors: config.max_errors,
            next_job: 0,
            error_count: 0,
            stopped: false,
            awaiting: false,
            finished: false,
        })
    }

    /// The next step. Steps cover the jobs in order, each exactly once:
    /// each starts where the previous one ended, and the last ends with
    /// the last job.
    pub fn next_step(&mut self) -> (r: Step)
        requires
            old(self).wf(),
            !old(self).view().awaiting,
        ensures
            final(self).wf(),
            step_taken(old(self).view(), final(self).view(), r),
    {
        if self.finished {
            return Step::Done;
        }
        if self.next_job < self.ready.len() && !self.stopped {
            let i = self.next_job;
            if !self.ready[i] {
                self.error_count = self.error_count + 1;
                self.next_job = i + 1;
                self.stopped = !self.continue_on_error
                    || (self.max_errors > 0 && self.error_count >= self.max_errors);
                return Step::RecordFailure(i);
            }
            let mut end = i;
            while end < self.ready.len() && end - i < self.concurrency && self.ready[end]
                invariant
                    i <= end <= self.ready@.len(),
                    end - i <= self.concurrency,
                    forall|k: int| i <= k < end ==> self.ready@[k],
                decreases self.ready@.len() - end,
            {
                end = end + 1;
            }
            self.next_job = end;
            self.awaiting = true;
            return Step::Launch(i, end);
        }
        if self.stopped && self.next_job < self.ready.len() {
            let a = self.next_job;
            self.next_job = self.ready.len();
            self.finished = true;
            return Step::SkipRest(a);
        }
        self.next_job = self.ready.len();
        self.finished = true;
        Step::Done
    }

    /// Records that `failures` jobs of the last wave failed.
    pub fn finish_wave(&mut self, failures: usize)
        requires
            old(self).wf(),
            old(self).view().awaiting,
            failures <= old(self).view().concurrency,
            old(self).view().error_count + failures <= old(self).view().next_job,
        ensures
            final(self).wf(),
            wave_finished(old(self).view(), failures, final(self).view()),
    {
        self.error_count = self.error_count + failures;
        self.awaiting = false;
        self.stopped = (failures > 0 && !self.continue_on_error)
            || (self.max_errors > 0 && self.error_count >= self.max_errors);
    }
}

} // verus!
