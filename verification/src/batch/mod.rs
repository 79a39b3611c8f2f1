//! Batch conversion: inputs, planning, scheduling and reports.

pub mod enhanced;
pub mod report;
pub mod results;
pub mod scanner;

pub use enhanced::{BatchConfig, BatchInput, EnhancedBatchConverter};
pub use report::{ReportFormat, ReportGenerator};
pub use scanner::{FolderScanner, ScanOutcome};

use vstd::prelude::*;

verus! {

/// The batch converter of earlier versions: it runs the enhanced
/// converter with errors tolerated and `concurrency` jobs at a time.
pub struct BatchConverter {
    pub concurrency: usize,
}

impl BatchConverter {
    /// A converter running `concurrency` jobs at a time.
    pub fn new(concurrency: usize) -> (r: Self)
        ensures
            r.concurrency == concurrency,
    {
        BatchConverter { concurrency }
    }

    /// The settings it runs the enhanced converter with.
    pub fn batch_config(&self) -> (r: BatchConfig)
        ensures
            r.output_dir is None && r.continue_on_error && r.max_errors == 0 && !r.dry_run && !r.show_chapters,
            r.concurrency == self.concurrency,
    {
        BatchConfig { continue_on_error: true, concurrency: self.concurrency, ..BatchConfig::default() }
    }
}

} // verus!
