//! The report of a batch job: one record per input file, one per step of
//! it, and the tallies of the job.

use vstd::prelude::*;
use crate::ordering::KeyedByText;
use crate::paths::{path_join, join_text};
use crate::text::{chars_of, extend_chars, string_of};

verus! {

/// How an item (or one step of it) ended, or that it is still running.
#[derive(Clone, Copy, PartialEq, Eq, Structural, Debug)]
pub enum BatchItemStatus {
    Running,
    Success,
    Failed,
    Skipped,
    Cancelled,
}

/// One step run on one file.
#[derive(Debug)]
pub struct BatchStepReport {
    pub step_index: u32,
    pub step_total: u32,
    pub processor_id: String,
    pub status: BatchItemStatus,
    pub message: String,
    pub output_path: Option<String>,
    pub duration_ms: u64,
}

/// One input file of the job.
#[derive(Debug)]
pub struct BatchItemReport {
    pub input_path: String,
    pub output_path: Option<String>,
    pub status: BatchItemStatus,
    pub message: String,
    pub duration_ms: u64,
    pub steps: Vec<BatchStepReport>,
}

impl KeyedByText for BatchItemReport {
    open spec fn text_key(&self) -> Seq<char> {
        self.input_path@
    }

    fn key_text(&self) -> (r: &str) {
        self.input_path.as_str()
    }
}

/// The whole job.
#[derive(Debug)]
pub struct BatchJobReport {
    pub job_id: String,
    pub processor_id: String,
    pub started_at: String,
    pub finished_at: String,
    pub total: u64,
    pub succeeded: u64,
    pub failed: u64,
    pub skipped: u64,
    pub cancelled: u64,
    pub report_path: Option<String>,
    pub items: Vec<BatchItemReport>,
}

impl BatchJobReport {
    /// A report of a job that has started and done nothing yet.
    pub fn new(job_id: String, processor_id: String, started_at: String, total: u64) -> (r: BatchJobReport)
        ensures
            r.job_id@ == job_id@,
            r.processor_id@ == processor_id@,
            r.started_at@ == started_at@,
            r.finished_at@ == Seq::<char>::empty(),
            r.total == total,
            r.succeeded == 0,
            r.failed == 0,
            r.skipped == 0,
            r.cancelled == 0,
            r.report_path is None,
            r.items@.len() == 0,
    {
        BatchJobReport {
            job_id,
            processor_id,
            started_at,
            finished_at: String::new(),
            total,
            succeeded: 0,
            failed: 0,
            skipped: 0,
            cancelled: 0,
            report_path: None,
            items: Vec::new(),
        }
    }
}

pub open spec fn report_file_name_spec(job_id: Seq<char>) -> Seq<char> {
    "batch-report-"@ + job_id + ".json"@
}

/// The directory reports are written to: `.art-tool-tmp/reports` below the
/// output directory.
pub open spec fn report_dir_spec(output_dir: Seq<char>) -> Seq<char> {
    path_join(path_join(output_dir, ".art-tool-tmp"@), "reports"@)
}

/// The file a report is written to:
/// `<output dir>/.art-tool-tmp/reports/batch-report-<job id>.json`.
pub fn report_file_path(job_id: &str, output_dir: &str) -> (r: String)
    ensures
        r@ == path_join(report_dir_spec(output_dir@), report_file_name_spec(job_id@)),
{
    let mut name = chars_of("batch-report-");
    extend_chars(&mut name, &chars_of(job_id));
    extend_chars(&mut name, &chars_of(".json"));
    let name_text = string_of(&name);
    let tmp = join_text(output_dir, ".art-tool-tmp");
    let dir = join_text(tmp.as_str(), "reports");
    join_text(dir.as_str(), name_text.as_str())
}

} // verus!
