//! The rename processor: it copies the input to its new name, unless the
//! two paths are the same.

use vstd::prelude::*;
use crate::paths::{path_eq, same_path};
use crate::processor::{ProcessError, ProcessResult, ProcessStatus, ProcessorDescriptor};

verus! {

/// What renaming one file amounts to.
#[derive(Debug)]
pub enum RenamePlan {
    /// Nothing to do: the result is already final.
    Done(ProcessResult),
    /// Copy the input to the output, then report `result`.
    Copy { result: ProcessResult },
}

/// The batch rename processor.
#[derive(Clone, Copy, Debug)]
pub struct RenameProcessor;

impl RenameProcessor {
    pub fn descriptor(&self) -> (d: ProcessorDescriptor)
        ensures
            d.id@ == "rename"@,
            d.display_name@ == "批量重命名"@,
            d.enabled,
            d.notes@ == "仅修改输出文件名，不改变图片内容。"@,
    {
        ProcessorDescriptor {
            id: String::from_str("rename"),
            display_name: String::from_str("批量重命名"),
            enabled: true,
            notes: String::from_str("仅修改输出文件名，不改变图片内容。"),
        }
    }

    /// Renaming takes no parameters: every request is accepted.
    pub fn validate(&self) -> (r: Result<(), ProcessError>)
        ensures
            r is Ok,
    {
        Ok(())
    }

    /// Skips when input and output are the same path; otherwise the file
    /// is copied and the rename reported.
    pub fn plan(&self, input_path: &str, output_path: &str) -> (r: RenamePlan)
        ensures
            path_eq(input_path@, output_path@) ==> (r matches RenamePlan::Done(res)
                && res.status == ProcessStatus::Skipped && res.message@ == "输出路径与输入路径相同，已跳过。"@
                && res.output_path is None),
            !path_eq(input_path@, output_path@) ==> (r matches RenamePlan::Copy { result }
                && result.status == ProcessStatus::Success && result.message@ == "重命名完成。"@
                && (result.output_path matches Some(p) && p@ == output_path@)
                && result.input_metadata is None && result.output_metadata is None),
    {
        if same_path(input_path, output_path) {
            RenamePlan::Done(ProcessResult::skipped(String::from_str("输出路径与输入路径相同，已跳过。")))
        } else {
            RenamePlan::Copy { result: ProcessResult::success(String::from_str("重命名完成。"), String::from_str(output_path)) }
        }
    }
}

} // verus!
