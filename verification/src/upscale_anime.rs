//! The anime upscaler: its parameters, their checks and the arguments of
//! the external engine that does the work.

use vstd::prelude::*;
use crate::processor::{ProcessError, ProcessResult, ProcessStatus, ProcessorDescriptor};
use crate::text::{decimal, decimal_string};

verus! {

/// Parameters: the scale factor and the denoise level.
#[derive(Clone, Copy, PartialEq, Eq, Structural, Debug)]
pub struct UpscaleAnimeParams {
    pub scale: u8,
    pub denoise_level: u8,
}

pub fn default_scale() -> (r: u8)
    ensures
        r == 2,
{
    2
}

pub fn default_denoise() -> (r: u8)
    ensures
        r == 3,
{
    3
}

impl UpscaleAnimeParams {
    /// Scale 2, denoise level 3 (what an absent parameter object means).
    pub fn default_params() -> (p: UpscaleAnimeParams)
        ensures
            p.scale == 2,
            p.denoise_level == 3,
    {
        UpscaleAnimeParams { scale: default_scale(), denoise_level: default_denoise() }
    }
}

/// The message of the first bad parameter: only 2x and 4x are offered,
/// and denoise levels 1 to 3.
pub open spec fn upscale_params_problem(scale: u8, denoise_level: u8) -> Option<Seq<char>> {
    if scale != 2 && scale != 4 {
        Some("倍率仅支持 2x 或 4x。"@)
    } else if !(1 <= denoise_level <= 3) {
        Some("降噪等级仅支持 1-3。"@)
    } else {
        None
    }
}

/// The arguments of the upscaling engine for one file.
pub open spec fn sidecar_args(input: Seq<char>, output: Seq<char>, scale: u8, denoise_level: u8) -> Seq<Seq<char>> {
    seq!["-i"@, input, "-o"@, output, "-n"@, decimal(denoise_level as nat), "-s"@, decimal(scale as nat), "-m"@, "models-se"@]
}

pub fn upscale_sidecar_args(input: &str, output: &str, scale: u8, denoise_level: u8) -> (r: Vec<String>)
    ensures
        r@.map_values(|s: String| s@) == sidecar_args(input@, output@, scale, denoise_level),
{
    let mut r: Vec<String> = Vec::new();
    r.push(String::from_str("-i"));
    r.push(String::from_str(input));
    r.push(String::from_str("-o"));
    r.push(String::from_str(output));
    r.push(String::from_str("-n"));
    r.push(decimal_string(denoise_level as u32));
    r.push(String::from_str("-s"));
    r.push(decimal_string(scale as u32));
    r.push(String::from_str("-m"));
    r.push(String::from_str("models-se"));
    proof {
        assert(r@.map_values(|s: String| s@) =~= sidecar_args(input@, output@, scale, denoise_level));
    }
    r
}

/// The message of a failed engine run: its error output trimmed, or a hint
/// about the model files when there is none.
pub open spec fn sidecar_failure_message(stderr_trimmed: Seq<char>) -> Seq<char> {
    if stderr_trimmed.len() == 0 {
        "超分失败，请检查模型文件是否正确放置。"@
    } else {
        stderr_trimmed
    }
}

pub fn sidecar_failure(stderr: &str) -> (e: ProcessError)
    ensures
        e matches ProcessError::Internal(m) && m@ == sidecar_failure_message(crate::text::trim(stderr@, crate::text::CharClass::WhiteSpace)),
{
    let t = crate::text::trim_vec(&crate::text::chars_of(stderr), crate::text::CharClass::WhiteSpace);
    if t.len() == 0 {
        ProcessError::Internal(String::from_str("超分失败，请检查模型文件是否正确放置。"))
    } else {
        ProcessError::Internal(crate::text::string_of(&t))
    }
}

/// The anime upscaling processor.
#[derive(Clone, Copy, Debug)]
pub struct UpscaleAnimeProcessor;

impl UpscaleAnimeProcessor {
    pub fn descriptor(&self) -> (d: ProcessorDescriptor)
        ensures
            d.id@ == "upscale-anime"@,
            d.display_name@ == "二次元超分"@,
            d.enabled,
            d.notes@ == "使用 realcugan-ncnn-vulkan 进行二次元风格超分。"@,
    {
        ProcessorDescriptor {
            id: String::from_str("upscale-anime"),
            display_name: String::from_str("二次元超分"),
            enabled: true,
            notes: String::from_str("使用 realcugan-ncnn-vulkan 进行二次元风格超分。"),
        }
    }

    pub fn validate_params(&self, params: &UpscaleAnimeParams) -> (r: Result<(), ProcessError>)
        ensures
            r is Ok <==> upscale_params_problem(params.scale, params.denoise_level) is None,
            r matches Err(e) ==> e matches ProcessError::Validation(m)
                && Some(m@) == upscale_params_problem(params.scale, params.denoise_level),
    {
        if params.scale != 2 && params.scale != 4 {
            return Err(ProcessError::Validation(String::from_str("倍率仅支持 2x 或 4x。")));
        }
        if !(1 <= params.denoise_level && params.denoise_level <= 3) {
            return Err(ProcessError::Validation(String::from_str("降噪等级仅支持 1-3。")));
        }
        Ok(())
    }

    /// The report of a finished upscale written to `output_path`.
    pub fn upscale_result(&self, output_path: &str) -> (r: ProcessResult)
        ensures
            r.status == ProcessStatus::Success,
            r.message@ == "超分完成。"@,
            r.output_path matches Some(p) && p@ == output_path@,
    {
        ProcessResult::success(String::from_str("超分完成。"), String::from_str(output_path))
    }
}

} // verus!
