//! The checks and answers of the application's commands: batch jobs,
//! cancellation, single crops and single upscales.

use vstd::prelude::*;
use crate::paths::{path_file_name, file_name_text};
use crate::processor::{ProcessError, user_message_spec};
use crate::text::{CharClass, trim, chars_of, trim_vec, string_of};
use crate::upscale_anime::upscale_params_problem;

verus! {

/// Whether a text is empty once white space is trimmed.
pub open spec fn blank(s: Seq<char>) -> bool {
    trim(s, CharClass::WhiteSpace).len() == 0
}

pub fn is_blank(s: &str) -> (r: bool)
    ensures
        r == blank(s@),
{
    trim_vec(&chars_of(s), CharClass::WhiteSpace).len() == 0
}

/// A request to start a batch job from the front end.
#[derive(Debug)]
pub struct StartBatchJobRequest {
    pub processor_id: String,
    pub input_paths: Vec<String>,
    pub output_dir: String,
    pub max_concurrency: Option<usize>,
    pub include_subdirectories: Option<bool>,
    pub write_report: Option<bool>,
}

/// The message of a start request that cannot run: no inputs, or a blank
/// output directory.
pub open spec fn start_request_problem(input_count: nat, output_dir: Seq<char>) -> Option<Seq<char>> {
    if input_count == 0 {
        Some("未提供输入路径。"@)
    } else if blank(output_dir) {
        Some("输出目录不能为空。"@)
    } else {
        None
    }
}

pub fn validate_start_request(request: &StartBatchJobRequest) -> (r: Result<(), String>)
    ensures
        match start_request_problem(request.input_paths@.len(), request.output_dir@) {
            Some(m) => r matches Err(t) && t@ == m,
            None => r is Ok,
        },
{
    if request.input_paths.len() == 0 {
        return Err(String::from_str("未提供输入路径。"));
    }
    if is_blank(request.output_dir.as_str()) {
        return Err(String::from_str("输出目录不能为空。"));
    }
    Ok(())
}

/// Subdirectories are included unless the request says otherwise.
pub fn include_subdirectories_of(request: &StartBatchJobRequest) -> (r: bool)
    ensures
        r == match request.include_subdirectories {
            Some(b) => b,
            None => true,
        },
{
    match request.include_subdirectories {
        Some(b) => b,
        None => true,
    }
}

/// A report is written unless the request says otherwise.
pub fn write_report_of(request: &StartBatchJobRequest) -> (r: bool)
    ensures
        r == match request.write_report {
            Some(b) => b,
            None => true,
        },
{
    match request.write_report {
        Some(b) => b,
        None => true,
    }
}

pub open spec fn is_lower_hex(c: char) -> bool {
    ('0' <= c && c <= '9') || ('a' <= c && c <= 'f')
}

/// The hyphenated form of a UUID: 36 characters, lower-case hexadecimal
/// digits with hyphens at positions 8, 13, 18 and 23.
pub open spec fn uuid_text(s: Seq<char>) -> bool {
    &&& s.len() == 36
    &&& forall|i: int| 0 <= i < 36 ==> if i == 8 || i == 13 || i == 18 || i == 23 {
        #[trigger] s[i] == '-'
    } else {
        is_lower_hex(s[i])
    }
}

/// A fresh job id: a random version 4 UUID as text
/// (`uuid::Uuid::new_v4().to_string()`, the hyphenated lower-case form).
/// Its digits are random; only the form is promised.
#[verifier::external_body]
fn new_job_id() -> (r: String)
    ensures
        uuid_text(r@),
{
    uuid::Uuid::new_v4().to_string()
}

/// How an accepted start request runs.
#[derive(Debug)]
pub struct JobStart {
    pub job_id: String,
    pub include_subdirectories: bool,
    pub write_report: bool,
}

/// Checks a start request and, when it can run, gives the job a fresh id
/// and settles its options (subdirectories and a written report unless
/// the request says otherwise).
pub fn prepare_batch_job(request: &StartBatchJobRequest) -> (r: Result<JobStart, String>)
    ensures
        match start_request_problem(request.input_paths@.len(), request.output_dir@) {
            Some(m) => r matches Err(t) && t@ == m,
            None => r matches Ok(s) && uuid_text(s.job_id@) && s.include_subdirectories == (match request.include_subdirectories {
                Some(b) => b,
                None => true,
            }) && s.write_report == (match request.write_report {
                Some(b) => b,
                None => true,
            }),
        },
{
    match validate_start_request(request) {
        Err(m) => Err(m),
        Ok(()) => Ok(JobStart {
            job_id: new_job_id(),
            include_subdirectories: include_subdirectories_of(request),
            write_report: write_report_of(request),
        }),
    }
}

/// A job id is needed to cancel a job.
pub fn validate_cancel_request(job_id: &str) -> (r: Result<(), String>)
    ensures
        blank(job_id@) ==> (r matches Err(t) && t@ == "jobId 不能为空。"@),
        !blank(job_id@) ==> r is Ok,
{
    if is_blank(job_id) {
        return Err(String::from_str("jobId 不能为空。"));
    }
    Ok(())
}

/// The path to open, trimmed; a blank path is refused.
pub fn path_to_open(path: &str) -> (r: Result<String, String>)
    ensures
        blank(path@) ==> (r matches Err(t) && t@ == "路径不能为空。"@),
        !blank(path@) ==> (r matches Ok(t) && t@ == trim(path@, CharClass::WhiteSpace)),
{
    let t = trim_vec(&chars_of(path), CharClass::WhiteSpace);
    if t.len() == 0 {
        return Err(String::from_str("路径不能为空。"));
    }
    Ok(string_of(&t))
}

/// The message of a crop request that cannot run.
pub open spec fn crop_request_problem(input_path: Seq<char>, output_path: Seq<char>, width: u32, height: u32) -> Option<Seq<char>> {
    if blank(input_path) {
        Some("输入路径不能为空。"@)
    } else if blank(output_path) {
        Some("输出路径不能为空。"@)
    } else if width == 0 || height == 0 {
        Some("裁剪宽高必须大于 0。"@)
    } else {
        None
    }
}

/// A request to crop one image.
#[derive(Debug)]
pub struct CropImageRequest {
    pub input_path: String,
    pub output_path: String,
    pub x: u32,
    pub y: u32,
    pub width: u32,
    pub height: u32,
}

/// The answer to a crop: where the result was written.
#[derive(Debug)]
pub struct CropImageResponse {
    pub output_path: String,
}

/// A request to upscale one image.
#[derive(Debug)]
pub struct UpscaleAnimeRequest {
    pub input_path: String,
    pub output_path: String,
    pub scale: u8,
    pub denoise_level: u8,
}

/// The answer to an upscale: where the result was written.
#[derive(Debug)]
pub struct UpscaleAnimeResponse {
    pub output_path: String,
}

/// Checks a single crop request: both paths given, a non-empty size.
pub fn validate_crop_request(request: &CropImageRequest) -> (r: Result<(), String>)
    ensures
        match crop_request_problem(request.input_path@, request.output_path@, request.width, request.height) {
            Some(m) => r matches Err(t) && t@ == m,
            None => r is Ok,
        },
{
    if is_blank(request.input_path.as_str()) {
        return Err(String::from_str("输入路径不能为空。"));
    }
    if is_blank(request.output_path.as_str()) {
        return Err(String::from_str("输出路径不能为空。"));
    }
    if request.width == 0 || request.height == 0 {
        return Err(String::from_str("裁剪宽高必须大于 0。"));
    }
    Ok(())
}

/// The message of an upscale request that cannot run.
pub open spec fn upscale_request_problem(input_path: Seq<char>, output_path: Seq<char>, scale: u8, denoise_level: u8) -> Option<Seq<char>> {
    if blank(input_path) {
        Some("输入路径不能为空。"@)
    } else if blank(output_path) {
        Some("输出路径不能为空。"@)
    } else {
        upscale_params_problem(scale, denoise_level)
    }
}

/// Checks a single upscale request: both paths given, a 2x or 4x scale
/// and a denoise level from 1 to 3.
pub fn validate_upscale_request(request: &UpscaleAnimeRequest) -> (r: Result<(), String>)
    ensures
        match upscale_request_problem(request.input_path@, request.output_path@, request.scale, request.denoise_level) {
            Some(m) => r matches Err(t) && t@ == m,
            None => r is Ok,
        },
{
    if is_blank(request.input_path.as_str()) {
        return Err(String::from_str("输入路径不能为空。"));
    }
    if is_blank(request.output_path.as_str()) {
        return Err(String::from_str("输出路径不能为空。"));
    }
    if request.scale != 2 && request.scale != 4 {
        return Err(String::from_str("倍率仅支持 2x 或 4x。"));
    }
    if !(1 <= request.denoise_level && request.denoise_level <= 3) {
        return Err(String::from_str("降噪等级仅支持 1-3。"));
    }
    Ok(())
}

/// How events name an input: its file name, or "input" without one.
pub open spec fn input_label_spec(path: Seq<char>) -> Seq<char> {
    match path_file_name(path) {
        Some(n) => n,
        None => "input"@,
    }
}

pub fn input_label(path: &str) -> (r: String)
    ensures
        r@ == input_label_spec(path@),
{
    match file_name_text(path) {
        Some(n) => n,
        None => String::from_str("input"),
    }
}

/// The message of a failed upscale: the bare text of validation,
/// unsupported and internal errors, the user message of the others.
pub fn upscale_error_message(e: ProcessError) -> (r: String)
    ensures
        r@ == user_message_spec(e),
{
    match e {
        ProcessError::Validation(m) => m,
        ProcessError::Unsupported(m) => m,
        ProcessError::Internal(m) => m,
        other => other.user_message(),
    }
}

} // verus!
