//! What every processor reports: result status, metadata, descriptors and
//! errors.

use vstd::prelude::*;
use crate::pixels::RgbaBuffer;

verus! {

/// Size and format of an image before or after a step.
#[derive(Debug)]
pub struct ImageMetadata {
    pub width: u32,
    pub height: u32,
    pub format: Option<String>,
}

/// How a single processing step ended.
#[derive(Clone, Copy, PartialEq, Eq, Structural, Debug)]
pub enum ProcessStatus {
    Success,
    Skipped,
}

/// The outcome of one processor on one file.
#[derive(Debug)]
pub struct ProcessResult {
    pub status: ProcessStatus,
    pub message: String,
    pub output_path: Option<String>,
    pub input_metadata: Option<ImageMetadata>,
    pub output_metadata: Option<ImageMetadata>,
}

impl ProcessResult {
    /// A successful result that wrote `output_path`, without metadata.
    pub fn success(message: String, output_path: String) -> (r: ProcessResult)
        ensures
            r.status == ProcessStatus::Success,
            r.message@ == message@,
            r.output_path matches Some(p) && p@ == output_path@,
            r.input_metadata is None,
            r.output_metadata is None,
    {
        ProcessResult {
            status: ProcessStatus::Success,
            message,
            output_path: Some(output_path),
            input_metadata: None,
            output_metadata: None,
        }
    }

    /// A skipped result: nothing was written.
    pub fn skipped(message: String) -> (r: ProcessResult)
        ensures
            r.status == ProcessStatus::Skipped,
            r.message@ == message@,
            r.output_path is None,
            r.input_metadata is None,
            r.output_metadata is None,
    {
        ProcessResult {
            status: ProcessStatus::Skipped,
            message,
            output_path: None,
            input_metadata: None,
            output_metadata: None,
        }
    }
}

/// What a processor tells the front end about itself.
#[derive(Debug)]
pub struct ProcessorDescriptor {
    pub id: String,
    pub display_name: String,
    pub enabled: bool,
    pub notes: String,
}

/// Why a processor failed. The payload of `Io`, `Image` and `Json` is the
/// text of the underlying error.
#[derive(Debug)]
pub enum ProcessError {
    Validation(String),
    Unsupported(String),
    Io(String),
    Image(String),
    Json(String),
    Internal(String),
}

/// The variant of an error, without its text.
#[derive(Clone, Copy, PartialEq, Eq, Structural, Debug)]
pub enum ErrorKind {
    Validation,
    Unsupported,
    Io,
    Image,
    Json,
    Internal,
}

/// An error as its variant and its text.
pub open spec fn error_view(e: ProcessError) -> (ErrorKind, Seq<char>) {
    match e {
        ProcessError::Validation(m) => (ErrorKind::Validation, m@),
        ProcessError::Unsupported(m) => (ErrorKind::Unsupported, m@),
        ProcessError::Io(m) => (ErrorKind::Io, m@),
        ProcessError::Image(m) => (ErrorKind::Image, m@),
        ProcessError::Json(m) => (ErrorKind::Json, m@),
        ProcessError::Internal(m) => (ErrorKind::Internal, m@),
    }
}

/// The text shown to the user for an error.
pub open spec fn user_message_spec(e: ProcessError) -> Seq<char> {
    match e {
        ProcessError::Validation(m) => m@,
        ProcessError::Unsupported(m) => m@,
        ProcessError::Internal(m) => m@,
        ProcessError::Io(m) => "文件读写失败: "@ + m@,
        ProcessError::Image(m) => "图片解析失败: "@ + m@,
        ProcessError::Json(m) => "参数格式错误: "@ + m@,
    }
}

/// Whether an error is a parameter validation error.
pub open spec fn is_validation(r: Result<(), ProcessError>) -> bool {
    r matches Err(ProcessError::Validation(_))
}

impl ProcessError {
    /// The message for the user: the bare text for validation, unsupported
    /// and internal errors, a prefixed one for I/O, image and parameter
    /// format errors.
    pub fn user_message(&self) -> (r: String)
        ensures
            r@ == user_message_spec(*self),
    {
        match self {
            ProcessError::Validation(m) => m.clone(),
            ProcessError::Unsupported(m) => m.clone(),
            ProcessError::Internal(m) => m.clone(),
            ProcessError::Io(m) => {
                let mut r = String::from_str("文件读写失败: ");
                r.append(m.as_str());
                r
            },
            ProcessError::Image(m) => {
                let mut r = String::from_str("图片解析失败: ");
                r.append(m.as_str());
                r
            },
            ProcessError::Json(m) => {
                let mut r = String::from_str("参数格式错误: ");
                r.append(m.as_str());
                r
            },
        }
    }
}

/// What a processor produced for one decoded image: the result to report
/// and, when it is `Some`, the image to be written to `result.output_path`.
#[derive(Debug)]
pub struct ImageOutcome {
    pub result: ProcessResult,
    pub image: Option<RgbaBuffer>,
}

/// A validation error with the given message.
pub fn validation_error(msg: &str) -> (e: ProcessError)
    ensures
        e matches ProcessError::Validation(m) && m@ == msg@,
{
    ProcessError::Validation(String::from_str(msg))
}

} // verus!
