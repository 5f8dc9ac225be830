//! Image format conversion: which formats are accepted, where the output
//! goes and what is reported. Decoding, flattening onto white and encoding
//! happen outside this crate.

use vstd::prelude::*;
use crate::crop_runner::{OutputFormat, output_format_for, output_format_for_extension, is_text};
use crate::paths::{path_extension, path_file_name, extension_text, path_with_extension, with_extension_text};
use crate::processor::{ImageMetadata, ProcessError, ProcessResult, ProcessStatus, ProcessorDescriptor};
use crate::text::{CharClass, trim, lower, chars_of, trim_vec, lower_vec, string_of};

verus! {

/// Parameters: the wanted format, as the user wrote it.
#[derive(Debug)]
pub struct FormatConvertParams {
    pub target_format: String,
}

/// `raw` trimmed of white space and lower-cased.
pub open spec fn format_key(raw: Seq<char>) -> Seq<char> {
    lower(trim(raw, CharClass::WhiteSpace))
}

/// The accepted targets: the extension written and the format encoded.
/// "jpeg" is written as "jpg"; "tif" is not accepted as a target.
pub open spec fn target_format_of(raw: Seq<char>) -> Option<(Seq<char>, OutputFormat)> {
    let k = format_key(raw);
    if k == "png"@ {
        Some(("png"@, OutputFormat::Png))
    } else if k == "jpg"@ || k == "jpeg"@ {
        Some(("jpg"@, OutputFormat::Jpeg))
    } else if k == "webp"@ {
        Some(("webp"@, OutputFormat::WebP))
    } else if k == "bmp"@ {
        Some(("bmp"@, OutputFormat::Bmp))
    } else if k == "tiff"@ {
        Some(("tiff"@, OutputFormat::Tiff))
    } else {
        None
    }
}

pub fn parse_target_format(raw: &str) -> (r: Option<(String, OutputFormat)>)
    ensures
        match target_format_of(raw@) {
            Some((ext, f)) => r matches Some((e, g)) && e@ == ext && g == f,
            None => r is None,
        },
{
    let k = lower_vec(&trim_vec(&chars_of(raw), CharClass::WhiteSpace));
    if is_text(&k, "png") {
        Some((String::from_str("png"), OutputFormat::Png))
    } else if is_text(&k, "jpg") || is_text(&k, "jpeg") {
        Some((String::from_str("jpg"), OutputFormat::Jpeg))
    } else if is_text(&k, "webp") {
        Some((String::from_str("webp"), OutputFormat::WebP))
    } else if is_text(&k, "bmp") {
        Some((String::from_str("bmp"), OutputFormat::Bmp))
    } else if is_text(&k, "tiff") {
        Some((String::from_str("tiff"), OutputFormat::Tiff))
    } else {
        None
    }
}

/// The format that the extension of `path` names (trimmed, lower-cased;
/// "tif" counts as TIFF), used when guessing from the content fails.
pub open spec fn input_format_of(path: Seq<char>) -> Option<OutputFormat> {
    match path_extension(path) {
        Some(e) => output_format_for(format_key(e)),
        None => None,
    }
}

pub fn parse_input_format_by_extension(path: &str) -> (r: Option<OutputFormat>)
    ensures
        r == input_format_of(path@),
{
    match extension_text(path) {
        Some(e) => output_format_for_extension(&lower_vec(&trim_vec(&chars_of(e.as_str()), CharClass::WhiteSpace))),
        None => None,
    }
}

/// The extension of an accepted target is not empty and holds no path
/// separator and no dot.
proof fn lemma_target_extension_plain(raw: Seq<char>)
    ensures
        target_format_of(raw) matches Some((e, _)) ==> !e.contains('/') && !e.contains('\\')
            && !e.contains('.') && e.len() > 0,
{
    reveal_strlit("png");
    reveal_strlit("jpg");
    reveal_strlit("webp");
    reveal_strlit("bmp");
    reveal_strlit("tiff");
    if let Some((e, _)) = target_format_of(raw) {
        assert forall|i: int| 0 <= i < e.len() implies e[i] != '/' && e[i] != '\\' by {
            assert(e[i] == e[0] || e[i] == e[1] || e[i] == e[2] || e[i] == e[3]);
        }
        assert forall|i: int| 0 <= i < e.len() implies e[i] != '.' by {
            assert(e[i] == e[0] || e[i] == e[1] || e[i] == e[2] || e[i] == e[3]);
        }
    }
}

/// A conversion writes the format that its file's extension names: for
/// every accepted target, reading the written extension back gives the
/// encoded format, and converting to a format never changes it.
pub proof fn law_target_extension_names_its_format(raw: Seq<char>)
    ensures
        target_format_of(raw) matches Some((e, f)) ==> output_format_for(e) == Some(f),
        target_format_of(raw) matches Some((e, f)) ==> target_format_of(e) == Some((e, f)),
{
    reveal_strlit("png");
    reveal_strlit("jpg");
    reveal_strlit("jpeg");
    reveal_strlit("webp");
    reveal_strlit("bmp");
    reveal_strlit("tiff");
    reveal_strlit("tif");
    if let Some((e, f)) = target_format_of(raw) {
        assert forall|i: int| 0 <= i < e.len() implies 'a' <= #[trigger] e[i] <= 'z' by {
            assert(e[i] == e[0] || e[i] == e[1] || e[i] == e[2] || e[i] == e[3]);
        }
        lemma_plain_key(e);
    }
}

/// An extension without white space or upper-case letters is its own key.
proof fn lemma_plain_key(e: Seq<char>)
    requires
        forall|i: int| 0 <= i < e.len() ==> 'a' <= #[trigger] e[i] <= 'z',
    ensures
        format_key(e) == e,
{
    assert forall|i: int| 0 <= i < e.len() implies !crate::text::is_white_space(#[trigger] e[i]) by {
        assert(97 <= e[i] as u32 <= 122);
    }
    crate::text::lemma_trim_plain(e);
    assert(lower(e) =~= e);
}

/// Where a conversion writes and in which format.
#[derive(Debug)]
pub struct ConversionPlan {
    pub output_path: String,
    pub extension: String,
    pub format: OutputFormat,
}

/// The image format conversion processor.
#[derive(Clone, Copy, Debug)]
pub struct FormatConvertProcessor;

impl FormatConvertProcessor {
    pub fn descriptor(&self) -> (d: ProcessorDescriptor)
        ensures
            d.id@ == "format-convert"@,
            d.display_name@ == "图像格式转换"@,
            d.enabled,
            d.notes@ == "支持 PNG/JPG/WEBP 格式互转。"@,
    {
        ProcessorDescriptor {
            id: String::from_str("format-convert"),
            display_name: String::from_str("图像格式转换"),
            enabled: true,
            notes: String::from_str("支持 PNG/JPG/WEBP 格式互转。"),
        }
    }

    /// Accepts exactly the targets of `target_format_of`.
    pub fn validate(&self, params: &FormatConvertParams) -> (r: Result<(), ProcessError>)
        ensures
            r is Ok <==> target_format_of(params.target_format@) is Some,
            r matches Err(e) ==> e matches ProcessError::Validation(m)
                && m@ == "targetFormat 不受支持，请使用 png/jpg/webp/bmp/tiff"@,
    {
        match parse_target_format(params.target_format.as_str()) {
            Some(_) => Ok(()),
            None => Err(ProcessError::Validation(String::from_str("targetFormat 不受支持，请使用 png/jpg/webp/bmp/tiff"))),
        }
    }

    /// The output path with the target's extension, and the format to
    /// encode; the validation error for an unknown target.
    pub fn plan(&self, params: &FormatConvertParams, output_path: &str) -> (r: Result<ConversionPlan, ProcessError>)
        ensures
            match target_format_of(params.target_format@) {
                Some((ext, f)) => r matches Ok(p) && p.extension@ == ext && p.format == f
                    && p.output_path@ == path_with_extension(output_path@, ext)
                    && (path_file_name(output_path@) is Some ==> path_extension(p.output_path@) == Some(ext)),
                None => r matches Err(e) && e matches ProcessError::Validation(m)
                    && m@ == "targetFormat 不受支持，请使用 png/jpg/webp/bmp/tiff"@,
            },
    {
        match parse_target_format(params.target_format.as_str()) {
            Some((ext, format)) => {
                proof {
                    lemma_target_extension_plain(params.target_format@);
                }
                let out = with_extension_text(output_path, ext.as_str());
                Ok(ConversionPlan { output_path: out, extension: ext, format })
            },
            None => Err(ProcessError::Validation(String::from_str("targetFormat 不受支持，请使用 png/jpg/webp/bmp/tiff"))),
        }
    }

    /// The report of a finished conversion: the source size, and the size
    /// read back from the written file.
    pub fn conversion_result(&self, plan: &ConversionPlan, source_size: (u32, u32), output_size: (u32, u32)) -> (r: ProcessResult)
        ensures
            r.status == ProcessStatus::Success,
            r.message@ == "格式转换完成。"@,
            r.output_path matches Some(p) && p@ == plan.output_path@,
            r.input_metadata matches Some(m) && m.width == source_size.0 && m.height == source_size.1
                && (m.format matches Some(f) && f@ == "source"@),
            r.output_metadata matches Some(m) && m.width == output_size.0 && m.height == output_size.1
                && (m.format matches Some(f) && f@ == plan.extension@),
    {
        let mut result = ProcessResult::success(String::from_str("格式转换完成。"), plan.output_path.clone());
        result.input_metadata = Some(ImageMetadata {
            width: source_size.0,
            height: source_size.1,
            format: Some(String::from_str("source")),
        });
        result.output_metadata = Some(ImageMetadata {
            width: output_size.0,
            height: output_size.1,
            format: Some(plan.extension.clone()),
        });
        result
    }
}

} // verus!
