//! Image compression: parameter checks, which inputs are compressed and in
//! which format, and the colour reduction of lossy PNG output. Encoding
//! happens outside this crate.

use vstd::prelude::*;
use crate::crop_runner::{OutputFormat, output_format_for, extension_of, extension_of_spec, is_text};
use crate::pixels::{Rgba8, RgbaBuffer, encode_png_best, encode_jpeg_quality, encode_webp_lossless};
use crate::codec::{encoded_png_best, encoded_jpeg_quality, encoded_webp_lossless, encoded_rgba, format_ext, encode_image};
use crate::processor::{ProcessError, ProcessResult, ProcessStatus, ProcessorDescriptor};
use crate::text::chars_of;

verus! {

/// Parameters: the quality (1 to 100) and, optionally, the strategy
/// (`lossy`, `lossless` or `balanced`).
#[derive(Debug)]
pub struct CompressParams {
    pub quality: u8,
    pub mode: Option<String>,
}

/// The compression strategies.
#[derive(Clone, Copy, PartialEq, Eq, Structural, Debug)]
pub enum CompressMode {
    Lossy,
    Lossless,
    Balanced,
}

pub open spec fn compress_mode_of(raw: Seq<char>) -> Option<CompressMode> {
    if raw == "lossy"@ {
        Some(CompressMode::Lossy)
    } else if raw == "lossless"@ {
        Some(CompressMode::Lossless)
    } else if raw == "balanced"@ {
        Some(CompressMode::Balanced)
    } else {
        None
    }
}

pub fn parse_compress_mode(raw: &str) -> (r: Option<CompressMode>)
    ensures
        r == compress_mode_of(raw@),
{
    let k = chars_of(raw);
    if is_text(&k, "lossy") {
        Some(CompressMode::Lossy)
    } else if is_text(&k, "lossless") {
        Some(CompressMode::Lossless)
    } else if is_text(&k, "balanced") {
        Some(CompressMode::Balanced)
    } else {
        None
    }
}

/// The strategy of the parameters; `balanced` when none is given.
pub open spec fn effective_mode(p: CompressParams) -> Option<CompressMode> {
    match p.mode {
        Some(m) => compress_mode_of(m@),
        None => Some(CompressMode::Balanced),
    }
}

/// The message of the first bad parameter: quality, then mode.
pub open spec fn compress_params_problem(p: CompressParams) -> Option<Seq<char>> {
    if !(1 <= p.quality <= 100) {
        Some("quality 必须在 1 到 100 之间。"@)
    } else if effective_mode(p) is None {
        Some("mode 仅支持 lossy/lossless/balanced。"@)
    } else {
        None
    }
}

/// What compressing one input amounts to.
#[derive(Debug)]
pub enum CompressPlan {
    /// The input format is not compressed; the message says so.
    Skip(String),
    /// Encode in `format` at `quality` with the strategy `mode`.
    Encode { format: OutputFormat, quality: u8, mode: CompressMode },
}

/// The plan for an input path: BMP and TIFF inputs are skipped, PNG, JPEG
/// and WebP inputs are encoded again in their own format, anything else is
/// unsupported.
pub open spec fn compress_plan_for(p: CompressParams, input_path: Seq<char>) -> Result<Option<OutputFormat>, Seq<char>> {
    match extension_of_spec(input_path) {
        Some(e) => match output_format_for(e) {
            Some(OutputFormat::Bmp) => Ok(None),
            Some(OutputFormat::Tiff) => Ok(None),
            Some(f) => Ok(Some(f)),
            None => Err("仅支持压缩 PNG/JPG/WEBP 图片。"@),
        },
        None => Err("仅支持压缩 PNG/JPG/WEBP 图片。"@),
    }
}

/// Quantisation step of lossy PNG output: 1 at quality 100, one more for
/// every ten points below.
pub open spec fn quantize_step(quality: u8) -> int {
    1 + (100 - quality) / 10
}

/// A channel value rounded down to a multiple of the step.
pub open spec fn quantized(v: u8, quality: u8) -> u8 {
    ((v as int / quantize_step(quality)) * quantize_step(quality)) as u8
}

pub open spec fn quantized_px(p: Rgba8, quality: u8) -> Rgba8 {
    Rgba8 { r: quantized(p.r, quality), g: quantized(p.g, quality), b: quantized(p.b, quality), a: p.a }
}

fn quantize_channel(v: u8, step: u8) -> (r: u8)
    requires
        1 <= step,
    ensures
        r == (v / step) * step,
{
    assert((v / step) * step <= v) by (nonlinear_arith)
        requires
            1 <= step,
    ;
    (v / step) * step
}

/// The image with every colour channel quantised (alpha is kept), which
/// makes a lossy PNG smaller.
pub fn quantize_colors(img: &RgbaBuffer, quality: u8) -> (out: RgbaBuffer)
    requires
        img.wf(),
        1 <= quality <= 100,
    ensures
        out.wf(),
        out.w() == img.w(),
        out.h() == img.h(),
        forall|x: int, y: int| #![trigger out.px(x, y)] out.contains(x, y) ==> out.px(x, y) == quantized_px(img.px(x, y), quality),
{
    let step: u8 = 1 + (100 - quality) / 10;
    let mut out = img.duplicate();
    let (w, h) = img.dimensions();
    let mut y: u32 = 0;
    while y < h
        invariant
            img.wf(),
            out.wf(),
            w == img.w(),
            h == img.h(),
            out.w() == w,
            out.h() == h,
            step == quantize_step(quality),
            1 <= quality <= 100,
            y <= h,
            forall|a: int, b: int| #![trigger out.px(a, b)] out.contains(a, b) ==> out.px(a, b) == (
                if b < y { quantized_px(img.px(a, b), quality) } else { img.px(a, b) }),
        decreases h - y,
    {
        let mut x: u32 = 0;
        while x < w
            invariant
                img.wf(),
                out.wf(),
                w == img.w(),
                h == img.h(),
                out.w() == w,
                out.h() == h,
                step == quantize_step(quality),
                1 <= quality <= 100,
                y < h,
                x <= w,
                forall|a: int, b: int| #![trigger out.px(a, b)] out.contains(a, b) ==> out.px(a, b) == (
                    if b < y || (b == y && a < x) { quantized_px(img.px(a, b), quality) } else { img.px(a, b) }),
            decreases w - x,
        {
            let p = img.get_pixel(x, y);
            let q = Rgba8 {
                r: quantize_channel(p.r, step),
                g: quantize_channel(p.g, step),
                b: quantize_channel(p.b, step),
                a: p.a,
            };
            out.put_pixel(x, y, q);
            x = x + 1;
        }
        y = y + 1;
    }
    out
}

/// The compression processor (listed, but not yet offered to the user).
#[derive(Clone, Copy, Debug)]
pub struct CompressProcessor;

impl CompressProcessor {
    pub fn descriptor(&self) -> (d: ProcessorDescriptor)
        ensures
            d.id@ == "compress"@,
            d.display_name@ == "图像压缩"@,
            !d.enabled,
            d.notes@ == "扩展预留：后续将支持有损/无损压缩策略。"@,
    {
        ProcessorDescriptor {
            id: String::from_str("compress"),
            display_name: String::from_str("图像压缩"),
            enabled: false,
            notes: String::from_str("扩展预留：后续将支持有损/无损压缩策略。"),
        }
    }

    pub fn validate(&self, params: &CompressParams) -> (r: Result<(), ProcessError>)
        ensures
            r is Ok <==> compress_params_problem(*params) is None,
            r matches Err(e) ==> e matches ProcessError::Validation(m) && Some(m@) == compress_params_problem(*params),
    {
        if !(1 <= params.quality && params.quality <= 100) {
            return Err(ProcessError::Validation(String::from_str("quality 必须在 1 到 100 之间。")));
        }
        match &params.mode {
            Some(m) => {
                if parse_compress_mode(m.as_str()).is_none() {
                    return Err(ProcessError::Validation(String::from_str("mode 仅支持 lossy/lossless/balanced。")));
                }
            },
            None => {},
        }
        Ok(())
    }

    /// The plan for one input, after the parameters were checked.
    pub fn plan(&self, params: &CompressParams, input_path: &str) -> (r: Result<CompressPlan, ProcessError>)
        requires
            compress_params_problem(*params) is None,
        ensures
            match compress_plan_for(*params, input_path@) {
                Ok(None) => r matches Ok(CompressPlan::Skip(m)) && m@ == "暂不支持 BMP/TIFF 压缩，已跳过。"@,
                Ok(Some(f)) => r matches Ok(CompressPlan::Encode { format, quality, mode })
                    && format == f && quality == params.quality && Some(mode) == effective_mode(*params),
                Err(m) => r matches Err(e) && e matches ProcessError::Unsupported(t) && t@ == m,
            },
    {
        let mode = match &params.mode {
            Some(m) => match parse_compress_mode(m.as_str()) {
                Some(k) => k,
                None => CompressMode::Balanced,
            },
            None => CompressMode::Balanced,
        };
        let format = match extension_of(input_path) {
            Some(e) => crate::crop_runner::output_format_for_extension(&chars_of(e.as_str())),
            None => None,
        };
        match format {
            Some(OutputFormat::Bmp) | Some(OutputFormat::Tiff) => Ok(CompressPlan::Skip(String::from_str("暂不支持 BMP/TIFF 压缩，已跳过。"))),
            Some(f) => Ok(CompressPlan::Encode { format: f, quality: params.quality, mode }),
            None => Err(ProcessError::Unsupported(String::from_str("仅支持压缩 PNG/JPG/WEBP 图片。"))),
        }
    }

    /// The compressed bytes of an image in the planned format: PNG at the
    /// best compression (colours reduced first in lossy mode), JPEG at the
    /// quality, WebP lossless, and BMP or TIFF as the plain encoder writes
    /// them.
    pub fn compress_encode(&self, img: &RgbaBuffer, format: OutputFormat, quality: u8, mode: CompressMode)
        -> (r: Result<Vec<u8>, ProcessError>)
        requires
            img.wf(),
            1 <= quality <= 100,
        ensures
            match format {
                OutputFormat::Png => if mode == CompressMode::Lossy {
                    exists|q: RgbaBuffer| {
                        &&& #[trigger] q.wf() && q.w() == img.w() && q.h() == img.h()
                        &&& (forall|x: int, y: int| #![trigger q.px(x, y)] q.contains(x, y) ==> q.px(x, y) == quantized_px(img.px(x, y), quality))
                        &&& match encoded_png_best(q.w(), q.h(), q.pixels_view()) {
                            Some(b) => r matches Ok(v) && v@ == b,
                            None => r matches Err(ProcessError::Image(_)),
                        }
                    }
                } else {
                    match encoded_png_best(img.w(), img.h(), img.pixels_view()) {
                        Some(b) => r matches Ok(v) && v@ == b,
                        None => r matches Err(ProcessError::Image(_)),
                    }
                },
                OutputFormat::Jpeg => match encoded_jpeg_quality(img.w(), img.h(), img.pixels_view(), quality) {
                    Some(b) => r matches Ok(v) && v@ == b,
                    None => r matches Err(ProcessError::Image(_)),
                },
                OutputFormat::WebP => match encoded_webp_lossless(img.w(), img.h(), img.pixels_view()) {
                    Some(b) => r matches Ok(v) && v@ == b,
                    None => r matches Err(ProcessError::Image(_)),
                },
                _ => match encoded_rgba(img.w(), img.h(), img.pixels_view(), format_ext(format)) {
                    Some(b) => r matches Ok(v) && v@ == b,
                    None => r matches Err(ProcessError::Image(_)),
                },
            },
    {
        let encoded = match format {
            OutputFormat::Png => {
                if mode == CompressMode::Lossy {
                    let q = quantize_colors(img, quality);
                    let e = encode_png_best(&q);
                    assert(q.wf() && q.w() == img.w() && q.h() == img.h());
                    e
                } else {
                    encode_png_best(img)
                }
            },
            OutputFormat::Jpeg => encode_jpeg_quality(img, quality),
            OutputFormat::WebP => encode_webp_lossless(img),
            _ => return encode_image(img, format),
        };
        match encoded {
            Ok(v) => Ok(v),
            Err(m) => Err(ProcessError::Image(m)),
        }
    }

    /// The report of a compressed file written to `output_path`.
    pub fn compress_result(&self, output_path: &str) -> (r: ProcessResult)
        ensures
            r.status == ProcessStatus::Success,
            r.message@ == "压缩完成。"@,
            r.output_path matches Some(p) && p@ == output_path@,
            r.input_metadata is None,
            r.output_metadata is None,
    {
        ProcessResult::success(String::from_str("压缩完成。"), output_path.to_string())
    }
}

} // verus!
