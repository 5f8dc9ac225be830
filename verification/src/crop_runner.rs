//! Cropping an RGBA image to a rectangle, after checking the rectangle.

use vstd::prelude::*;
use crate::pixels::{RgbaBuffer, crop_window};
use crate::processor::{ImageMetadata, ProcessError};
use crate::paths::{path_extension, extension_text};
use crate::text::{lower, chars_of, lower_vec, decimal, decimal_vec, string_of, extend_chars};

verus! {

/// A crop rectangle in pixels: top-left corner and size.
#[derive(Clone, Copy, PartialEq, Eq, Structural, Debug)]
pub struct CropRect {
    pub x: u32,
    pub y: u32,
    pub width: u32,
    pub height: u32,
}

/// Sizes of the image before and after a crop.
#[derive(Debug)]
pub struct CropImageMeta {
    pub input: ImageMetadata,
    pub output: ImageMetadata,
}

/// Image formats chosen by file extension when saving.
#[derive(Clone, Copy, PartialEq, Eq, Structural, Debug)]
pub enum OutputFormat {
    Png,
    Jpeg,
    WebP,
    Bmp,
    Tiff,
}

/// The lower-cased extension of a path.
pub open spec fn extension_of_spec(p: Seq<char>) -> Option<Seq<char>> {
    match path_extension(p) {
        Some(e) => Some(lower(e)),
        None => None,
    }
}

/// The lower-cased extension of a path (`None` without one).
pub fn extension_of(path: &str) -> (r: Option<String>)
    ensures
        r.deep_view() == extension_of_spec(path@),
{
    match extension_text(path) {
        Some(e) => {
            let low = lower_vec(&chars_of(e.as_str()));
            Some(string_of(&low))
        },
        None => None,
    }
}

/// Whether two character sequences are equal.
pub fn same_chars(a: &Vec<char>, b: &Vec<char>) -> (r: bool)
    ensures
        r == (a@ == b@),
{
    if a.len() != b.len() {
        return false;
    }
    let mut i: usize = 0;
    while i < a.len()
        invariant
            a.len() == b.len(),
            i <= a.len(),
            forall|j: int| 0 <= j < i ==> a@[j] == b@[j],
        decreases a.len() - i,
    {
        if a[i] != b[i] {
            return false;
        }
        i = i + 1;
    }
    proof {
        assert(a@ =~= b@);
    }
    true
}

/// Whether a string equals a literal.
pub fn is_text(a: &Vec<char>, lit: &str) -> (r: bool)
    ensures
        r == (a@ == lit@),
{
    same_chars(a, &chars_of(lit))
}

/// The save format that an extension selects.
pub open spec fn output_format_for(ext: Seq<char>) -> Option<OutputFormat> {
    if ext == "png"@ {
        Some(OutputFormat::Png)
    } else if ext == "jpg"@ || ext == "jpeg"@ {
        Some(OutputFormat::Jpeg)
    } else if ext == "webp"@ {
        Some(OutputFormat::WebP)
    } else if ext == "bmp"@ {
        Some(OutputFormat::Bmp)
    } else if ext == "tiff"@ || ext == "tif"@ {
        Some(OutputFormat::Tiff)
    } else {
        None
    }
}

/// The format for an already lower-cased extension.
pub fn output_format_for_extension(ext: &Vec<char>) -> (r: Option<OutputFormat>)
    ensures
        r == output_format_for(ext@),
{
    if is_text(ext, "png") {
        Some(OutputFormat::Png)
    } else if is_text(ext, "jpg") || is_text(ext, "jpeg") {
        Some(OutputFormat::Jpeg)
    } else if is_text(ext, "webp") {
        Some(OutputFormat::WebP)
    } else if is_text(ext, "bmp") {
        Some(OutputFormat::Bmp)
    } else if is_text(ext, "tiff") || is_text(ext, "tif") {
        Some(OutputFormat::Tiff)
    } else {
        None
    }
}

/// The format in which an output path is saved; `None` lets the encoder
/// guess from the path.
pub fn parse_output_format(path: &str) -> (r: Option<OutputFormat>)
    ensures
        r == (match extension_of_spec(path@) {
            Some(e) => output_format_for(e),
            None => None,
        }),
{
    match extension_of(path) {
        Some(e) => output_format_for_extension(&chars_of(e.as_str())),
        None => None,
    }
}

/// Message for a rectangle whose origin lies outside the image.
pub open spec fn origin_message(w: u32, h: u32) -> Seq<char> {
    "裁剪起点超出图片尺寸（图片: "@ + decimal(w as nat) + "x"@ + decimal(h as nat) + "）。"@
}

/// Message for a rectangle that reaches past the image.
pub open spec fn range_message(r: CropRect, w: u32, h: u32) -> Seq<char> {
    "裁剪范围超出图片尺寸（图片: "@ + decimal(w as nat) + "x"@ + decimal(h as nat) + "，裁剪: x="@
        + decimal(r.x as nat) + ", y="@ + decimal(r.y as nat) + ", w="@ + decimal(r.width as nat)
        + ", h="@ + decimal(r.height as nat) + "）。"@
}

/// The check that `validate_crop_rect` performs, as a value: `None` when the
/// rectangle is usable, otherwise the validation message.
pub open spec fn crop_rect_problem(r: CropRect, w: u32, h: u32) -> Option<Seq<char>> {
    if r.width == 0 || r.height == 0 {
        Some("裁剪宽高必须大于 0。"@)
    } else if r.x >= w || r.y >= h {
        Some(origin_message(w, h))
    } else if r.x.saturating_add(r.width) > w || r.y.saturating_add(r.height) > h {
        Some(range_message(r, w, h))
    } else {
        None
    }
}

fn push_text(v: &mut Vec<char>, s: &str)
    ensures
        final(v)@ == old(v)@ + s@,
{
    extend_chars(v, &chars_of(s));
}

/// Checks that a crop rectangle is non-empty and lies inside a
/// `width` x `height` image.
pub fn validate_crop_rect(rect: CropRect, width: u32, height: u32) -> (r: Result<(), ProcessError>)
    ensures
        r is Ok <==> crop_rect_problem(rect, width, height) is None,
        r matches Err(e) ==> e matches ProcessError::Validation(m) && Some(m@) == crop_rect_problem(rect, width, height),
{
    if rect.width == 0 || rect.height == 0 {
        return Err(ProcessError::Validation(String::from_str("裁剪宽高必须大于 0。")));
    }
    if rect.x >= width || rect.y >= height {
        let mut m: Vec<char> = Vec::new();
        push_text(&mut m, "裁剪起点超出图片尺寸（图片: ");
        extend_chars(&mut m, &decimal_vec(width));
        push_text(&mut m, "x");
        extend_chars(&mut m, &decimal_vec(height));
        push_text(&mut m, "）。");
        return Err(ProcessError::Validation(string_of(&m)));
    }
    if rect.x.saturating_add(rect.width) > width || rect.y.saturating_add(rect.height) > height {
        let mut m: Vec<char> = Vec::new();
        push_text(&mut m, "裁剪范围超出图片尺寸（图片: ");
        extend_chars(&mut m, &decimal_vec(width));
        push_text(&mut m, "x");
        extend_chars(&mut m, &decimal_vec(height));
        push_text(&mut m, "，裁剪: x=");
        extend_chars(&mut m, &decimal_vec(rect.x));
        push_text(&mut m, ", y=");
        extend_chars(&mut m, &decimal_vec(rect.y));
        push_text(&mut m, ", w=");
        extend_chars(&mut m, &decimal_vec(rect.width));
        push_text(&mut m, ", h=");
        extend_chars(&mut m, &decimal_vec(rect.height));
        push_text(&mut m, "）。");
        return Err(ProcessError::Validation(string_of(&m)));
    }
    Ok(())
}

/// The size of the window that is cut out: the rectangle, clipped to the
/// image as `imageops::crop_imm` clips it.
pub open spec fn clipped_width(rect: CropRect, w: u32) -> int {
    if rect.width <= w - rect.x { rect.width as int } else { w - rect.x }
}

pub open spec fn clipped_height(rect: CropRect, h: u32) -> int {
    if rect.height <= h - rect.y { rect.height as int } else { h - rect.y }
}

/// Crops `source` to `rect` after validating it. On success the result
/// is the window of `source` at `(rect.x, rect.y)`, pixel for pixel.
pub fn crop_rgba_image(source: &RgbaBuffer, rect: CropRect) -> (r: Result<RgbaBuffer, ProcessError>)
    requires
        source.wf(),
    ensures
        r is Ok <==> crop_rect_problem(rect, source.w() as u32, source.h() as u32) is None,
        r matches Err(e) ==> e matches ProcessError::Validation(m) && Some(m@) == crop_rect_problem(rect, source.w() as u32, source.h() as u32),
        r matches Ok(img) ==> {
            &&& img.wf()
            &&& img.w() == clipped_width(rect, source.w() as u32)
            &&& img.h() == clipped_height(rect, source.h() as u32)
            &&& forall|i: int, j: int| #![trigger img.px(i, j)] img.contains(i, j) ==> img.px(i, j) == source.px(rect.x + i, rect.y + j)
        },
{
    let (width, height) = source.dimensions();
    match validate_crop_rect(rect, width, height) {
        Err(e) => Err(e),
        Ok(()) => {
            let cw = if rect.width <= width - rect.x { rect.width } else { width - rect.x };
            let ch = if rect.height <= height - rect.y { rect.height } else { height - rect.y };
            Ok(crop_window(source, rect.x, rect.y, cw, ch))
        },
    }
}

/// Metadata for an RGBA8 image of the given size.
pub fn rgba8_meta(width: u32, height: u32) -> (m: ImageMetadata)
    ensures
        m.width == width,
        m.height == height,
        m.format matches Some(f) && f@ == "rgba8"@,
{
    ImageMetadata { width, height, format: Some(String::from_str("rgba8")) }
}

/// The crop of an already decoded image and the sizes before and after;
/// reading and writing the files is left to the caller.
pub fn crop_image_file(source: &RgbaBuffer, rect: CropRect) -> (r: Result<(RgbaBuffer, CropImageMeta), ProcessError>)
    requires
        source.wf(),
    ensures
        r is Ok <==> crop_rect_problem(rect, source.w() as u32, source.h() as u32) is None,
        r matches Err(e) ==> e matches ProcessError::Validation(m) && Some(m@) == crop_rect_problem(rect, source.w() as u32, source.h() as u32),
        r matches Ok((img, meta)) ==> {
            &&& img.wf()
            &&& img.w() == clipped_width(rect, source.w() as u32)
            &&& img.h() == clipped_height(rect, source.h() as u32)
            &&& forall|i: int, j: int| #![trigger img.px(i, j)] img.contains(i, j) ==> img.px(i, j) == source.px(rect.x + i, rect.y + j)
            &&& meta.input.width == source.w() && meta.input.height == source.h()
            &&& meta.output.width == img.w() && meta.output.height == img.h()
            &&& meta.input.format matches Some(f) && f@ == "rgba8"@
            &&& meta.output.format matches Some(f) && f@ == "rgba8"@
        },
{
    let (w, h) = source.dimensions();
    let input = rgba8_meta(w, h);
    match crop_rgba_image(source, rect) {
        Err(e) => Err(e),
        Ok(cropped) => {
            let (cw, ch) = cropped.dimensions();
            let output = rgba8_meta(cw, ch);
            Ok((cropped, CropImageMeta { input, output }))
        },
    }
}

} // verus!
