//! Turning the bytes of an image file into pixels and back. The codecs
//! are those of the `image` crate; which format is tried, and what is
//! done when a decode fails, is decided here.

use vstd::prelude::*;
use crate::crop_runner::{OutputFormat, extension_of_spec, output_format_for, parse_output_format, rgba8_meta};
use crate::format_convert::{input_format_of, parse_input_format_by_extension};
use crate::pixels::{Rgba8, RgbaBuffer, opaque_pixels, decode_rgba, decode_rgba_as, encode_rgba, encode_rgba_by_path};
use crate::processor::{ImageMetadata, ProcessError};

verus! {

/// What `image::ImageReader` decodes from the bytes of the file at `path`
/// (format guessed from the content, else named by the path), as RGBA8:
/// width, height and row-major pixels; `None` when decoding fails.
pub uninterp spec fn decoded_rgba(bytes: Seq<u8>, path: Seq<char>) -> Option<(u32, u32, Seq<Rgba8>)>;

/// What the `image` crate decodes from `bytes` in the format that the
/// extension `ext` names, as RGBA8; `None` when decoding fails.
pub uninterp spec fn decoded_rgba_as(bytes: Seq<u8>, ext: Seq<char>) -> Option<(u32, u32, Seq<Rgba8>)>;

/// The bytes that the `image` crate writes for a `w` x `h` RGBA8 image in
/// the format that the extension `ext` names; `None` when encoding fails.
pub uninterp spec fn encoded_rgba(w: nat, h: nat, px: Seq<Rgba8>, ext: Seq<char>) -> Option<Seq<u8>>;

/// The bytes that the `image` crate writes for a `w` x `h` RGBA8 image in
/// the format that `path` names; `None` when encoding fails.
pub uninterp spec fn encoded_rgba_by_path(w: nat, h: nat, px: Seq<Rgba8>, path: Seq<char>) -> Option<Seq<u8>>;

/// The bytes of the PNG encoder at its best compression with adaptive
/// filtering; `None` when encoding fails.
pub uninterp spec fn encoded_png_best(w: nat, h: nat, px: Seq<Rgba8>) -> Option<Seq<u8>>;

/// The bytes of the JPEG encoder at `quality`; `None` when encoding fails.
pub uninterp spec fn encoded_jpeg_quality(w: nat, h: nat, px: Seq<Rgba8>, quality: u8) -> Option<Seq<u8>>;

/// The bytes of the lossless WebP encoder; `None` when encoding fails.
pub uninterp spec fn encoded_webp_lossless(w: nat, h: nat, px: Seq<Rgba8>) -> Option<Seq<u8>>;

/// `img` holds the decoded image `d`: its size and its pixels.
pub open spec fn holds_image(img: RgbaBuffer, d: (u32, u32, Seq<Rgba8>)) -> bool {
    &&& img.wf()
    &&& img.w() == d.0
    &&& img.h() == d.1
    &&& img.pixels_view() == d.2
}

/// The extension that names a format to the `image` crate.
pub open spec fn format_ext(f: OutputFormat) -> Seq<char> {
    match f {
        OutputFormat::Png => "png"@,
        OutputFormat::Jpeg => "jpg"@,
        OutputFormat::WebP => "webp"@,
        OutputFormat::Bmp => "bmp"@,
        OutputFormat::Tiff => "tiff"@,
    }
}

pub fn format_extension(f: OutputFormat) -> (r: &'static str)
    ensures
        r@ == format_ext(f),
{
    match f {
        OutputFormat::Png => "png",
        OutputFormat::Jpeg => "jpg",
        OutputFormat::WebP => "webp",
        OutputFormat::Bmp => "bmp",
        OutputFormat::Tiff => "tiff",
    }
}

/// Decodes the bytes of the file at `path`; a failure is an image error
/// with the decoder's message.
pub fn decode_image(bytes: &[u8], path: &str) -> (r: Result<RgbaBuffer, ProcessError>)
    ensures
        match decoded_rgba(bytes@, path@) {
            Some(d) => r matches Ok(i) && holds_image(i, d),
            None => r matches Err(ProcessError::Image(_)),
        },
{
    match decode_rgba(bytes, path) {
        Ok(i) => Ok(i),
        Err(m) => Err(ProcessError::Image(m)),
    }
}

/// The result of decoding with a second try: the content decode when it
/// succeeds, else the decode in the format the extension names, if it
/// names one and that decode succeeds.
pub open spec fn decoded_with_fallback(bytes: Seq<u8>, path: Seq<char>) -> Option<(u32, u32, Seq<Rgba8>)> {
    match decoded_rgba(bytes, path) {
        Some(d) => Some(d),
        None => match input_format_of(path) {
            Some(f) => decoded_rgba_as(bytes, format_ext(f)),
            None => None,
        },
    }
}

/// Decodes by content; when that fails and the extension names a format
/// (trimmed, case ignored, "tif" for TIFF), decodes in that format. When
/// both fail, the error is the first decode's.
pub fn decode_with_fallback(bytes: &[u8], path: &str) -> (r: Result<RgbaBuffer, ProcessError>)
    ensures
        match decoded_with_fallback(bytes@, path@) {
            Some(d) => r matches Ok(i) && holds_image(i, d),
            None => r matches Err(ProcessError::Image(_)),
        },
{
    match decode_rgba(bytes, path) {
        Ok(i) => Ok(i),
        Err(primary) => match parse_input_format_by_extension(path) {
            None => Err(ProcessError::Image(primary)),
            Some(f) => match decode_rgba_as(bytes, format_extension(f)) {
                Ok(i) => Ok(i),
                Err(_) => Err(ProcessError::Image(primary)),
            },
        },
    }
}

/// Decodes the bytes of the file at `path` and describes the result as
/// RGBA8 of its size.
pub fn load_image_rgba(bytes: &[u8], path: &str) -> (r: Result<(RgbaBuffer, ImageMetadata), ProcessError>)
    ensures
        match decoded_rgba(bytes@, path@) {
            Some(d) => r matches Ok((i, m)) && holds_image(i, d) && m.width == d.0 && m.height == d.1
                && (m.format matches Some(f) && f@ == "rgba8"@),
            None => r matches Err(ProcessError::Image(_)),
        },
{
    let img = decode_image(bytes, path)?;
    let (w, h) = img.dimensions();
    Ok((img, rgba8_meta(w, h)))
}

/// Encodes an image in a given format; a failure is an image error with
/// the encoder's message.
pub fn encode_image(img: &RgbaBuffer, format: OutputFormat) -> (r: Result<Vec<u8>, ProcessError>)
    requires
        img.wf(),
    ensures
        match encoded_rgba(img.w(), img.h(), img.pixels_view(), format_ext(format)) {
            Some(b) => r matches Ok(v) && v@ == b,
            None => r matches Err(ProcessError::Image(_)),
        },
{
    match encode_rgba(img, format_extension(format)) {
        Ok(v) => Ok(v),
        Err(m) => Err(ProcessError::Image(m)),
    }
}

/// The format that a path's extension names when saving.
pub open spec fn path_output_format(path: Seq<char>) -> Option<OutputFormat> {
    match extension_of_spec(path) {
        Some(e) => output_format_for(e),
        None => None,
    }
}

/// The bytes saved for an image at `path`: in the format its extension
/// names, JPEG without transparency; for any other extension, in the
/// format the `image` crate takes from the path.
pub open spec fn saved_bytes(w: nat, h: nat, px: Seq<Rgba8>, path: Seq<char>) -> Option<Seq<u8>> {
    match path_output_format(path) {
        Some(OutputFormat::Jpeg) => encoded_rgba(w, h, opaque_pixels(px), "jpg"@),
        Some(f) => encoded_rgba(w, h, px, format_ext(f)),
        None => encoded_rgba_by_path(w, h, px, path),
    }
}

/// The bytes to write for an image saved at `path`.
pub fn encode_for_path(img: &RgbaBuffer, path: &str) -> (r: Result<Vec<u8>, ProcessError>)
    requires
        img.wf(),
    ensures
        match saved_bytes(img.w(), img.h(), img.pixels_view(), path@) {
            Some(b) => r matches Ok(v) && v@ == b,
            None => r matches Err(ProcessError::Image(_)),
        },
{
    let encoded = match parse_output_format(path) {
        Some(OutputFormat::Jpeg) => {
            let opaque = img.opaque_copy();
            encode_rgba(&opaque, format_extension(OutputFormat::Jpeg))
        },
        Some(f) => encode_rgba(img, format_extension(f)),
        None => encode_rgba_by_path(img, path),
    };
    match encoded {
        Ok(v) => Ok(v),
        Err(m) => Err(ProcessError::Image(m)),
    }
}

} // verus!
