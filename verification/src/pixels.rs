//! An RGBA8 pixel buffer, stored row by row, and the crop that the image
//! crate performs on it.

use vstd::prelude::*;
use image::ImageEncoder;
use crate::codec::{decoded_rgba, decoded_rgba_as, encoded_rgba, encoded_rgba_by_path, encoded_png_best,
    encoded_jpeg_quality, encoded_webp_lossless};

verus! {

/// One RGBA pixel with 8 bits per channel.
#[derive(Clone, Copy, PartialEq, Eq, Structural, Debug)]
pub struct Rgba8 {
    pub r: u8,
    pub g: u8,
    pub b: u8,
    pub a: u8,
}

/// The pixels with their alpha set to 255 and their colour kept.
pub open spec fn opaque_pixels(px: Seq<Rgba8>) -> Seq<Rgba8> {
    px.map_values(|p: Rgba8| Rgba8 { r: p.r, g: p.g, b: p.b, a: 255 })
}

/// A `width` x `height` RGBA8 image; pixel `(x, y)` is stored at index
/// `y * width + x`.
#[derive(Debug)]
pub struct RgbaBuffer {
    width: u32,
    height: u32,
    pixels: Vec<Rgba8>,
}

/// `y * w + x` is the row-major index of a pixel inside a `w` x `h` image.
pub proof fn lemma_index_in_bounds(x: int, y: int, w: int, h: int)
    by (nonlinear_arith)
    requires
        0 <= x < w,
        0 <= y < h,
    ensures
        0 <= y * w + x < h * w,
        0 <= y * w + x < w * h,
        0 <= y * w <= y * w + x,
{
}

impl RgbaBuffer {
    /// The stored pixel count is `width * height`; every constructor
    /// establishes it and every method keeps it.
    pub closed spec fn wf(&self) -> bool {
        &&& self.pixels@.len() == self.width as int * self.height as int
        &&& 4 * (self.width as int * self.height as int) <= usize::MAX
    }

    /// Width in pixels.
    pub closed spec fn w(&self) -> nat {
        self.width as nat
    }

    /// Height in pixels.
    pub closed spec fn h(&self) -> nat {
        self.height as nat
    }

    /// The pixel at column `x`, row `y`.
    pub closed spec fn px(&self, x: int, y: int) -> Rgba8 {
        self.pixels@[y * self.width + x]
    }

    /// The pixels in row-major order.
    pub closed spec fn pixels_view(&self) -> Seq<Rgba8> {
        self.pixels@
    }

    /// Whether `(x, y)` lies inside the image.
    pub open spec fn contains(&self, x: int, y: int) -> bool {
        0 <= x < self.w() && 0 <= y < self.h()
    }

    /// Two buffers hold the same picture.
    pub open spec fn same_picture(&self, other: &RgbaBuffer) -> bool {
        &&& self.w() == other.w()
        &&& self.h() == other.h()
        &&& forall|x: int, y: int| #![trigger self.px(x, y)] self.contains(x, y) ==> self.px(x, y) == other.px(x, y)
    }

    /// A `width` x `height` image filled with `pixel` (`ImageBuffer::from_pixel`).
    pub fn filled(width: u32, height: u32, pixel: Rgba8) -> (img: RgbaBuffer)
        requires
            4 * (width as int * height as int) <= usize::MAX,
        ensures
            img.wf(),
            img.w() == width,
            img.h() == height,
            forall|x: int, y: int| #![trigger img.px(x, y)] img.contains(x, y) ==> img.px(x, y) == pixel,
    {
        let n: usize = (width as usize) * (height as usize);
        let mut pixels: Vec<Rgba8> = Vec::new();
        let mut i: usize = 0;
        while i < n
            invariant
                i <= n,
                pixels@.len() == i,
                forall|j: int| 0 <= j < i ==> pixels@[j] == pixel,
            decreases n - i,
        {
            pixels.push(pixel);
            i = i + 1;
        }
        let img = RgbaBuffer { width, height, pixels };
        proof {
            assert forall|x: int, y: int| #![trigger img.px(x, y)] img.contains(x, y) implies img.px(x, y) == pixel by {
                lemma_index_in_bounds(x, y, width as int, height as int);
            }
        }
        img
    }

    /// Builds an image from its pixels in row-major order; `None` when the
    /// number of pixels is not `width * height`.
    pub fn from_pixels(width: u32, height: u32, pixels: Vec<Rgba8>) -> (res: Option<RgbaBuffer>)
        ensures
            res is Some <==> (pixels@.len() == width as int * height as int && 4 * pixels@.len() <= usize::MAX),
            res matches Some(img) ==> {
                &&& img.wf()
                &&& img.w() == width
                &&& img.h() == height
                &&& forall|x: int, y: int| #![trigger img.px(x, y)] img.contains(x, y) ==> img.px(x, y) == pixels@[y * width + x]
            },
    {
        let n = pixels.len();
        if n > usize::MAX / 4 {
            return None;
        }
        if width == 0 || height == 0 {
            assert(width as int * height as int == 0) by (nonlinear_arith)
                requires width == 0 || height == 0;
            if n == 0 {
                return Some(RgbaBuffer { width, height, pixels });
            } else {
                return None;
            }
        }
        let w = width as usize;
        if n % w != 0 {
            proof {
                if n == width as int * height as int {
                    assert(n % w == 0) by (nonlinear_arith)
                        requires n == width as int * height as int, w == width, width > 0;
                }
            }
            return None;
        }
        let rows = n / w;
        if rows != height as usize {
            proof {
                if n == width as int * height as int {
                    assert(n / w == height) by (nonlinear_arith)
                        requires n == width as int * height as int, w == width, width > 0;
                }
            }
            return None;
        }
        proof {
            assert(n == width as int * height as int) by (nonlinear_arith)
                requires n % w == 0, n / w == height, w == width, width > 0;
            assert(4 * n <= usize::MAX);
        }
        Some(RgbaBuffer { width, height, pixels })
    }

    pub fn width(&self) -> (r: u32)
        requires
            self.wf(),
        ensures
            r == self.w(),
    {
        self.width
    }

    pub fn height(&self) -> (r: u32)
        requires
            self.wf(),
        ensures
            r == self.h(),
    {
        self.height
    }

    /// `(width, height)`.
    pub fn dimensions(&self) -> (r: (u32, u32))
        requires
            self.wf(),
        ensures
            r.0 == self.w(),
            r.1 == self.h(),
            4 * (self.w() * self.h()) <= usize::MAX,
    {
        (self.width, self.height)
    }

    /// The pixel at `(x, y)`.
    pub fn get_pixel(&self, x: u32, y: u32) -> (p: Rgba8)
        requires
            self.wf(),
            self.contains(x as int, y as int),
        ensures
            p == self.px(x as int, y as int),
    {
        proof {
            lemma_index_in_bounds(x as int, y as int, self.width as int, self.height as int);
        }
        let i = (y as usize) * (self.width as usize) + (x as usize);
        self.pixels[i]
    }

    /// Overwrites the pixel at `(x, y)`.
    pub fn put_pixel(&mut self, x: u32, y: u32, p: Rgba8)
        requires
            old(self).wf(),
            old(self).contains(x as int, y as int),
        ensures
            final(self).wf(),
            final(self).w() == old(self).w(),
            final(self).h() == old(self).h(),
            final(self).px(x as int, y as int) == p,
            forall|i: int, j: int| #![trigger final(self).px(i, j)]
                final(self).contains(i, j) && !(i == x && j == y) ==> final(self).px(i, j) == old(self).px(i, j),
    {
        proof {
            lemma_index_in_bounds(x as int, y as int, self.width as int, self.height as int);
        }
        let i = (y as usize) * (self.width as usize) + (x as usize);
        self.pixels.set(i, p);
        proof {
            assert forall|a: int, b: int| #![trigger self.px(a, b)]
                self.contains(a, b) && !(a == x && b == y) implies self.px(a, b) == old(self).px(a, b) by {
                lemma_index_in_bounds(a, b, self.width as int, self.height as int);
                lemma_distinct_index(a, b, x as int, y as int, self.width as int);
            }
        }
    }

    /// A copy of this image.
    pub fn duplicate(&self) -> (r: RgbaBuffer)
        requires
            self.wf(),
        ensures
            r.wf(),
            r.same_picture(self),
    {
        RgbaBuffer { width: self.width, height: self.height, pixels: self.pixels.clone() }
    }

    /// The pixels in row-major order.
    pub fn to_pixels(&self) -> (v: Vec<Rgba8>)
        requires
            self.wf(),
        ensures
            v@.len() == self.w() * self.h(),
            forall|x: int, y: int| #![trigger self.px(x, y)] self.contains(x, y) ==> v@[y * self.w() + x] == self.px(x, y),
            v@ == self.pixels_view(),
    {
        self.pixels.clone()
    }

    /// The same image with every pixel made fully opaque.
    pub fn opaque_copy(&self) -> (out: RgbaBuffer)
        requires
            self.wf(),
        ensures
            out.wf(),
            out.w() == self.w(),
            out.h() == self.h(),
            out.pixels_view() == opaque_pixels(self.pixels_view()),
    {
        let mut pixels: Vec<Rgba8> = Vec::new();
        let mut i: usize = 0;
        while i < self.pixels.len()
            invariant
                i <= self.pixels@.len(),
                pixels@ == opaque_pixels(self.pixels@.subrange(0, i as int)),
            decreases self.pixels@.len() - i,
        {
            let p = self.pixels[i];
            pixels.push(Rgba8 { r: p.r, g: p.g, b: p.b, a: 255 });
            proof {
                assert(opaque_pixels(self.pixels@.subrange(0, i + 1)) =~= opaque_pixels(self.pixels@.subrange(0, i as int)).push(
                    Rgba8 { r: p.r, g: p.g, b: p.b, a: 255 }));
            }
            i = i + 1;
        }
        proof {
            assert(self.pixels@.subrange(0, self.pixels@.len() as int) =~= self.pixels@);
        }
        RgbaBuffer { width: self.width, height: self.height, pixels }
    }
}

/// `image::imageops::crop_imm` followed by `SubImage::to_image`: the
/// `width` x `height` window of `src` whose top-left corner is `(x, y)`,
/// copied pixel for pixel.
#[verifier::external_body]
pub(crate) fn crop_window(src: &RgbaBuffer, x: u32, y: u32, width: u32, height: u32) -> (out: RgbaBuffer)
    requires
        src.wf(),
        x as int + width as int <= src.w(),
        y as int + height as int <= src.h(),
    ensures
        out.wf(),
        out.w() == width,
        out.h() == height,
        forall|i: int, j: int| #![trigger out.px(i, j)] out.contains(i, j) ==> out.px(i, j) == src.px(x + i, y + j),
{
    let raw: Vec<u8> = src.pixels.iter().flat_map(|p| [p.r, p.g, p.b, p.a]).collect();
    let img = image::RgbaImage::from_raw(src.width, src.height, raw).unwrap();
    let cropped = image::imageops::crop_imm(&img, x, y, width, height).to_image();
    let pixels: Vec<Rgba8> = cropped.into_raw().chunks_exact(4).map(|c| Rgba8 { r: c[0], g: c[1], b: c[2], a: c[3] }).collect();
    RgbaBuffer { width, height, pixels }
}

/// The size of an image fits in `u32`, so `w() as u32` and `h() as u32`
/// are its width and height.
pub proof fn lemma_size_fits_u32(img: &RgbaBuffer)
    ensures
        img.w() <= u32::MAX,
        img.h() <= u32::MAX,
        img.w() as u32 == img.w(),
        img.h() as u32 == img.h(),
{
}

/// Different pixels of a row-major image have different indices.
pub proof fn lemma_distinct_index(a: int, b: int, x: int, y: int, w: int)
    by (nonlinear_arith)
    requires
        0 <= a < w,
        0 <= x < w,
        0 <= b,
        0 <= y,
        !(a == x && b == y),
    ensures
        b * w + a != y * w + x,
{
    if b == y {
    } else if b < y {
        assert(b * w + w <= y * w);
    } else {
        assert(y * w + w <= b * w);
    }
}

/// Number of `x` in `x0..x` for which `f(x, y)` holds.
pub open spec fn count_in_row(f: spec_fn(int, int) -> bool, x0: int, x: int, y: int) -> nat
    decreases x - x0,
{
    if x <= x0 {
        0
    } else {
        count_in_row(f, x0, x - 1, y) + if f(x - 1, y) { 1nat } else { 0nat }
    }
}

/// Number of pixels `(x, y)` with `x0 <= x < x1` and `y0 <= y < y` for
/// which `f` holds.
pub open spec fn count_in_rect(f: spec_fn(int, int) -> bool, x0: int, x1: int, y0: int, y: int) -> nat
    decreases y - y0,
{
    if y <= y0 {
        0
    } else {
        count_in_rect(f, x0, x1, y0, y - 1) + count_in_row(f, x0, x1, y - 1)
    }
}

pub proof fn lemma_count_in_row_bound(f: spec_fn(int, int) -> bool, x0: int, x: int, y: int)
    requires
        x0 <= x,
    ensures
        count_in_row(f, x0, x, y) <= x - x0,
    decreases x - x0,
{
    if x > x0 {
        lemma_count_in_row_bound(f, x0, x - 1, y);
    }
}

/// Pixels that differ between two images of the same size.
pub open spec fn differs(a: RgbaBuffer, b: RgbaBuffer) -> spec_fn(int, int) -> bool {
    |x: int, y: int| a.px(x, y) != b.px(x, y)
}

/// Number of pixels that differ between two images of the same size
/// (pixels compared pairwise in row-major order).
pub fn count_changed_pixels(before: &RgbaBuffer, after: &RgbaBuffer) -> (n: u64)
    requires
        before.wf(),
        after.wf(),
        before.w() == after.w(),
        before.h() == after.h(),
    ensures
        n == count_in_rect(differs(*before, *after), 0, before.w() as int, 0, before.h() as int),
{
    let (w, h) = before.dimensions();
    let ghost f = differs(*before, *after);
    let mut cnt: usize = 0;
    let mut y: u32 = 0;
    while y < h
        invariant
            before.wf(),
            after.wf(),
            w == before.w(),
            h == before.h(),
            w == after.w(),
            h == after.h(),
            f == differs(*before, *after),
            4 * (w * h) <= usize::MAX,
            y <= h,
            cnt == count_in_rect(f, 0, w as int, 0, y as int),
            cnt <= y * w,
        decreases h - y,
    {
        let mut x: u32 = 0;
        while x < w
            invariant
                before.wf(),
                after.wf(),
                w == before.w(),
                h == before.h(),
                w == after.w(),
                h == after.h(),
                f == differs(*before, *after),
                4 * (w * h) <= usize::MAX,
                y < h,
                x <= w,
                cnt == count_in_rect(f, 0, w as int, 0, y as int) + count_in_row(f, 0, x as int, y as int),
                cnt <= y * w + x,
            decreases w - x,
        {
            proof {
                lemma_index_in_bounds(x as int, y as int, w as int, h as int);
            }
            if before.get_pixel(x, y) != after.get_pixel(x, y) {
                cnt = cnt + 1;
            }
            x = x + 1;
        }
        proof {
            assert(y * w + w == (y + 1) * w) by (nonlinear_arith);
        }
        y = y + 1;
    }
    assert(usize::MAX <= u64::MAX);
    cnt as u64
}

/// The row-major pixels of a buffer are its pixels `px(x, y)`.
pub proof fn lemma_pixels_view(img: &RgbaBuffer)
    requires
        img.wf(),
    ensures
        img.pixels_view().len() == img.w() * img.h(),
        forall|x: int, y: int| #![trigger img.px(x, y)] img.contains(x, y) ==> img.pixels_view()[y * img.w() + x] == img.px(x, y),
{
}

/// Decodes the bytes of an image file as `image::ImageReader::open(path)`
/// followed by `with_guessed_format` and `decode` does (the format is
/// guessed from the content, else taken from the path's extension), then
/// converts to RGBA8 (`to_rgba8`). Any failure is returned as its text.
#[verifier::external_body]
pub(crate) fn decode_rgba(bytes: &[u8], path: &str) -> (r: Result<RgbaBuffer, String>)
    ensures
        match decoded_rgba(bytes@, path@) {
            Some((w, h, px)) => r matches Ok(i) && i.wf() && i.w() == w && i.h() == h && i.pixels_view() == px,
            None => r is Err,
        },
{
    let mut reader = image::ImageReader::new(std::io::Cursor::new(bytes));
    if let Ok(f) = image::ImageFormat::from_path(path) {
        reader.set_format(f);
    }
    let img = reader.with_guessed_format().map_err(|e| e.to_string())?.decode().map_err(|e| e.to_string())?.to_rgba8();
    let (width, height) = img.dimensions();
    let pixels = img.into_raw().chunks_exact(4).map(|c| Rgba8 { r: c[0], g: c[1], b: c[2], a: c[3] }).collect();
    Ok(RgbaBuffer { width, height, pixels })
}

/// Decodes the bytes of an image in the format that
/// `image::ImageFormat::from_extension(ext)` names
/// (`image::load_from_memory_with_format`), converted to RGBA8.
#[verifier::external_body]
pub(crate) fn decode_rgba_as(bytes: &[u8], ext: &str) -> (r: Result<RgbaBuffer, String>)
    ensures
        match decoded_rgba_as(bytes@, ext@) {
            Some((w, h, px)) => r matches Ok(i) && i.wf() && i.w() == w && i.h() == h && i.pixels_view() == px,
            None => r is Err,
        },
{
    let format = image::ImageFormat::from_extension(ext).ok_or_else(|| ext.to_string())?;
    let img = image::load_from_memory_with_format(bytes, format).map_err(|e| e.to_string())?.to_rgba8();
    let (width, height) = img.dimensions();
    let pixels = img.into_raw().chunks_exact(4).map(|c| Rgba8 { r: c[0], g: c[1], b: c[2], a: c[3] }).collect();
    Ok(RgbaBuffer { width, height, pixels })
}

/// Encodes an RGBA8 image in the format that
/// `image::ImageFormat::from_extension(ext)` names
/// (`DynamicImage::write_to`; a JPEG encoder keeps only the colour
/// channels). Any failure is returned as its text.
#[verifier::external_body]
pub(crate) fn encode_rgba(img: &RgbaBuffer, ext: &str) -> (r: Result<Vec<u8>, String>)
    requires
        img.wf(),
    ensures
        match encoded_rgba(img.w(), img.h(), img.pixels_view(), ext@) {
            Some(b) => r matches Ok(v) && v@ == b,
            None => r is Err,
        },
{
    let raw = img.pixels.iter().flat_map(|p| [p.r, p.g, p.b, p.a]).collect();
    let buf = image::RgbaImage::from_raw(img.width, img.height, raw).unwrap();
    let format = image::ImageFormat::from_extension(ext).ok_or_else(|| ext.to_string())?;
    let mut out = std::io::Cursor::new(Vec::new());
    image::DynamicImage::ImageRgba8(buf).write_to(&mut out, format).map_err(|e| e.to_string())?;
    Ok(out.into_inner())
}

/// Encodes an RGBA8 image in the format that
/// `image::ImageFormat::from_path(path)` names, as `DynamicImage::save`
/// chooses it.
#[verifier::external_body]
pub(crate) fn encode_rgba_by_path(img: &RgbaBuffer, path: &str) -> (r: Result<Vec<u8>, String>)
    requires
        img.wf(),
    ensures
        match encoded_rgba_by_path(img.w(), img.h(), img.pixels_view(), path@) {
            Some(b) => r matches Ok(v) && v@ == b,
            None => r is Err,
        },
{
    let raw = img.pixels.iter().flat_map(|p| [p.r, p.g, p.b, p.a]).collect();
    let buf = image::RgbaImage::from_raw(img.width, img.height, raw).unwrap();
    let format = image::ImageFormat::from_path(path).map_err(|e| e.to_string())?;
    let mut out = std::io::Cursor::new(Vec::new());
    image::DynamicImage::ImageRgba8(buf).write_to(&mut out, format).map_err(|e| e.to_string())?;
    Ok(out.into_inner())
}

/// `image::codecs::png::PngEncoder::new_with_quality` with the best
/// compression and adaptive filtering, on RGBA8 pixels.
#[verifier::external_body]
pub(crate) fn encode_png_best(img: &RgbaBuffer) -> (r: Result<Vec<u8>, String>)
    requires
        img.wf(),
    ensures
        match encoded_png_best(img.w(), img.h(), img.pixels_view()) {
            Some(b) => r matches Ok(v) && v@ == b,
            None => r is Err,
        },
{
    let raw: Vec<u8> = img.pixels.iter().flat_map(|p| [p.r, p.g, p.b, p.a]).collect();
    let mut out = Vec::new();
    image::codecs::png::PngEncoder::new_with_quality(&mut out, image::codecs::png::CompressionType::Best, image::codecs::png::FilterType::Adaptive)
        .write_image(&raw, img.width, img.height, image::ExtendedColorType::Rgba8).map_err(|e| e.to_string())?;
    Ok(out)
}

/// `image::codecs::jpeg::JpegEncoder::new_with_quality` at `quality`; the
/// encoder reads only the colour channels of RGBA8 pixels.
#[verifier::external_body]
pub(crate) fn encode_jpeg_quality(img: &RgbaBuffer, quality: u8) -> (r: Result<Vec<u8>, String>)
    requires
        img.wf(),
    ensures
        match encoded_jpeg_quality(img.w(), img.h(), img.pixels_view(), quality) {
            Some(b) => r matches Ok(v) && v@ == b,
            None => r is Err,
        },
{
    let raw = img.pixels.iter().flat_map(|p| [p.r, p.g, p.b, p.a]).collect();
    let buf = image::RgbaImage::from_raw(img.width, img.height, raw).unwrap();
    let mut out = Vec::new();
    image::codecs::jpeg::JpegEncoder::new_with_quality(&mut out, quality).encode_image(&buf).map_err(|e| e.to_string())?;
    Ok(out)
}

/// `image::codecs::webp::WebPEncoder::new_lossless` on RGBA8 pixels.
#[verifier::external_body]
pub(crate) fn encode_webp_lossless(img: &RgbaBuffer) -> (r: Result<Vec<u8>, String>)
    requires
        img.wf(),
    ensures
        match encoded_webp_lossless(img.w(), img.h(), img.pixels_view()) {
            Some(b) => r matches Ok(v) && v@ == b,
            None => r is Err,
        },
{
    let raw: Vec<u8> = img.pixels.iter().flat_map(|p| [p.r, p.g, p.b, p.a]).collect();
    let mut out = Vec::new();
    image::codecs::webp::WebPEncoder::new_lossless(&mut out)
        .encode(&raw, img.width, img.height, image::ExtendedColorType::Rgba8).map_err(|e| e.to_string())?;
    Ok(out)
}

} // verus!
