//! Trimming transparent borders: the tight box around the pixels whose alpha
//! is above a threshold, optionally grown by a padding.

use vstd::prelude::*;
use crate::pixels::{RgbaBuffer, crop_window};
use crate::crop_runner::{CropRect, rgba8_meta};
use crate::processor::{
    ImageMetadata, ImageOutcome, ProcessError, ProcessResult, ProcessStatus, ProcessorDescriptor,
};

verus! {

/// Inclusive pixel bounds of the visible content.
#[derive(Clone, Copy, PartialEq, Eq, Structural, Debug)]
pub struct BoundingBox {
    pub left: u32,
    pub top: u32,
    pub right: u32,
    pub bottom: u32,
}

impl BoundingBox {
    /// Number of columns covered.
    pub fn width(&self) -> (r: u32)
        requires
            self.left <= self.right,
            self.right - self.left < u32::MAX,
        ensures
            r == self.right - self.left + 1,
    {
        self.right - self.left + 1
    }

    /// Number of rows covered.
    pub fn height(&self) -> (r: u32)
        requires
            self.top <= self.bottom,
            self.bottom - self.top < u32::MAX,
        ensures
            r == self.bottom - self.top + 1,
    {
        self.bottom - self.top + 1
    }
}

/// A pixel counts as content when its alpha exceeds the threshold.
pub open spec fn visible(img: &RgbaBuffer, t: u8, x: int, y: int) -> bool {
    img.contains(x, y) && img.px(x, y).a > t
}

pub open spec fn has_visible(img: &RgbaBuffer, t: u8) -> bool {
    exists|x: int, y: int| visible(img, t, x, y)
}

/// `b` is the smallest box holding every visible pixel: it holds them all
/// and each of its four edges touches one.
pub open spec fn tight_box(img: &RgbaBuffer, t: u8, b: BoundingBox) -> bool {
    &&& b.left <= b.right < img.w()
    &&& b.top <= b.bottom < img.h()
    &&& forall|x: int, y: int| visible(img, t, x, y) ==> b.left <= x <= b.right && b.top <= y <= b.bottom
    &&& exists|y: int| visible(img, t, b.left as int, y)
    &&& exists|y: int| visible(img, t, b.right as int, y)
    &&& exists|x: int| visible(img, t, x, b.top as int)
    &&& exists|x: int| visible(img, t, x, b.bottom as int)
}

/// The bounding box of all pixels whose alpha exceeds `alpha_threshold`;
/// `None` when there is none (in particular for an empty image).
pub fn calculate_non_transparent_bbox(image: &RgbaBuffer, alpha_threshold: u8) -> (r: Option<BoundingBox>)
    requires
        image.wf(),
    ensures
        r is None <==> !has_visible(image, alpha_threshold),
        r matches Some(b) ==> tight_box(image, alpha_threshold, b),
{
    let (width, height) = image.dimensions();
    if width == 0 || height == 0 {
        return None;
    }
    let mut found = false;
    let mut left: u32 = width;
    let mut top: u32 = height;
    let mut right: u32 = 0;
    let mut bottom: u32 = 0;
    let ghost mut yl: int = 0;
    let ghost mut yr: int = 0;
    let ghost mut xt: int = 0;
    let ghost mut xb: int = 0;
    let mut y: u32 = 0;
    while y < height
        invariant
            image.wf(),
            width == image.w(),
            height == image.h(),
            y <= height,
            !found ==> forall|a: int, b: int| 0 <= b < y ==> !visible(image, alpha_threshold, a, b),
            found ==> {
                &&& left <= right < width
                &&& top <= bottom < height
                &&& visible(image, alpha_threshold, left as int, yl)
                &&& visible(image, alpha_threshold, right as int, yr)
                &&& visible(image, alpha_threshold, xt, top as int)
                &&& visible(image, alpha_threshold, xb, bottom as int)
                &&& forall|a: int, b: int| 0 <= b < y && visible(image, alpha_threshold, a, b) ==> left <= a <= right && top <= b <= bottom
            },
            !found ==> left == width && top == height && right == 0 && bottom == 0,
        decreases height - y,
    {
        let mut x: u32 = 0;
        while x < width
            invariant
                image.wf(),
                width == image.w(),
                height == image.h(),
                y < height,
                x <= width,
                !found ==> forall|a: int, b: int| (0 <= b < y || (b == y && a < x)) ==> !visible(image, alpha_threshold, a, b),
                found ==> {
                    &&& left <= right < width
                    &&& top <= bottom < height
                    &&& visible(image, alpha_threshold, left as int, yl)
                    &&& visible(image, alpha_threshold, right as int, yr)
                    &&& visible(image, alpha_threshold, xt, top as int)
                    &&& visible(image, alpha_threshold, xb, bottom as int)
                    &&& forall|a: int, b: int| (0 <= b < y || (b == y && a < x)) && visible(image, alpha_threshold, a, b) ==> left <= a <= right && top <= b <= bottom
                },
                !found ==> left == width && top == height && right == 0 && bottom == 0,
            decreases width - x,
        {
            let pixel = image.get_pixel(x, y);
            if pixel.a > alpha_threshold {
                found = true;
                if x < left {
                    left = x;
                    proof { yl = y as int; }
                }
                if y < top {
                    top = y;
                    proof { xt = x as int; }
                }
                if x > right || (right == 0 && x == 0) {
                    right = x;
                    proof { yr = y as int; }
                }
                if y > bottom || (bottom == 0 && y == 0) {
                    bottom = y;
                    proof { xb = x as int; }
                }
            }
            x = x + 1;
        }
        y = y + 1;
    }
    if !found {
        proof {
            assert forall|a: int, b: int| !visible(image, alpha_threshold, a, b) by {
                if 0 <= b < height {
                }
            }
        }
        return None;
    }
    Some(BoundingBox { left, top, right, bottom })
}

/// The window that is cut out: the tight box grown by `padding` on every
/// side and clipped to the image.
pub open spec fn trim_window(b: BoundingBox, padding: u32, w: u32, h: u32) -> CropRect {
    let left = b.left.saturating_sub(padding);
    let top = b.top.saturating_sub(padding);
    let r = b.right.saturating_add(padding);
    let right = if r <= w.saturating_sub(1) { r } else { w.saturating_sub(1) };
    let bt = b.bottom.saturating_add(padding);
    let bottom = if bt <= h.saturating_sub(1) { bt } else { h.saturating_sub(1) };
    CropRect { x: left, y: top, width: (right - left + 1) as u32, height: (bottom - top + 1) as u32 }
}

/// The crop rectangle for a visible box and a padding.
pub fn trim_crop_rect(bbox: BoundingBox, padding: u32, width: u32, height: u32) -> (r: CropRect)
    requires
        bbox.left <= bbox.right < width,
        bbox.top <= bbox.bottom < height,
    ensures
        r == trim_window(bbox, padding, width, height),
        r.x as int + r.width as int <= width,
        r.y as int + r.height as int <= height,
        r.width >= 1,
        r.height >= 1,
{
    let left = bbox.left.saturating_sub(padding);
    let top = bbox.top.saturating_sub(padding);
    let r = bbox.right.saturating_add(padding);
    let right = if r <= width.saturating_sub(1) { r } else { width.saturating_sub(1) };
    let bt = bbox.bottom.saturating_add(padding);
    let bottom = if bt <= height.saturating_sub(1) { bt } else { height.saturating_sub(1) };
    CropRect { x: left, y: top, width: right - left + 1, height: bottom - top + 1 }
}

/// `o` reports a successful trim to `rect`, written to `output_path`.
pub open spec fn trimmed_to(o: ImageOutcome, image: &RgbaBuffer, rect: CropRect, output_path: Seq<char>) -> bool {
    &&& o.result.status == ProcessStatus::Success
    &&& o.result.message@ == "裁剪完成。"@
    &&& (o.result.output_path matches Some(p) && p@ == output_path)
    &&& (o.result.output_metadata matches Some(m) && (m.width == rect.width && m.height == rect.height
            && (m.format matches Some(f) && f@ == "png"@)))
    &&& (o.image matches Some(out) && {
        &&& out.wf()
        &&& out.w() == rect.width && out.h() == rect.height
        &&& forall|i: int, j: int| #![trigger out.px(i, j)] out.contains(i, j) ==> out.px(i, j) == image.px(rect.x + i, rect.y + j)
    })
}

/// Parameters of the trim: alpha threshold and padding, both zero by default.
#[derive(Clone, Copy, PartialEq, Eq, Structural, Debug)]
pub struct TrimTransparentParams {
    pub alpha_threshold: u8,
    pub padding: u32,
}

impl TrimTransparentParams {
    pub fn default_params() -> (p: TrimTransparentParams)
        ensures
            p.alpha_threshold == 0,
            p.padding == 0,
    {
        TrimTransparentParams { alpha_threshold: 0, padding: 0 }
    }
}

/// Largest padding accepted.
pub const MAX_TRIM_PADDING: u32 = 10000;

/// The transparent-edge trimming processor.
#[derive(Clone, Copy, Debug)]
pub struct TrimTransparentProcessor;

impl TrimTransparentProcessor {
    pub fn descriptor(&self) -> (d: ProcessorDescriptor)
        ensures
            d.id@ == "trim-transparent"@,
            d.display_name@ == "裁剪透明边缘"@,
            d.enabled,
            d.notes@ == "裁剪 PNG 的透明像素边缘到非透明内容区域。"@,
    {
        ProcessorDescriptor {
            id: String::from_str("trim-transparent"),
            display_name: String::from_str("裁剪透明边缘"),
            enabled: true,
            notes: String::from_str("裁剪 PNG 的透明像素边缘到非透明内容区域。"),
        }
    }

    /// Only the padding is bounded.
    pub fn validate(&self, params: &TrimTransparentParams) -> (r: Result<(), ProcessError>)
        ensures
            r is Ok <==> params.padding <= MAX_TRIM_PADDING,
            r matches Err(e) ==> e matches ProcessError::Validation(m) && m@ == "padding 过大，请使用不超过 10000 的值。"@,
    {
        if params.padding > MAX_TRIM_PADDING {
            return Err(ProcessError::Validation(String::from_str("padding 过大，请使用不超过 10000 的值。")));
        }
        Ok(())
    }

    /// Trims a decoded image. A fully transparent image is skipped; otherwise
    /// the padded box is cut out and is to be written to `output_path`.
    pub fn process_image(&self, image: &RgbaBuffer, params: &TrimTransparentParams, output_path: &str) -> (o: ImageOutcome)
        requires
            image.wf(),
        ensures
            o.result.input_metadata matches Some(m) && (m.width == image.w() && m.height == image.h()
                && (m.format matches Some(f) && f@ == "rgba8"@)),
            !has_visible(image, params.alpha_threshold) ==> {
                &&& o.result.status == ProcessStatus::Skipped
                &&& o.result.message@ == "图片完全透明，已跳过输出。"@
                &&& o.result.output_path is None
                &&& o.result.output_metadata is None
                &&& o.image is None
            },
            has_visible(image, params.alpha_threshold) ==> exists|b: BoundingBox|
                #[trigger] tight_box(image, params.alpha_threshold, b) && trimmed_to(o, image, trim_window(b, params.padding, image.w() as u32, image.h() as u32), output_path@),
    {
        let (w, h) = image.dimensions();
        let input_meta = rgba8_meta(w, h);
        match calculate_non_transparent_bbox(image, params.alpha_threshold) {
            None => {
                let mut result = ProcessResult::skipped(String::from_str("图片完全透明，已跳过输出。"));
                result.input_metadata = Some(input_meta);
                ImageOutcome { result, image: None }
            },
            Some(bbox) => {
                let rect = trim_crop_rect(bbox, params.padding, w, h);
                let cropped = crop_window(image, rect.x, rect.y, rect.width, rect.height);
                let mut result = ProcessResult::success(String::from_str("裁剪完成。"), String::from_str(output_path));
                result.input_metadata = Some(input_meta);
                result.output_metadata = Some(ImageMetadata {
                    width: rect.width,
                    height: rect.height,
                    format: Some(String::from_str("png")),
                });
                ImageOutcome { result, image: Some(cropped) }
            },
        }
    }
}

} // verus!
