//! Manual crop: which rectangle applies to a file, per-file overrides and
//! skips, and the clipping of rectangles given as fractions. The fractions
//! themselves are floating point and are turned into pixels outside this
//! crate; here they are known only by whether they are present.

use vstd::prelude::*;
use crate::crop_runner::{CropRect, origin_message, same_chars};
use crate::processor::{ImageMetadata, ProcessError, ProcessResult, ProcessStatus, ProcessorDescriptor};
use crate::resolution_transform::{path_key, normalize_path_key};
use crate::text::{chars_of, decimal_vec, extend_chars, string_of};

verus! {

/// Whether the default rectangle is given in pixels or as fractions.
#[derive(Clone, Copy, PartialEq, Eq, Structural, Debug)]
pub enum CropApplyMode {
    Absolute,
    Percent,
}

/// The crop of one file: skipped (copied as it is), or a rectangle in
/// pixels, or one given as fractions.
#[derive(Clone, Copy, PartialEq, Eq, Structural, Debug)]
pub struct FileCropOverride {
    pub skip: bool,
    pub rect: Option<CropRect>,
    pub has_percent_rect: bool,
}

/// Parameters: the mode, the default rectangles and the per-file crops
/// keyed by path.
#[derive(Debug)]
pub struct ManualCropParams {
    pub apply_mode: CropApplyMode,
    pub default_rect: Option<CropRect>,
    pub has_default_percent_rect: bool,
    /// The message with which the default fractions were refused (the
    /// fractions are checked where they are held), if they were.
    pub default_percent_problem: Option<String>,
    pub file_overrides: Vec<(String, FileCropOverride)>,
}

impl ManualCropParams {
    /// Fractions, with nothing configured.
    pub fn default_params() -> (p: ManualCropParams)
        ensures
            p.apply_mode == CropApplyMode::Percent,
            p.default_rect is None,
            !p.has_default_percent_rect,
            p.default_percent_problem is None,
            p.file_overrides@.len() == 0,
    {
        ManualCropParams {
            apply_mode: CropApplyMode::Percent,
            default_rect: None,
            has_default_percent_rect: false,
            default_percent_problem: None,
            file_overrides: Vec::new(),
        }
    }
}

/// Index of the first entry whose key is exactly `key`.
pub open spec fn first_with_key(o: Seq<(String, FileCropOverride)>, key: Seq<char>) -> Option<int> {
    if exists|i: int| 0 <= i < o.len() && (#[trigger] o[i]).0@ == key {
        Some(choose|i: int| 0 <= i < o.len() && (#[trigger] o[i]).0@ == key
            && forall|j: int| 0 <= j < i ==> (#[trigger] o[j]).0@ != key)
    } else {
        None
    }
}

/// The override of an input: the one keyed by the path as given, else the
/// one keyed by the normalised path.
pub open spec fn override_for(p: ManualCropParams, input: Seq<char>) -> Option<int> {
    match first_with_key(p.file_overrides@, input) {
        Some(i) => Some(i),
        None => first_with_key(p.file_overrides@, path_key(input)),
    }
}

fn find_key(o: &Vec<(String, FileCropOverride)>, key: &Vec<char>) -> (r: Option<usize>)
    ensures
        r is None <==> first_with_key(o@, key@) is None,
        r matches Some(j) ==> j < o@.len() && first_with_key(o@, key@) == Some(j as int),
{
    let mut i: usize = 0;
    while i < o.len()
        invariant
            i <= o.len(),
            forall|j: int| 0 <= j < i ==> (#[trigger] o@[j]).0@ != key@,
        decreases o.len() - i,
    {
        if same_chars(&chars_of(o[i].0.as_str()), key) {
            proof {
                let k = choose|k: int| 0 <= k < o@.len() && (#[trigger] o@[k]).0@ == key@
                    && forall|j: int| 0 <= j < k ==> (#[trigger] o@[j]).0@ != key@;
                assert(o@[i as int].0@ == key@);
                if k < i {
                    assert(o@[k].0@ != key@);
                } else if k > i {
                    assert(o@[i as int].0@ != key@);
                }
            }
            return Some(i);
        }
        i = i + 1;
    }
    None
}

/// Finds the override of `override_for`.
pub fn resolve_override(params: &ManualCropParams, input_path: &str) -> (r: Option<usize>)
    ensures
        r is None <==> override_for(*params, input_path@) is None,
        r matches Some(j) ==> j < params.file_overrides@.len() && override_for(*params, input_path@) == Some(j as int),
{
    match find_key(&params.file_overrides, &chars_of(input_path)) {
        Some(i) => Some(i),
        None => find_key(&params.file_overrides, &chars_of(normalize_path_key(input_path).as_str())),
    }
}

/// Whether the override of the input says to skip it.
pub open spec fn skips_file(p: ManualCropParams, input: Seq<char>) -> bool {
    match override_for(p, input) {
        Some(i) => p.file_overrides@[i].1.skip,
        None => false,
    }
}

/// Where the rectangle of a file comes from.
#[derive(Clone, Copy, PartialEq, Eq, Structural, Debug)]
pub enum CropSource {
    /// A rectangle in pixels.
    Rect(CropRect),
    /// The fractions of the override at this index.
    OverridePercent(usize),
    /// The default fractions.
    DefaultPercent,
}

/// The source of the rectangle: the override's pixels, else its fractions,
/// else the default of the mode; `None` when the mode's default is missing.
pub open spec fn crop_source_for(p: ManualCropParams, ov: Option<int>) -> Option<CropSource> {
    let from_override = match ov {
        Some(i) => if p.file_overrides@[i].1.rect is Some {
            Some(CropSource::Rect(p.file_overrides@[i].1.rect.unwrap()))
        } else if p.file_overrides@[i].1.has_percent_rect {
            Some(CropSource::OverridePercent(i as usize))
        } else {
            None
        },
        None => None,
    };
    match from_override {
        Some(s) => Some(s),
        None => match p.apply_mode {
            CropApplyMode::Absolute => match p.default_rect {
                Some(r) => Some(CropSource::Rect(r)),
                None => None,
            },
            CropApplyMode::Percent => if p.has_default_percent_rect { Some(CropSource::DefaultPercent) } else { None },
        },
    }
}

/// A file's own override decides its rectangle before any default: its
/// rectangle in pixels when it has one, else its own fractions; only an
/// override with neither falls back to the mode's default, and the default
/// never names an override's fractions.
pub proof fn law_override_rectangle_comes_first(p: ManualCropParams, i: int)
    requires
        0 <= i < p.file_overrides@.len(),
        i <= usize::MAX,
    ensures
        p.file_overrides@[i].1.rect matches Some(r) ==> crop_source_for(p, Some(i)) == Some(CropSource::Rect(r)),
        p.file_overrides@[i].1.rect is None && p.file_overrides@[i].1.has_percent_rect
            ==> crop_source_for(p, Some(i)) == Some(CropSource::OverridePercent(i as usize)),
        p.file_overrides@[i].1.rect is None && !p.file_overrides@[i].1.has_percent_rect
            ==> crop_source_for(p, Some(i)) == crop_source_for(p, None),
        !(crop_source_for(p, None) matches Some(CropSource::OverridePercent(_))),
        crop_source_for(p, None) matches Some(CropSource::Rect(r)) ==> p.apply_mode == CropApplyMode::Absolute && p.default_rect == Some(r),
        crop_source_for(p, None) == Some(CropSource::DefaultPercent) <==> p.apply_mode == CropApplyMode::Percent && p.has_default_percent_rect,
{
}

pub fn resolve_crop_source(params: &ManualCropParams, override_index: Option<usize>) -> (r: Result<CropSource, ProcessError>)
    requires
        override_index matches Some(i) ==> i < params.file_overrides@.len(),
    ensures
        match crop_source_for(*params, match override_index { Some(i) => Some(i as int), None => None }) {
            Some(s) => r == Ok::<CropSource, ProcessError>(s),
            None => r matches Err(e) && e matches ProcessError::Validation(m) && m@ == "未配置裁剪区域，请先设置裁剪框。"@,
        },
{
    match override_index {
        Some(i) => {
            let item = params.file_overrides[i].1;
            match item.rect {
                Some(rect) => return Ok(CropSource::Rect(rect)),
                None => {
                    if item.has_percent_rect {
                        return Ok(CropSource::OverridePercent(i));
                    }
                },
            }
        },
        None => {},
    }
    match params.apply_mode {
        CropApplyMode::Absolute => match params.default_rect {
            Some(rect) => Ok(CropSource::Rect(rect)),
            None => Err(ProcessError::Validation(String::from_str("未配置裁剪区域，请先设置裁剪框。"))),
        },
        CropApplyMode::Percent => if params.has_default_percent_rect {
            Ok(CropSource::DefaultPercent)
        } else {
            Err(ProcessError::Validation(String::from_str("未配置裁剪区域，请先设置裁剪框。")))
        },
    }
}

/// The pixel rectangle of a fractional crop, from its rounded corner and
/// size: an origin outside the image is an error; the size is clipped to
/// the image.
pub open spec fn clipped_percent_rect(x: u32, y: u32, w: u32, h: u32, width: u32, height: u32) -> Result<CropRect, Seq<char>> {
    if x >= width || y >= height {
        Err(origin_message(width, height))
    } else {
        let cw = if x + w > width { (width - x) as u32 } else { w };
        let ch = if y + h > height { (height - y) as u32 } else { h };
        if cw == 0 || ch == 0 {
            Err("裁剪宽高必须大于 0。"@)
        } else {
            Ok(CropRect { x, y, width: cw, height: ch })
        }
    }
}

pub fn clip_percent_rect(x: u32, y: u32, w: u32, h: u32, width: u32, height: u32) -> (r: Result<CropRect, ProcessError>)
    ensures
        match clipped_percent_rect(x, y, w, h, width, height) {
            Ok(rect) => r == Ok::<CropRect, ProcessError>(rect),
            Err(m) => r matches Err(e) && e matches ProcessError::Validation(t) && t@ == m,
        },
{
    if x >= width || y >= height {
        let mut m = chars_of("裁剪起点超出图片尺寸（图片: ");
        extend_chars(&mut m, &decimal_vec(width));
        extend_chars(&mut m, &chars_of("x"));
        extend_chars(&mut m, &decimal_vec(height));
        extend_chars(&mut m, &chars_of("）。"));
        proof {
            assert(m@ =~= origin_message(width, height));
        }
        return Err(ProcessError::Validation(string_of(&m)));
    }
    let cw: u32 = if w > width - x { width - x } else { w };
    let ch: u32 = if h > height - y { height - y } else { h };
    if cw == 0 || ch == 0 {
        return Err(ProcessError::Validation(String::from_str("裁剪宽高必须大于 0。")));
    }
    Ok(CropRect { x, y, width: cw, height: ch })
}

/// What cropping one file amounts to.
#[derive(Debug)]
pub enum ManualCropPlan {
    /// Copy the input as it is, then report `result`.
    CopyInput { result: ProcessResult },
    /// Crop with the rectangle from `source`.
    Crop(CropSource),
}

/// The manual crop processor.
#[derive(Clone, Copy, Debug)]
pub struct ManualCropProcessor;

impl ManualCropProcessor {
    pub fn descriptor(&self) -> (d: ProcessorDescriptor)
        ensures
            d.id@ == "manual-crop"@,
            d.display_name@ == "手动裁剪"@,
            d.enabled,
            d.notes@ == "自定义裁剪区域，支持比例锁定与逐张配置。"@,
    {
        ProcessorDescriptor {
            id: String::from_str("manual-crop"),
            display_name: String::from_str("手动裁剪"),
            enabled: true,
            notes: String::from_str("自定义裁剪区域，支持比例锁定与逐张配置。"),
        }
    }

    /// Refuses exactly the parameters whose default fractions were refused,
    /// with that message.
    pub fn validate(&self, params: &ManualCropParams) -> (r: Result<(), ProcessError>)
        ensures
            r is Ok <==> params.default_percent_problem is None,
            r matches Err(e) ==> e matches ProcessError::Validation(m)
                && (params.default_percent_problem matches Some(t) && m@ == t@),
    {
        match &params.default_percent_problem {
            Some(m) => Err(ProcessError::Validation(m.clone())),
            None => Ok(()),
        }
    }

    /// A skipping override copies the file; otherwise the rectangle's
    /// source is resolved.
    pub fn plan(&self, params: &ManualCropParams, input_path: &str, output_path: &str) -> (r: Result<ManualCropPlan, ProcessError>)
        ensures
            skips_file(*params, input_path@) ==> (r matches Ok(ManualCropPlan::CopyInput { result })
                && result.status == ProcessStatus::Success && result.message@ == "已跳过裁剪，原图已复制。"@
                && (result.output_path matches Some(p) && p@ == output_path@)),
            !skips_file(*params, input_path@) ==> match crop_source_for(*params, override_for(*params, input_path@)) {
                Some(s) => r matches Ok(ManualCropPlan::Crop(t)) && t == s,
                None => r matches Err(e) && e matches ProcessError::Validation(m) && m@ == "未配置裁剪区域，请先设置裁剪框。"@,
            },
    {
        let ov = resolve_override(params, input_path);
        match ov {
            Some(i) => {
                if params.file_overrides[i].1.skip {
                    let result = ProcessResult::success(String::from_str("已跳过裁剪，原图已复制。"), String::from_str(output_path));
                    return Ok(ManualCropPlan::CopyInput { result });
                }
            },
            None => {},
        }
        match resolve_crop_source(params, ov) {
            Ok(s) => Ok(ManualCropPlan::Crop(s)),
            Err(e) => Err(e),
        }
    }

    /// The report of a finished crop.
    pub fn crop_result(&self, input: ImageMetadata, output_size: (u32, u32), output_path: &str) -> (r: ProcessResult)
        ensures
            r.status == ProcessStatus::Success,
            r.message@ == "裁剪完成。"@,
            r.output_path matches Some(p) && p@ == output_path@,
            r.input_metadata == Some(input),
            r.output_metadata matches Some(m) && m.width == output_size.0 && m.height == output_size.1
                && (m.format matches Some(f) && f@ == "rgba8"@),
    {
        let mut result = ProcessResult::success(String::from_str("裁剪完成。"), String::from_str(output_path));
        result.input_metadata = Some(input);
        result.output_metadata = Some(ImageMetadata {
            width: output_size.0,
            height: output_size.1,
            format: Some(String::from_str("rgba8")),
        });
        result
    }
}

} // verus!
