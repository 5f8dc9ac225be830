//! Resolution transform: parameter checks, per-file targets, transparent
//! canvases and the result message. Resampling itself is floating point
//! and happens outside this crate.

use vstd::prelude::*;
use crate::pixels::{Rgba8, RgbaBuffer, crop_window};
use crate::processor::{ImageMetadata, ProcessError, ProcessResult, ProcessStatus, ProcessorDescriptor};
use crate::trim_transparent::{calculate_non_transparent_bbox, has_visible, tight_box, BoundingBox};
use crate::crop_runner::{same_chars, is_text, extension_of, extension_of_spec};
use crate::output_resolver::text_views;
use crate::text::{lower, decimal, chars_of, lower_vec, string_of, extend_chars, decimal_vec};

verus! {

/// Largest accepted target edge.
pub const MAX_TARGET_EDGE: u32 = 16384;

#[derive(Clone, Copy, PartialEq, Eq, Structural, Debug)]
pub struct ResolutionTarget {
    pub target_width: u32,
    pub target_height: u32,
}

/// Parameters: the default target, the sharpness of upscaling, and targets
/// for single files keyed by their path.
#[derive(Debug)]
pub struct ResolutionTransformParams {
    pub target_width: u32,
    pub target_height: u32,
    pub upscale_sharpness: u8,
    pub file_overrides: Vec<(String, ResolutionTarget)>,
}

pub fn default_target_width() -> (r: u32)
    ensures
        r == 1920,
{
    1920
}

pub fn default_target_height() -> (r: u32)
    ensures
        r == 1080,
{
    1080
}

pub fn default_upscale_sharpness() -> (r: u8)
    ensures
        r == 70,
{
    70
}

impl ResolutionTransformParams {
    /// 1920 x 1080, sharpness 70, no per-file targets.
    pub fn default_params() -> (p: ResolutionTransformParams)
        ensures
            p.target_width == 1920,
            p.target_height == 1080,
            p.upscale_sharpness == 70,
            p.file_overrides@.len() == 0,
    {
        ResolutionTransformParams {
            target_width: default_target_width(),
            target_height: default_target_height(),
            upscale_sharpness: default_upscale_sharpness(),
            file_overrides: Vec::new(),
        }
    }
}

/// A path with back slashes turned into slashes, in ASCII lower case.
pub open spec fn path_key(raw: Seq<char>) -> Seq<char> {
    lower(raw.map_values(|c: char| if c == '\\' { '/' } else { c }))
}

pub fn normalize_path_key(raw: &str) -> (r: String)
    ensures
        r@ == path_key(raw@),
{
    let v = chars_of(raw);
    let mut s: Vec<char> = Vec::new();
    let mut i: usize = 0;
    while i < v.len()
        invariant
            i <= v.len(),
            s@ == v@.map_values(|c: char| if c == '\\' { '/' } else { c }).subrange(0, i as int),
        decreases v.len() - i,
    {
        s.push(if v[i] == '\\' { '/' } else { v[i] });
        i = i + 1;
        proof {
            assert(s@ =~= v@.map_values(|c: char| if c == '\\' { '/' } else { c }).subrange(0, i as int));
        }
    }
    proof {
        assert(s@ =~= v@.map_values(|c: char| if c == '\\' { '/' } else { c }));
    }
    string_of(&lower_vec(&s))
}

/// The message of an out-of-range target, if any.
pub open spec fn target_problem(width: u32, height: u32, prefix: Seq<char>) -> Option<Seq<char>> {
    if !(1 <= width <= MAX_TARGET_EDGE) {
        Some(prefix + "targetWidth 必须在 1 到 16384 之间。"@)
    } else if !(1 <= height <= MAX_TARGET_EDGE) {
        Some(prefix + "targetHeight 必须在 1 到 16384 之间。"@)
    } else {
        None
    }
}

pub fn validate_resolution_target(width: u32, height: u32, prefix: &str) -> (r: Result<(), ProcessError>)
    ensures
        r is Ok <==> target_problem(width, height, prefix@) is None,
        r matches Err(e) ==> e matches ProcessError::Validation(m) && Some(m@) == target_problem(width, height, prefix@),
{
    if !(1 <= width && width <= MAX_TARGET_EDGE) {
        let mut m = chars_of(prefix);
        extend_chars(&mut m, &chars_of("targetWidth 必须在 1 到 16384 之间。"));
        return Err(ProcessError::Validation(string_of(&m)));
    }
    if !(1 <= height && height <= MAX_TARGET_EDGE) {
        let mut m = chars_of(prefix);
        extend_chars(&mut m, &chars_of("targetHeight 必须在 1 到 16384 之间。"));
        return Err(ProcessError::Validation(string_of(&m)));
    }
    Ok(())
}

/// The prefix naming a per-file target in messages.
pub open spec fn override_prefix(path: Seq<char>) -> Seq<char> {
    "fileOverrides["@ + path + "]."@
}

/// The first per-file target (in list order) that is out of range.
pub open spec fn overrides_problem(overrides: Seq<(String, ResolutionTarget)>) -> Option<Seq<char>>
    decreases overrides.len(),
{
    if overrides.len() == 0 {
        None
    } else {
        match overrides_problem(overrides.drop_last()) {
            Some(m) => Some(m),
            None => target_problem(
                overrides.last().1.target_width,
                overrides.last().1.target_height,
                override_prefix(overrides.last().0@),
            ),
        }
    }
}

/// The message of the first out-of-range parameter: the default target,
/// then the sharpness (1 to 100), then the per-file targets.
pub open spec fn transform_params_problem(p: ResolutionTransformParams) -> Option<Seq<char>> {
    match target_problem(p.target_width, p.target_height, Seq::empty()) {
        Some(m) => Some(m),
        None => if !(1 <= p.upscale_sharpness <= 100) {
            Some("upscaleSharpness 必须在 1 到 100 之间。"@)
        } else {
            overrides_problem(p.file_overrides@)
        },
    }
}

/// The resolution transform processor.
#[derive(Clone, Copy, Debug)]
pub struct ResolutionTransformProcessor;

impl ResolutionTransformProcessor {
    pub fn descriptor(&self) -> (d: ProcessorDescriptor)
        ensures
            d.id@ == "resolution-transform"@,
            d.display_name@ == "变换分辨率"@,
            d.enabled,
            d.notes@ == "支持按目标分辨率缩放/超分，PNG 可自动透明居中填充；支持批量默认值和单文件覆盖。"@,
    {
        ProcessorDescriptor {
            id: String::from_str("resolution-transform"),
            display_name: String::from_str("变换分辨率"),
            enabled: true,
            notes: String::from_str("支持按目标分辨率缩放/超分，PNG 可自动透明居中填充；支持批量默认值和单文件覆盖。"),
        }
    }

    pub fn validate(&self, params: &ResolutionTransformParams) -> (r: Result<(), ProcessError>)
        ensures
            r is Ok <==> transform_params_problem(*params) is None,
            r matches Err(e) ==> e matches ProcessError::Validation(m) && Some(m@) == transform_params_problem(*params),
    {
        match validate_resolution_target(params.target_width, params.target_height, "") {
            Err(e) => {
                proof {
                    assert(""@ =~= Seq::<char>::empty()) by { reveal_strlit(""); }
                }
                return Err(e);
            },
            Ok(()) => {
                proof {
                    assert(""@ =~= Seq::<char>::empty()) by { reveal_strlit(""); }
                }
            },
        }
        if !(1 <= params.upscale_sharpness && params.upscale_sharpness <= 100) {
            return Err(ProcessError::Validation(String::from_str("upscaleSharpness 必须在 1 到 100 之间。")));
        }
        let mut i: usize = 0;
        while i < params.file_overrides.len()
            invariant
                i <= params.file_overrides.len(),
                target_problem(params.target_width, params.target_height, Seq::empty()) is None,
                1 <= params.upscale_sharpness <= 100,
                overrides_problem(params.file_overrides@.subrange(0, i as int)) is None,
            decreases params.file_overrides.len() - i,
        {
            let (path, target) = &params.file_overrides[i];
            proof {
                assert(params.file_overrides@.subrange(0, i + 1).drop_last() =~= params.file_overrides@.subrange(0, i as int));
            }
            let mut prefix = chars_of("fileOverrides[");
            extend_chars(&mut prefix, &chars_of(path.as_str()));
            extend_chars(&mut prefix, &chars_of("]."));
            let prefix_text = string_of(&prefix);
            proof {
                assert(prefix_text@ =~= override_prefix(path@));
            }
            match validate_resolution_target(target.target_width, target.target_height, prefix_text.as_str()) {
                Err(e) => {
                    proof {
                        let sub = params.file_overrides@.subrange(0, i + 1);
                        assert(sub.last() == params.file_overrides@[i as int]);
                        assert(sub.drop_last() =~= params.file_overrides@.subrange(0, i as int));
                        assert(overrides_problem(sub) == target_problem(target.target_width, target.target_height, override_prefix(path@)));
                        assert(overrides_problem(sub) is Some);
                        assert(overrides_problem(sub) == overrides_problem(params.file_overrides@)) by {
                            lemma_overrides_problem_extends(params.file_overrides@, i as int + 1);
                        }
                    }
                    return Err(e);
                },
                Ok(()) => {},
            }
            i = i + 1;
        }
        proof {
            assert(params.file_overrides@.subrange(0, params.file_overrides@.len() as int) =~= params.file_overrides@);
        }
        Ok(())
    }
}

/// Once a prefix of the overrides has a problem, so has the whole list.
proof fn lemma_overrides_problem_extends(all: Seq<(String, ResolutionTarget)>, n: int)
    requires
        0 <= n <= all.len(),
        overrides_problem(all.subrange(0, n)) is Some,
    ensures
        overrides_problem(all) == overrides_problem(all.subrange(0, n)),
    decreases all.len() - n,
{
    if n < all.len() {
        assert(all.subrange(0, n + 1).drop_last() =~= all.subrange(0, n));
        lemma_overrides_problem_extends(all, n + 1);
    } else {
        assert(all.subrange(0, n) =~= all);
    }
}

/// The target of an input: the per-file target whose key is the input path
/// as given, else the first whose normalised key equals the normalised
/// input path, else the default. The flag tells whether a per-file target
/// was used.
pub open spec fn target_for(p: ResolutionTransformParams, input: Seq<char>) -> (u32, u32, bool) {
    let o = p.file_overrides@;
    if exists|i: int| 0 <= i < o.len() && (#[trigger] o[i]).0@ == input {
        let i = choose|i: int| 0 <= i < o.len() && (#[trigger] o[i]).0@ == input && forall|j: int| 0 <= j < i ==> (#[trigger] o[j]).0@ != input;
        (o[i].1.target_width, o[i].1.target_height, true)
    } else if exists|i: int| 0 <= i < o.len() && path_key((#[trigger] o[i]).0@) == path_key(input) {
        let i = choose|i: int| 0 <= i < o.len() && path_key((#[trigger] o[i]).0@) == path_key(input) && forall|j: int| 0 <= j < i ==> path_key((#[trigger] o[j]).0@) != path_key(input);
        (o[i].1.target_width, o[i].1.target_height, true)
    } else {
        (p.target_width, p.target_height, false)
    }
}

#[verifier::spinoff_prover]
#[verifier::rlimit(40)]
pub fn resolve_target_for_input(params: &ResolutionTransformParams, input_path: &str) -> (r: (u32, u32, bool))
    ensures
        r == target_for(*params, input_path@),
{
    let ghost o = params.file_overrides@;
    let input = chars_of(input_path);
    let mut i: usize = 0;
    while i < params.file_overrides.len()
        invariant
            o == params.file_overrides@,
            input@ == input_path@,
            i <= o.len(),
            forall|j: int| 0 <= j < i ==> (#[trigger] o[j]).0@ != input_path@,
        decreases o.len() - i,
    {
        if same_chars(&chars_of(params.file_overrides[i].0.as_str()), &input) {
            let t = params.file_overrides[i].1;
            proof {
                let k = choose|k: int| 0 <= k < o.len() && (#[trigger] o[k]).0@ == input_path@ && forall|j: int| 0 <= j < k ==> (#[trigger] o[j]).0@ != input_path@;
                assert(0 <= i < o.len() && o[i as int].0@ == input_path@ && forall|j: int| 0 <= j < i ==> (#[trigger] o[j]).0@ != input_path@);
                if k < i {
                    assert(o[k].0@ != input_path@);
                } else if k > i {
                    assert(o[i as int].0@ != input_path@);
                }
            }
            return (t.target_width, t.target_height, true);
        }
        i = i + 1;
    }
    let key = chars_of(normalize_path_key(input_path).as_str());
    let mut j: usize = 0;
    while j < params.file_overrides.len()
        invariant
            o == params.file_overrides@,
            key@ == path_key(input_path@),
            j <= o.len(),
            forall|k: int| 0 <= k < o.len() ==> (#[trigger] o[k]).0@ != input_path@,
            forall|k: int| 0 <= k < j ==> path_key((#[trigger] o[k]).0@) != path_key(input_path@),
        decreases o.len() - j,
    {
        let other = normalize_path_key(params.file_overrides[j].0.as_str());
        if same_chars(&chars_of(other.as_str()), &key) {
            let t = params.file_overrides[j].1;
            proof {
                let k = choose|k: int| 0 <= k < o.len() && path_key((#[trigger] o[k]).0@) == path_key(input_path@) && forall|m: int| 0 <= m < k ==> path_key((#[trigger] o[m]).0@) != path_key(input_path@);
                assert(0 <= j < o.len() && path_key(o[j as int].0@) == path_key(input_path@) && forall|m: int| 0 <= m < j ==> path_key((#[trigger] o[m]).0@) != path_key(input_path@));
                if k < j {
                    assert(path_key(o[k].0@) != path_key(input_path@));
                } else if k > j {
                    assert(path_key(o[j as int].0@) != path_key(input_path@));
                }
            }
            return (t.target_width, t.target_height, true);
        }
        j = j + 1;
    }
    (params.target_width, params.target_height, false)
}

/// A fully transparent pixel.
pub open spec fn clear_pixel() -> Rgba8 {
    Rgba8 { r: 0, g: 0, b: 0, a: 0 }
}

/// The pixel of `content` centred on a transparent `width` x `height`
/// canvas, at canvas position `(x, y)`.
pub open spec fn centred_px(content: RgbaBuffer, width: u32, height: u32, x: int, y: int) -> Rgba8 {
    let ox = (width - content.w()) / 2;
    let oy = (height - content.h()) / 2;
    if ox <= x < ox + content.w() && oy <= y < oy + content.h() {
        content.px(x - ox, y - oy)
    } else {
        clear_pixel()
    }
}

/// `o` places a `w`-wide content in a `total`-wide canvas with margins that
/// differ by at most one, the extra one on the far side.
pub open spec fn balanced_offset(w: int, total: int, o: int) -> bool {
    &&& 0 <= o
    &&& o + w <= total
    &&& ((total - w - o) - o == 0 || (total - w - o) - o == 1)
}

/// Centring keeps the content as it is and puts it in the middle: for the
/// offsets that leave margins equal up to one pixel on each axis, every
/// canvas pixel inside the placed content is the content's pixel at that
/// offset, every other canvas pixel is transparent; and such offsets
/// exist whenever the content fits.
pub proof fn law_centred_between_equal_margins(content: RgbaBuffer, width: u32, height: u32, ox: int, oy: int)
    requires
        content.w() <= width,
        content.h() <= height,
    ensures
        exists|o: int| #[trigger] balanced_offset(content.w() as int, width as int, o),
        exists|o: int| #[trigger] balanced_offset(content.h() as int, height as int, o),
        balanced_offset(content.w() as int, width as int, ox) && balanced_offset(content.h() as int, height as int, oy) ==>
            forall|x: int, y: int| 0 <= x < width && 0 <= y < height ==> #[trigger] centred_px(content, width, height, x, y) == (
                if ox <= x < ox + content.w() && oy <= y < oy + content.h() {
                    content.px(x - ox, y - oy)
                } else {
                    clear_pixel()
                }),
{
    let cx = (width - content.w()) / 2;
    let cy = (height - content.h()) / 2;
    assert(balanced_offset(content.w() as int, width as int, cx));
    assert(balanced_offset(content.h() as int, height as int, cy));
    if balanced_offset(content.w() as int, width as int, ox) && balanced_offset(content.h() as int, height as int, oy) {
        assert(ox == cx);
        assert(oy == cy);
    }
}

/// `content` drawn in the middle of a transparent canvas (offsets rounded
/// down).
pub fn center_on_transparent_canvas(content: &RgbaBuffer, width: u32, height: u32) -> (canvas: RgbaBuffer)
    requires
        content.wf(),
        content.w() <= width,
        content.h() <= height,
        4 * (width as int * height as int) <= usize::MAX,
    ensures
        canvas.wf(),
        canvas.w() == width,
        canvas.h() == height,
        forall|x: int, y: int| #![trigger canvas.px(x, y)] canvas.contains(x, y) ==> canvas.px(x, y) == centred_px(*content, width, height, x, y),
{
    let mut canvas = RgbaBuffer::filled(width, height, Rgba8 { r: 0, g: 0, b: 0, a: 0 });
    let (cw, ch) = content.dimensions();
    let offset_x = (width - cw) / 2;
    let offset_y = (height - ch) / 2;
    let mut y: u32 = 0;
    while y < ch
        invariant
            content.wf(),
            canvas.wf(),
            cw == content.w(),
            ch == content.h(),
            cw <= width,
            ch <= height,
            canvas.w() == width,
            canvas.h() == height,
            offset_x == (width - cw) / 2,
            offset_y == (height - ch) / 2,
            y <= ch,
            forall|a: int, b: int| #![trigger canvas.px(a, b)] canvas.contains(a, b) ==> canvas.px(a, b) == (
                if offset_x <= a < offset_x + cw && offset_y <= b < offset_y + y {
                    content.px(a - offset_x, b - offset_y)
                } else {
                    clear_pixel()
                }),
        decreases ch - y,
    {
        let mut x: u32 = 0;
        while x < cw
            invariant
                content.wf(),
                canvas.wf(),
                cw == content.w(),
                ch == content.h(),
                cw <= width,
                ch <= height,
                canvas.w() == width,
                canvas.h() == height,
                offset_x == (width - cw) / 2,
                offset_y == (height - ch) / 2,
                y < ch,
                x <= cw,
                forall|a: int, b: int| #![trigger canvas.px(a, b)] canvas.contains(a, b) ==> canvas.px(a, b) == (
                    if offset_x <= a < offset_x + cw && offset_y <= b < offset_y + y {
                        content.px(a - offset_x, b - offset_y)
                    } else if offset_x <= a < offset_x + x && b == offset_y + y {
                        content.px(a - offset_x, b - offset_y)
                    } else {
                        clear_pixel()
                    }),
            decreases cw - x,
        {
            let p = content.get_pixel(x, y);
            canvas.put_pixel(offset_x + x, offset_y + y, p);
            x = x + 1;
        }
        y = y + 1;
    }
    canvas
}

/// What is resized for a PNG output: the visible content of the source, or
/// a single transparent pixel when there is none (the flag says so).
pub fn png_content(source: &RgbaBuffer) -> (r: (RgbaBuffer, bool))
    requires
        source.wf(),
    ensures
        r.0.wf(),
        r.1 <==> !has_visible(source, 0),
        r.1 ==> r.0.w() == 1 && r.0.h() == 1 && r.0.px(0, 0) == clear_pixel(),
        !r.1 ==> exists|b: BoundingBox| #[trigger] tight_box(source, 0, b) && {
            &&& r.0.w() == b.right - b.left + 1
            &&& r.0.h() == b.bottom - b.top + 1
            &&& forall|i: int, j: int| #![trigger r.0.px(i, j)] r.0.contains(i, j) ==> r.0.px(i, j) == source.px(b.left + i, b.top + j)
        },
{
    let (_sw, _sh) = source.dimensions();
    match calculate_non_transparent_bbox(source, 0) {
        Some(b) => {
            let img = crop_window(source, b.left, b.top, b.right - b.left + 1, b.bottom - b.top + 1);
            (img, false)
        },
        None => (RgbaBuffer::filled(1, 1, Rgba8 { r: 0, g: 0, b: 0, a: 0 }), true),
    }
}

/// What resampling did to the content, as the message names it.
#[derive(Clone, Copy, PartialEq, Eq, Structural, Debug)]
pub enum ResizeOperation {
    Upscale,
    Downscale,
    Keep,
    Placeholder,
}

pub open spec fn operation_label(op: ResizeOperation) -> Seq<char> {
    match op {
        ResizeOperation::Upscale => "超分放大"@,
        ResizeOperation::Downscale => "缩放压缩"@,
        ResizeOperation::Keep => "尺寸保持"@,
        ResizeOperation::Placeholder => "透明占位"@,
    }
}

pub fn operation_label_text(op: ResizeOperation) -> (s: String)
    ensures
        s@ == operation_label(op),
{
    match op {
        ResizeOperation::Upscale => String::from_str("超分放大"),
        ResizeOperation::Downscale => String::from_str("缩放压缩"),
        ResizeOperation::Keep => String::from_str("尺寸保持"),
        ResizeOperation::Placeholder => String::from_str("透明占位"),
    }
}

/// The lower-cased extension of the output path, empty without one.
pub open spec fn output_ext(path: Seq<char>) -> Seq<char> {
    match extension_of_spec(path) {
        Some(e) => e,
        None => Seq::empty(),
    }
}

pub open spec fn override_note(is_override: bool) -> Seq<char> {
    if is_override { "（已应用单文件目标分辨率）"@ } else { Seq::empty() }
}

/// The result message of a transform. A PNG output says whether it was
/// centred on a transparent canvas; a JPEG or WebP output whose target
/// ratio differs from the source says that the source ratio was kept.
pub open spec fn transform_message(
    source: (u32, u32),
    output: (u32, u32),
    target: (u32, u32),
    op: ResizeOperation,
    ext: Seq<char>,
    padded: bool,
    ratio_mismatch: bool,
    is_override: bool,
) -> Seq<char> {
    let head = "分辨率变换完成: "@ + decimal(source.0 as nat) + "x"@ + decimal(source.1 as nat) + " -> "@
        + decimal(output.0 as nat) + "x"@ + decimal(output.1 as nat) + "，目标 "@ + decimal(target.0 as nat)
        + "x"@ + decimal(target.1 as nat) + "，"@ + operation_label(op);
    let note = override_note(is_override);
    if ext == "png"@ {
        if padded {
            head + "，已透明居中填充"@ + note + "。"@
        } else {
            head + note + "。"@
        }
    } else if ratio_mismatch && (ext == "jpg"@ || ext == "jpeg"@ || ext == "webp"@) {
        head + "。目标比例与原图不一致，已按原比例适配"@ + note + "。"@
    } else {
        head + note + "。"@
    }
}

fn push_dims(m: &mut Vec<char>, w: u32, h: u32)
    ensures
        final(m)@ == old(m)@ + decimal(w as nat) + "x"@ + decimal(h as nat),
{
    extend_chars(m, &decimal_vec(w));
    extend_chars(m, &chars_of("x"));
    extend_chars(m, &decimal_vec(h));
    proof {
        assert(final(m)@ =~= old(m)@ + decimal(w as nat) + "x"@ + decimal(h as nat));
    }
}

/// Builds the message of `transform_message`; `ext` is the output
/// extension as `output_ext` gives it.
pub fn transform_message_text(
    source: (u32, u32),
    output: (u32, u32),
    target: (u32, u32),
    op: ResizeOperation,
    ext: &str,
    padded: bool,
    ratio_mismatch: bool,
    is_override: bool,
) -> (r: String)
    ensures
        r@ == transform_message(source, output, target, op, ext@, padded, ratio_mismatch, is_override),
{
    let mut m = chars_of("分辨率变换完成: ");
    push_dims(&mut m, source.0, source.1);
    extend_chars(&mut m, &chars_of(" -> "));
    push_dims(&mut m, output.0, output.1);
    extend_chars(&mut m, &chars_of("，目标 "));
    push_dims(&mut m, target.0, target.1);
    extend_chars(&mut m, &chars_of("，"));
    extend_chars(&mut m, &chars_of(operation_label_text(op).as_str()));
    let ghost head = m@;
    let note = if is_override { chars_of("（已应用单文件目标分辨率）") } else { Vec::new() };
    let e = chars_of(ext);
    if is_text(&e, "png") {
        if padded {
            extend_chars(&mut m, &chars_of("，已透明居中填充"));
        }
    } else if ratio_mismatch && (is_text(&e, "jpg") || is_text(&e, "jpeg") || is_text(&e, "webp")) {
        extend_chars(&mut m, &chars_of("。目标比例与原图不一致，已按原比例适配"));
    }
    extend_chars(&mut m, &note);
    extend_chars(&mut m, &chars_of("。"));
    proof {
        assert(head =~= "分辨率变换完成: "@ + decimal(source.0 as nat) + "x"@ + decimal(source.1 as nat) + " -> "@
            + decimal(output.0 as nat) + "x"@ + decimal(output.1 as nat) + "，目标 "@ + decimal(target.0 as nat)
            + "x"@ + decimal(target.1 as nat) + "，"@ + operation_label(op));
        assert(note@ == override_note(is_override));
        assert(m@ =~= transform_message(source, output, target, op, ext@, padded, ratio_mismatch, is_override));
    }
    string_of(&m)
}

/// The image written for a resampled content: on a PNG output of another
/// size than the target it is centred on a transparent target canvas
/// (the flag tells), otherwise it is written as it is.
pub fn compose_transform_image(resized: RgbaBuffer, target_width: u32, target_height: u32, output_is_png: bool) -> (r: (RgbaBuffer, bool))
    requires
        resized.wf(),
        output_is_png ==> resized.w() <= target_width && resized.h() <= target_height
            && 4 * (target_width as int * target_height as int) <= usize::MAX,
    ensures
        r.0.wf(),
        r.1 <==> output_is_png && !(resized.w() == target_width && resized.h() == target_height),
        !r.1 ==> r.0 == resized,
        r.1 ==> r.0.w() == target_width && r.0.h() == target_height
            && forall|x: int, y: int| #![trigger r.0.px(x, y)] r.0.contains(x, y) ==> r.0.px(x, y) == centred_px(resized, target_width, target_height, x, y),
{
    if output_is_png {
        let (w, h) = resized.dimensions();
        if w == target_width && h == target_height {
            (resized, false)
        } else {
            (center_on_transparent_canvas(&resized, target_width, target_height), true)
        }
    } else {
        (resized, false)
    }
}

/// The result of a transform: the message of `transform_message` (with
/// the output size taken from `final_image`) and the metadata of the
/// source and the written image.
pub fn transform_result(
    source_size: (u32, u32),
    final_image: &RgbaBuffer,
    target: (u32, u32, bool),
    op: ResizeOperation,
    padded: bool,
    ratio_mismatch: bool,
    input_path: &str,
    output_path: &str,
) -> (r: ProcessResult)
    requires
        final_image.wf(),
    ensures
        r.status == ProcessStatus::Success,
        r.message@ == transform_message(source_size, (final_image.w() as u32, final_image.h() as u32),
            (target.0, target.1), op, output_ext(output_path@), padded, ratio_mismatch, target.2),
        r.output_path matches Some(p) && p@ == output_path@,
        r.input_metadata matches Some(m) && m.width == source_size.0 && m.height == source_size.1
            && m.format.deep_view() == extension_of_spec(input_path@),
        r.output_metadata matches Some(m) && m.width == final_image.w() && m.height == final_image.h()
            && m.format.deep_view() == extension_of_spec(output_path@),
{
    let (ow, oh) = final_image.dimensions();
    let out_ext = extension_of(output_path);
    let ext = match &out_ext {
        Some(e) => e.clone(),
        None => String::new(),
    };
    proof {
        assert(ext@ == output_ext(output_path@)) by { reveal_strlit(""); }
    }
    let message = transform_message_text(source_size, (ow, oh), (target.0, target.1), op, ext.as_str(), padded, ratio_mismatch, target.2);
    let mut result = ProcessResult::success(message, String::from_str(output_path));
    result.input_metadata = Some(ImageMetadata {
        width: source_size.0,
        height: source_size.1,
        format: extension_of(input_path),
    });
    result.output_metadata = Some(ImageMetadata { width: ow, height: oh, format: out_ext });
    result
}

} // verus!
