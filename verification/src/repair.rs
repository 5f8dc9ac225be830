//! Image repair: parameter checks, the integer parts of denoising, the
//! scratch detector, and the size of an upscaled image.

use vstd::prelude::*;
use crate::pixels::{Rgba8, RgbaBuffer, lemma_index_in_bounds, count_in_rect, count_in_row};
use crate::processor::{ProcessError, ProcessorDescriptor};
use crate::crop_runner::is_text;
use crate::text::{CharClass, lower, trim, chars_of, lower_vec, trim_vec, decimal, decimal_vec, decimal_vec_u64, extend_chars, string_of};

verus! {

/// Repair parameters; defaults are mode `auto`, strength 50, factor 2 and
/// sharpness 70.
#[derive(Debug)]
pub struct RepairParams {
    pub mode: String,
    pub strength: u8,
    pub upscale_factor: u8,
    pub upscale_sharpness: u8,
}

pub fn default_mode() -> (r: String)
    ensures
        r@ == "auto"@,
{
    String::from_str("auto")
}

pub fn default_strength() -> (r: u8)
    ensures
        r == 50,
{
    50
}

pub fn default_upscale_factor() -> (r: u8)
    ensures
        r == 2,
{
    2
}

pub fn default_upscale_sharpness() -> (r: u8)
    ensures
        r == 70,
{
    70
}

impl RepairParams {
    pub fn default_params() -> (p: RepairParams)
        ensures
            p.mode@ == "auto"@,
            p.strength == 50,
            p.upscale_factor == 2,
            p.upscale_sharpness == 70,
    {
        RepairParams {
            mode: default_mode(),
            strength: default_strength(),
            upscale_factor: default_upscale_factor(),
            upscale_sharpness: default_upscale_sharpness(),
        }
    }
}

/// The four repair modes.
#[derive(Clone, Copy, PartialEq, Eq, Structural, Debug)]
pub enum RepairMode {
    Auto,
    Denoise,
    Scratch,
    Upscale,
}

/// The mode a text names, ignoring surrounding white space and ASCII case.
pub open spec fn repair_mode_of(raw: Seq<char>) -> Option<RepairMode> {
    let t = lower(trim(raw, CharClass::WhiteSpace));
    if t == "auto"@ {
        Some(RepairMode::Auto)
    } else if t == "denoise"@ {
        Some(RepairMode::Denoise)
    } else if t == "scratch"@ {
        Some(RepairMode::Scratch)
    } else if t == "upscale"@ {
        Some(RepairMode::Upscale)
    } else {
        None
    }
}

pub fn normalize_mode(raw: &str) -> (r: Option<RepairMode>)
    ensures
        r == repair_mode_of(raw@),
{
    let t = lower_vec(&trim_vec(&chars_of(raw), CharClass::WhiteSpace));
    if is_text(&t, "auto") {
        Some(RepairMode::Auto)
    } else if is_text(&t, "denoise") {
        Some(RepairMode::Denoise)
    } else if is_text(&t, "scratch") {
        Some(RepairMode::Scratch)
    } else if is_text(&t, "upscale") {
        Some(RepairMode::Upscale)
    } else {
        None
    }
}

/// What `str::to_lowercase` (full Unicode lower-casing) gives for a text.
pub uninterp spec fn unicode_lowercase(s: Seq<char>) -> Seq<char>;

/// `str::to_lowercase`. On ASCII text it is the ASCII lower case (the
/// Unicode lower case of an ASCII letter is its ASCII lower case, and other
/// ASCII characters have none).
#[verifier::external_body]
fn to_lowercase_text(s: &str) -> (r: String)
    ensures
        r@ == unicode_lowercase(s@),
        all_ascii(s@) ==> r@ == lower(s@),
{
    s.to_lowercase()
}

/// The message of the first repair parameter that is out of range, if any,
/// for parameters whose mode has already been lower-cased.
pub open spec fn repair_params_problem_lowered(lowered: Seq<char>, strength: u8, factor: u8, sharpness: u8) -> Option<Seq<char>> {
    if repair_mode_of(lowered) is None {
        Some("mode 不受支持，请使用 auto/denoise/scratch/upscale。"@)
    } else if !(1 <= strength <= 100) {
        Some("strength 必须在 1 到 100 之间。"@)
    } else if !(2 <= factor <= 4) {
        Some("upscaleFactor 必须在 2 到 4 之间。"@)
    } else if !(1 <= sharpness <= 100) {
        Some("upscaleSharpness 必须在 1 到 100 之间。"@)
    } else {
        None
    }
}

/// The message of the first repair parameter that is out of range, if any.
/// The mode is lower-cased by full Unicode rules before it is read.
pub open spec fn repair_params_problem(mode: Seq<char>, strength: u8, factor: u8, sharpness: u8) -> Option<Seq<char>> {
    repair_params_problem_lowered(unicode_lowercase(mode), strength, factor, sharpness)
}

/// Every character of `s` is ASCII.
pub open spec fn all_ascii(s: Seq<char>) -> bool {
    forall|i: int| 0 <= i < s.len() ==> (#[trigger] s[i] as u32) < 128
}

/// The image repair processor.
#[derive(Clone, Copy, Debug)]
pub struct RepairProcessor;

impl RepairProcessor {
    pub fn descriptor(&self) -> (d: ProcessorDescriptor)
        ensures
            d.id@ == "repair"@,
            d.display_name@ == "图像修复"@,
            d.enabled,
            d.notes@ == "支持自动修复、去噪、轻度划痕修复与低分辨率增强（独立锐化强度）。"@,
    {
        ProcessorDescriptor {
            id: String::from_str("repair"),
            display_name: String::from_str("图像修复"),
            enabled: true,
            notes: String::from_str("支持自动修复、去噪、轻度划痕修复与低分辨率增强（独立锐化强度）。"),
        }
    }

    /// Checks the mode, the strength (1 to 100), the upscale factor (2 to 4)
    /// and the sharpness (1 to 100), in that order.
    pub fn validate(&self, params: &RepairParams) -> (r: Result<(), ProcessError>)
        ensures
            r is Ok <==> repair_params_problem(params.mode@, params.strength, params.upscale_factor, params.upscale_sharpness) is None,
            r matches Err(e) ==> e matches ProcessError::Validation(m)
                && Some(m@) == repair_params_problem(params.mode@, params.strength, params.upscale_factor, params.upscale_sharpness),
            all_ascii(params.mode@) ==> repair_params_problem(params.mode@, params.strength, params.upscale_factor, params.upscale_sharpness)
                == repair_params_problem_lowered(lower(params.mode@), params.strength, params.upscale_factor, params.upscale_sharpness),
    {
        let mode = to_lowercase_text(params.mode.as_str());
        if normalize_mode(mode.as_str()).is_none() {
            return Err(ProcessError::Validation(String::from_str("mode 不受支持，请使用 auto/denoise/scratch/upscale。")));
        }
        if !(1 <= params.strength && params.strength <= 100) {
            return Err(ProcessError::Validation(String::from_str("strength 必须在 1 到 100 之间。")));
        }
        if !(2 <= params.upscale_factor && params.upscale_factor <= 4) {
            return Err(ProcessError::Validation(String::from_str("upscaleFactor 必须在 2 到 4 之间。")));
        }
        if !(1 <= params.upscale_sharpness && params.upscale_sharpness <= 100) {
            return Err(ProcessError::Validation(String::from_str("upscaleSharpness 必须在 1 到 100 之间。")));
        }
        Ok(())
    }
}

/// Integer luma of a pixel: `(299 r + 587 g + 114 b) / 1000`.
pub open spec fn luma(p: Rgba8) -> int {
    (p.r * 299 + p.g * 587 + p.b * 114) / 1000
}

pub fn to_luma(pixel: &Rgba8) -> (l: i32)
    ensures
        l == luma(*pixel),
        0 <= l <= 255,
{
    ((pixel.r as i32 * 299) + (pixel.g as i32 * 587) + (pixel.b as i32 * 114)) / 1000
}

/// Channel-wise floor average of two pixels.
pub open spec fn average_pixel(a: Rgba8, b: Rgba8) -> Rgba8 {
    Rgba8 {
        r: ((a.r + b.r) / 2) as u8,
        g: ((a.g + b.g) / 2) as u8,
        b: ((a.b + b.b) / 2) as u8,
        a: ((a.a + b.a) / 2) as u8,
    }
}

pub fn average_two_pixels(left: Rgba8, right: Rgba8) -> (p: Rgba8)
    ensures
        p == average_pixel(left, right),
{
    Rgba8 {
        r: ((left.r as u16 + right.r as u16) / 2) as u8,
        g: ((left.g as u16 + right.g as u16) / 2) as u8,
        b: ((left.b as u16 + right.b as u16) / 2) as u8,
        a: ((left.a as u16 + right.a as u16) / 2) as u8,
    }
}

/// Largest edge of an upscaled image.
pub const MAX_UPSCALE_EDGE: u32 = 8192;

/// The size after upscaling by `factor` (clamped to 2..4); each edge is
/// kept between 1 and 8192.
pub open spec fn upscaled_edge(edge: u32, factor: u8) -> u32 {
    let f: int = if factor < 2 { 2 } else if factor > 4 { 4 } else { factor as int };
    let m: int = if edge * f > u32::MAX { u32::MAX as int } else { edge * f };
    if m < 1 { 1 } else if m > MAX_UPSCALE_EDGE { MAX_UPSCALE_EDGE } else { m as u32 }
}

/// `a.saturating_mul(b)` for `u32`.
fn saturating_mul_u32(a: u32, b: u32) -> (r: u32)
    ensures
        r == (if a * b > u32::MAX { u32::MAX as int } else { a * b }),
{
    assert((a as int) * (b as int) <= 0xffff_ffff * 0xffff_ffff) by (nonlinear_arith)
        requires a <= 0xffff_ffff, b <= 0xffff_ffff, 0 <= a, 0 <= b;
    let m: u64 = (a as u64) * (b as u64);
    if m > u32::MAX as u64 { u32::MAX } else { m as u32 }
}

pub fn upscale_dimensions(width: u32, height: u32, factor: u8) -> (r: (u32, u32))
    ensures
        r.0 == upscaled_edge(width, factor),
        r.1 == upscaled_edge(height, factor),
{
    let f: u32 = if factor < 2 { 2 } else if factor > 4 { 4 } else { factor as u32 };
    let mw = saturating_mul_u32(width, f);
    let mh = saturating_mul_u32(height, f);
    let tw = if mw < 1 { 1 } else if mw > MAX_UPSCALE_EDGE { MAX_UPSCALE_EDGE } else { mw };
    let th = if mh < 1 { 1 } else if mh > MAX_UPSCALE_EDGE { MAX_UPSCALE_EDGE } else { mh };
    (tw, th)
}

/// `s` is in ascending order.
pub open spec fn ascending(s: Seq<u8>) -> bool {
    forall|i: int, j: int| 0 <= i <= j < s.len() ==> s[i] <= s[j]
}

/// `m` is the middle value of nine: the fifth of them in ascending order.
pub open spec fn median9(values: Seq<u8>, m: u8) -> bool {
    exists|s: Seq<u8>| #[trigger] ascending(s) && s.len() == 9 && s.to_multiset() == values.to_multiset() && s[4] == m
}

/// The same nine values in ascending order (what `sort_unstable` gives).
fn sort_nine(values: [u8; 9]) -> (r: Vec<u8>)
    ensures
        r@.len() == 9,
        ascending(r@),
        r@.to_multiset() == values@.to_multiset(),
{
    broadcast use vstd::seq_lib::group_to_multiset_ensures;
    let mut rest: Vec<u8> = Vec::new();
    let mut i: usize = 0;
    while i < 9
        invariant
            i <= 9,
            values@.len() == 9,
            rest@ == values@.subrange(0, i as int),
        decreases 9 - i,
    {
        rest.push(values[i]);
        i = i + 1;
        proof {
            assert(rest@ =~= values@.subrange(0, i as int));
        }
    }
    proof {
        assert(rest@ =~= values@);
    }
    let mut r: Vec<u8> = Vec::new();
    proof {
        assert(r@.to_multiset() =~= vstd::multiset::Multiset::<u8>::empty());
        assert(r@.to_multiset().add(rest@.to_multiset()) =~= values@.to_multiset());
    }
    while rest.len() > 0
        invariant
            values@.len() == 9,
            r@.len() + rest@.len() == 9,
            r@.to_multiset().add(rest@.to_multiset()) == values@.to_multiset(),
            ascending(r@),
            forall|a: int, b: int| 0 <= a < r@.len() && 0 <= b < rest@.len() ==> #[trigger] r@[a] <= #[trigger] rest@[b],
        decreases rest.len(),
    {
        let mut best: usize = 0;
        let mut j: usize = 1;
        while j < rest.len()
            invariant
                rest@.len() > 0,
                best < j <= rest@.len(),
                forall|k: int| 0 <= k < j ==> rest@[best as int] <= #[trigger] rest@[k],
            decreases rest.len() - j,
        {
            if rest[j] < rest[best] {
                best = j;
            }
            j = j + 1;
        }
        let ghost before = rest@;
        let ghost r_before = r@;
        let x = rest.remove(best);
        proof {
            vstd::seq_lib::to_multiset_remove(before, best as int);
            vstd::seq_lib::to_multiset_build(r_before, x);
            before.to_multiset_ensures();
            assert(before.contains(x)) by { assert(before[best as int] == x); }
        }
        r.push(x);
        proof {
            assert(r@ == r_before.push(x));
            assert(r@.to_multiset().add(rest@.to_multiset()) =~= values@.to_multiset());
            assert forall|a: int, b: int| 0 <= a <= b < r@.len() implies r@[a] <= r@[b] by {
                if b == r@.len() - 1 && a < b {
                    assert(r@[a] == r_before[a]);
                    assert(x == before[best as int]);
                }
            }
            assert forall|a: int, b: int| 0 <= a < r@.len() && 0 <= b < rest@.len() implies #[trigger] r@[a] <= #[trigger] rest@[b] by {
                let bb = if b < best { b } else { b + 1 };
                assert(rest@[b] == before[bb]);
                if a == r@.len() - 1 {
                    assert(r@[a] == before[best as int]);
                } else {
                    assert(r@[a] == r_before[a]);
                }
            }
        }
    }
    r
}

/// The median of nine values.
pub fn median_of_9(values: [u8; 9]) -> (m: u8)
    ensures
        median9(values@, m),
{
    let sorted = sort_nine(values);
    proof {
        assert(sorted@.len() == 9);
        assert(ascending(sorted@));
    }
    sorted[4]
}

pub open spec fn abs_int(v: int) -> int {
    if v < 0 { -v } else { v }
}

fn abs_i32(v: i32) -> (r: i32)
    requires
        v > i32::MIN,
    ensures
        r == abs_int(v as int),
{
    if v < 0 { -v } else { v }
}

/// The replacement a scratch pass writes at an interior pixel `(x, y)`, or
/// `None` when the pixel is no anomaly. A pixel is a horizontal anomaly when
/// its luma differs from the mean of its left and right neighbours by at
/// least `bt` while those two differ by at most `ct`; likewise vertically.
/// It is replaced by the average of the pair across the anomaly (the
/// smoother pair when both directions qualify).
pub open spec fn scratch_fix(src: RgbaBuffer, bt: int, ct: int, x: int, y: int) -> Option<Rgba8> {
    let c = src.px(x, y);
    let l = src.px(x - 1, y);
    let r = src.px(x + 1, y);
    let u = src.px(x, y - 1);
    let d = src.px(x, y + 1);
    let cl = luma(c);
    let ht = (luma(l) + luma(r)) / 2;
    let vt = (luma(u) + luma(d)) / 2;
    let hc = abs_int(luma(l) - luma(r));
    let vc = abs_int(luma(u) - luma(d));
    let ha = abs_int(cl - ht) >= bt && hc <= ct;
    let va = abs_int(cl - vt) >= bt && vc <= ct;
    if !ha && !va {
        None
    } else if ha && va {
        if hc <= vc { Some(average_pixel(l, r)) } else { Some(average_pixel(u, d)) }
    } else if ha {
        Some(average_pixel(l, r))
    } else {
        Some(average_pixel(u, d))
    }
}

/// Pixels not on the border.
pub open spec fn interior(src: RgbaBuffer, x: int, y: int) -> bool {
    1 <= x < src.w() - 1 && 1 <= y < src.h() - 1
}

/// The pixel a scratch pass leaves at `(x, y)`.
pub open spec fn scratched_px(src: RgbaBuffer, bt: int, ct: int, x: int, y: int) -> Rgba8 {
    if interior(src, x, y) {
        match scratch_fix(src, bt, ct, x, y) {
            Some(p) => p,
            None => src.px(x, y),
        }
    } else {
        src.px(x, y)
    }
}

/// `out` is `src` after one scratch pass with thresholds `bt` and `ct`.
pub open spec fn is_scratch_pass(src: RgbaBuffer, out: RgbaBuffer, bt: int, ct: int) -> bool {
    &&& out.wf()
    &&& out.w() == src.w()
    &&& out.h() == src.h()
    &&& forall|x: int, y: int| #![trigger out.px(x, y)] out.contains(x, y) ==> out.px(x, y) == scratched_px(src, bt, ct, x, y)
}

/// Interior pixels that a pass replaces.
pub open spec fn scratch_hits(src: RgbaBuffer, bt: int, ct: int) -> spec_fn(int, int) -> bool {
    |x: int, y: int| scratch_fix(src, bt, ct, x, y) is Some
}

/// Number of pixels a pass replaces.
pub open spec fn scratch_count(src: RgbaBuffer, bt: int, ct: int) -> nat {
    count_in_rect(scratch_hits(src, bt, ct), 1, src.w() - 1, 1, src.h() - 1)
}

/// One scratch pass: every interior anomaly of `source` (see
/// `scratch_fix`) is replaced; returns the result and how many pixels
/// were replaced.
pub fn scratch_pass(source: &RgbaBuffer, brightness_threshold: i32, continuity_tolerance: i32) -> (r: (RgbaBuffer, u64))
    requires
        source.wf(),
    ensures
        is_scratch_pass(*source, r.0, brightness_threshold as int, continuity_tolerance as int),
        r.1 == scratch_count(*source, brightness_threshold as int, continuity_tolerance as int),
{
    let ghost bt = brightness_threshold as int;
    let ghost ct = continuity_tolerance as int;
    let ghost f = scratch_hits(*source, bt, ct);
    let (w, h) = source.dimensions();
    let mut output = source.duplicate();
    if w < 3 || h < 3 {
        proof {
            assert forall|x: int, y: int| #![trigger output.px(x, y)] output.contains(x, y) implies output.px(x, y) == scratched_px(*source, bt, ct, x, y) by {
                assert(!interior(*source, x, y));
            }
            lemma_count_rect_degenerate(f, 1, w - 1, 1, h - 1);
        }
        return (output, 0);
    }
    let mut changed: u64 = 0;
    let mut y: u32 = 1;
    while y < h - 1
        invariant
            source.wf(),
            output.wf(),
            w == source.w(),
            h == source.h(),
            output.w() == w,
            output.h() == h,
            w >= 3,
            h >= 3,
            4 * (w * h) <= usize::MAX,
            1 <= y <= h - 1,
            bt == brightness_threshold as int,
            ct == continuity_tolerance as int,
            f == scratch_hits(*source, bt, ct),
            changed == count_in_rect(f, 1, w - 1, 1, y as int),
            changed <= y * w,
            forall|a: int, b: int| #![trigger output.px(a, b)] output.contains(a, b) ==> output.px(a, b) == (if b < y {
                scratched_px(*source, bt, ct, a, b)
            } else {
                source.px(a, b)
            }),
        decreases h - y,
    {
        let mut x: u32 = 1;
        while x < w - 1
            invariant
                source.wf(),
                output.wf(),
                w == source.w(),
                h == source.h(),
                output.w() == w,
                output.h() == h,
                w >= 3,
                h >= 3,
                4 * (w * h) <= usize::MAX,
                1 <= y < h - 1,
                1 <= x <= w - 1,
                bt == brightness_threshold as int,
                ct == continuity_tolerance as int,
                f == scratch_hits(*source, bt, ct),
                changed == count_in_rect(f, 1, w - 1, 1, y as int) + count_in_row(f, 1, x as int, y as int),
                changed <= y * w + x,
                forall|a: int, b: int| #![trigger output.px(a, b)] output.contains(a, b) ==> output.px(a, b) == (if b < y || (b == y && a < x) {
                    scratched_px(*source, bt, ct, a, b)
                } else {
                    source.px(a, b)
                }),
            decreases w - 1 - x,
        {
            proof {
                lemma_index_in_bounds(x as int, y as int, w as int, h as int);
            }
            let current = source.get_pixel(x, y);
            let left = source.get_pixel(x - 1, y);
            let right = source.get_pixel(x + 1, y);
            let up = source.get_pixel(x, y - 1);
            let down = source.get_pixel(x, y + 1);
            let current_luma = to_luma(&current);
            let horizontal_target = (to_luma(&left) + to_luma(&right)) / 2;
            let vertical_target = (to_luma(&up) + to_luma(&down)) / 2;
            let horizontal_continuity = abs_i32(to_luma(&left) - to_luma(&right));
            let vertical_continuity = abs_i32(to_luma(&up) - to_luma(&down));
            let horizontal_anomaly = abs_i32(current_luma - horizontal_target) >= brightness_threshold
                && horizontal_continuity <= continuity_tolerance;
            let vertical_anomaly = abs_i32(current_luma - vertical_target) >= brightness_threshold
                && vertical_continuity <= continuity_tolerance;
            if horizontal_anomaly || vertical_anomaly {
                let replacement = if horizontal_anomaly && vertical_anomaly {
                    if horizontal_continuity <= vertical_continuity {
                        average_two_pixels(left, right)
                    } else {
                        average_two_pixels(up, down)
                    }
                } else if horizontal_anomaly {
                    average_two_pixels(left, right)
                } else {
                    average_two_pixels(up, down)
                };
                proof {
                    assert(scratch_fix(*source, bt, ct, x as int, y as int) == Some(replacement));
                }
                output.put_pixel(x, y, replacement);
                changed = changed.saturating_add(1);
            } else {
                proof {
                    assert(scratch_fix(*source, bt, ct, x as int, y as int) is None);
                }
            }
            x = x + 1;
        }
        proof {
            assert(y * w + (w - 1) <= (y + 1) * w) by (nonlinear_arith) requires w >= 3;
            assert forall|a: int, b: int| #![trigger output.px(a, b)] output.contains(a, b) && b == y && a == w - 1 implies
                scratched_px(*source, bt, ct, a, b) == source.px(a, b) by {}
            assert forall|a: int, b: int| #![trigger output.px(a, b)] output.contains(a, b) && b == y && a == 0 implies
                scratched_px(*source, bt, ct, a, b) == source.px(a, b) by {}
        }
        y = y + 1;
    }
    proof {
        assert forall|a: int, b: int| #![trigger output.px(a, b)] output.contains(a, b) && b == h - 1 implies
            scratched_px(*source, bt, ct, a, b) == source.px(a, b) by {}
    }
    (output, changed)
}

/// Counting over an empty rectangle gives zero.
proof fn lemma_count_rect_degenerate(f: spec_fn(int, int) -> bool, x0: int, x1: int, y0: int, y: int)
    requires
        x1 <= x0 || y <= y0,
    ensures
        count_in_rect(f, x0, x1, y0, y) == 0,
    decreases y - y0,
{
    if y > y0 {
        lemma_count_rect_degenerate(f, x0, x1, y0, y - 1);
    }
}

/// Number of scratch passes for a strength: 3 from 80, 2 from 45, else 1.
pub open spec fn scratch_passes_for(strength: u8) -> int {
    if strength >= 80 { 3 } else if strength >= 45 { 2 } else { 1 }
}

pub open spec fn clamp_int(v: int, lo: int, hi: int) -> int {
    if v < lo { lo } else if v > hi { hi } else { v }
}

/// Brightness threshold of the first pass: `62 - strength / 2` in 14..60.
pub open spec fn scratch_base_threshold(strength: u8) -> int {
    clamp_int(62 - strength / 2, 14, 60)
}

/// Continuity tolerance of every pass: `base / 2 + 8` in 10..36.
pub open spec fn scratch_tolerance(strength: u8) -> int {
    clamp_int(scratch_base_threshold(strength) / 2 + 8, 10, 36)
}

/// Brightness threshold of pass `k`: four lower per pass, within 10..60.
pub open spec fn scratch_threshold(strength: u8, k: int) -> int {
    clamp_int(scratch_base_threshold(strength) - k * 4, 10, 60)
}

fn clamp_i32(v: i32, lo: i32, hi: i32) -> (r: i32)
    requires
        lo <= hi,
    ensures
        r == clamp_int(v as int, lo as int, hi as int),
{
    if v < lo { lo } else if v > hi { hi } else { v }
}

/// `chain` runs the scratch passes of `strength` from `chain[0]`.
pub open spec fn scratch_chain(chain: Seq<RgbaBuffer>, strength: u8) -> bool {
    &&& chain.len() == scratch_passes_for(strength) + 1
    &&& forall|k: int| 0 <= k < chain.len() - 1 ==> is_scratch_pass(#[trigger] chain[k], chain[k + 1], scratch_threshold(strength, k), scratch_tolerance(strength))
}

/// Pixels replaced by the first `k` passes of a chain, in total.
pub open spec fn chain_count(chain: Seq<RgbaBuffer>, strength: u8, k: int) -> nat
    decreases k,
{
    if k <= 0 {
        0
    } else {
        chain_count(chain, strength, k - 1) + scratch_count(chain[k - 1], scratch_threshold(strength, k - 1), scratch_tolerance(strength))
    }
}

pub open spec fn saturate_u64(v: nat) -> u64 {
    if v > u64::MAX { u64::MAX } else { v as u64 }
}

/// The scratch passes of a repair with the given strength: one, two or
/// three passes with decreasing brightness threshold. Returns the last image
/// and the number of replacements over all passes (saturating).
pub fn scratch_repair_passes(source: &RgbaBuffer, strength: u8) -> (r: (RgbaBuffer, u64))
    requires
        source.wf(),
    ensures
        r.0.wf(),
        exists|chain: Seq<RgbaBuffer>| {
            &&& #[trigger] scratch_chain(chain, strength)
            &&& chain[0] == *source
            &&& chain.last() == r.0
            &&& r.1 == saturate_u64(chain_count(chain, strength, chain.len() - 1))
        },
{
    let passes: i32 = if strength >= 80 { 3 } else if strength >= 45 { 2 } else { 1 };
    let base_threshold = clamp_i32(62 - (strength as i32 / 2), 14, 60);
    let continuity_tolerance = clamp_i32(base_threshold / 2 + 8, 10, 36);
    let (first, c0) = scratch_pass(source, clamp_i32(base_threshold, 10, 60), continuity_tolerance);
    let ghost mut chain: Seq<RgbaBuffer> = seq![*source, first];
    let mut working = first;
    let mut total: u64 = c0;
    let mut k: i32 = 1;
    proof {
        assert(chain[0] == *source);
        assert(chain[1] == first);
        assert(scratch_threshold(strength, 0) == clamp_int(base_threshold as int, 10, 60));
        assert(chain_count(chain, strength, 0) == 0);
        assert(chain_count(chain, strength, 1) == c0);
    }
    while k < passes
        invariant
            passes == scratch_passes_for(strength),
            base_threshold == scratch_base_threshold(strength),
            continuity_tolerance == scratch_tolerance(strength),
            1 <= k <= passes,
            working.wf(),
            chain.len() == k + 1,
            chain[0] == *source,
            chain[k as int] == working,
            forall|j: int| 0 <= j < k ==> is_scratch_pass(#[trigger] chain[j], chain[j + 1], scratch_threshold(strength, j), scratch_tolerance(strength)),
            total == saturate_u64(chain_count(chain, strength, k as int)),
        decreases passes - k,
    {
        let threshold = clamp_i32(base_threshold - k * 4, 10, 60);
        let (next, c) = scratch_pass(&working, threshold, continuity_tolerance);
        proof {
            let old_chain = chain;
            chain = chain.push(next);
            assert forall|j: int| 0 <= j <= k implies chain_count(chain, strength, j) == chain_count(old_chain, strength, j) by {
                lemma_chain_count_prefix(old_chain, chain, strength, j);
            }
        }
        working = next;
        total = total.saturating_add(c);
        k = k + 1;
    }
    proof {
        assert(scratch_chain(chain, strength));
        assert(chain.last() == working);
    }
    (working, total)
}

proof fn lemma_chain_count_prefix(a: Seq<RgbaBuffer>, b: Seq<RgbaBuffer>, strength: u8, j: int)
    requires
        0 <= j <= a.len(),
        a.len() <= b.len(),
        forall|i: int| 0 <= i < a.len() ==> a[i] == b[i],
    ensures
        chain_count(b, strength, j) == chain_count(a, strength, j),
    decreases j,
{
    if j > 0 {
        lemma_chain_count_prefix(a, b, strength, j - 1);
    }
}

/// Strength of the second denoise pass: from strength 55 on, half the
/// strength but at least 28.
pub fn denoise_second_pass_strength(strength: u8) -> (r: Option<u8>)
    ensures
        strength >= 55 ==> r == Some((if strength / 2 >= 28 { strength / 2 } else { 28 }) as u8),
        strength < 55 ==> r is None,
{
    if strength >= 55 {
        let half = strength / 2;
        Some(if half >= 28 { half } else { 28 })
    } else {
        None
    }
}

/// Strengths used in auto mode: denoise at most 75, then scratch repair at
/// `3/4 strength + 20`, at most 100.
pub fn auto_mode_strengths(strength: u8) -> (r: (u8, u8))
    ensures
        r.0 == (if strength <= 75 { strength } else { 75 }),
        r.1 == (if (strength * 3) / 4 + 20 <= 100 { (strength * 3) / 4 + 20 } else { 100 }),
{
    let denoise_strength = if strength <= 75 { strength } else { 75 };
    let raw: u16 = (strength as u16 * 3) / 4 + 20;
    let scratch_strength = if raw <= 100 { raw as u8 } else { 100 };
    (denoise_strength, scratch_strength)
}

/// Strength of the denoise applied before upscaling: from strength 92 on,
/// `(strength - 70) / 2` but at least 8.
pub fn upscale_prefilter_strength(strength: u8) -> (r: Option<u8>)
    ensures
        strength >= 92 ==> r == Some((if (strength - 70) / 2 >= 8 { (strength - 70) / 2 } else { 8 }) as u8),
        strength < 92 ==> r is None,
{
    if strength >= 92 {
        let v = (strength - 70) / 2;
        Some(if v >= 8 { v } else { 8 })
    } else {
        None
    }
}

/// The label of a mode in result messages.
pub open spec fn mode_label(mode: RepairMode) -> Seq<char> {
    match mode {
        RepairMode::Denoise => "去噪"@,
        RepairMode::Scratch => "划痕修复"@,
        RepairMode::Upscale => "低分辨率增强"@,
        RepairMode::Auto => "自动"@,
    }
}

/// The result message of a repair.
pub open spec fn repair_message_spec(
    mode: RepairMode,
    strength: u8,
    sharpness: u8,
    factor: u8,
    w: u32,
    h: u32,
    ow: u32,
    oh: u32,
    changed: u64,
) -> Seq<char> {
    if mode == RepairMode::Upscale {
        let f: nat = if factor < 2 { 2 } else if factor > 4 { 4 } else { factor as nat };
        "图像修复完成（模式: "@ + mode_label(mode) + "，修复强度: "@ + decimal(strength as nat) + "，锐化强度: "@
            + decimal(sharpness as nat) + "，放大: "@ + decimal(f) + "x，分辨率: "@ + decimal(w as nat) + "x"@
            + decimal(h as nat) + " -> "@ + decimal(ow as nat) + "x"@ + decimal(oh as nat) + "，锐化像素: "@
            + decimal(changed as nat) + "）。"@
    } else {
        "图像修复完成（模式: "@ + mode_label(mode) + "，强度: "@ + decimal(strength as nat) + "，调整像素: "@
            + decimal(changed as nat) + "）。"@
    }
}

fn push_text(v: &mut Vec<char>, s: &str)
    ensures
        final(v)@ == old(v)@ + s@,
{
    extend_chars(v, &chars_of(s));
}

fn label_text(mode: RepairMode) -> (s: &'static str)
    ensures
        s@ == mode_label(mode),
{
    match mode {
        RepairMode::Denoise => "去噪",
        RepairMode::Scratch => "划痕修复",
        RepairMode::Upscale => "低分辨率增强",
        RepairMode::Auto => "自动",
    }
}

/// The message reported after a repair: strengths, factor and sizes for
/// upscaling, strength and changed pixels otherwise.
pub fn repair_message(
    mode: RepairMode,
    strength: u8,
    sharpness: u8,
    factor: u8,
    width: u32,
    height: u32,
    output_width: u32,
    output_height: u32,
    changed: u64,
) -> (r: String)
    ensures
        r@ == repair_message_spec(mode, strength, sharpness, factor, width, height, output_width, output_height, changed),
{
    let mut m: Vec<char> = Vec::new();
    push_text(&mut m, "图像修复完成（模式: ");
    push_text(&mut m, label_text(mode));
    if mode == RepairMode::Upscale {
        let f: u32 = if factor < 2 { 2 } else if factor > 4 { 4 } else { factor as u32 };
        push_text(&mut m, "，修复强度: ");
        extend_chars(&mut m, &decimal_vec(strength as u32));
        push_text(&mut m, "，锐化强度: ");
        extend_chars(&mut m, &decimal_vec(sharpness as u32));
        push_text(&mut m, "，放大: ");
        extend_chars(&mut m, &decimal_vec(f));
        push_text(&mut m, "x，分辨率: ");
        extend_chars(&mut m, &decimal_vec(width));
        push_text(&mut m, "x");
        extend_chars(&mut m, &decimal_vec(height));
        push_text(&mut m, " -> ");
        extend_chars(&mut m, &decimal_vec(output_width));
        push_text(&mut m, "x");
        extend_chars(&mut m, &decimal_vec(output_height));
        push_text(&mut m, "，锐化像素: ");
        extend_chars(&mut m, &decimal_vec_u64(changed));
        push_text(&mut m, "）。");
    } else {
        push_text(&mut m, "，强度: ");
        extend_chars(&mut m, &decimal_vec(strength as u32));
        push_text(&mut m, "，调整像素: ");
        extend_chars(&mut m, &decimal_vec_u64(changed));
        push_text(&mut m, "）。");
    }
    proof {
        assert(m@ =~= repair_message_spec(mode, strength, sharpness, factor, width, height, output_width, output_height, changed));
    }
    string_of(&m)
}

} // verus!
