use art_tool::pixels::{Rgba8, RgbaBuffer};
use art_tool::repair::{
    repair_message, RepairMode,
    auto_mode_strengths, average_two_pixels, denoise_second_pass_strength, median_of_9, scratch_repair_passes, to_luma,
    upscale_dimensions, upscale_prefilter_strength,
};

fn grey(v: u8) -> Rgba8 {
    Rgba8 { r: v, g: v, b: v, a: 255 }
}

fn scratched() -> RgbaBuffer {
    let (width, height) = (120u32, 100u32);
    let mut image = RgbaBuffer::filled(width, height, grey(0));
    for y in 0..height {
        for x in 0..width {
            let base = ((x * 3 + y * 2 + 90) % 40 + 90) as u8;
            image.put_pixel(x, y, grey(base));
        }
    }
    for y in 0..height {
        image.put_pixel(60, y, grey(255));
    }
    image
}

#[test]
fn repairs_scratch_line_in_scratch_mode() {
    let before = scratched();
    let (x, y) = (60u32, 50u32);
    let before_center = before.get_pixel(x, y).r as i32;
    let neighbors = (before.get_pixel(x - 1, y).r as i32 + before.get_pixel(x + 1, y).r as i32) / 2;
    let (after, changed) = scratch_repair_passes(&before, 85);
    assert!(changed > 0);
    let after_center = after.get_pixel(x, y).r as i32;
    assert!((after_center - neighbors).abs() < (before_center - neighbors).abs());
}

#[test]
fn median_of_nine_values() {
    assert_eq!(median_of_9([9, 1, 8, 2, 7, 3, 6, 4, 5]), 5);
    assert_eq!(median_of_9([0, 0, 0, 0, 255, 255, 255, 255, 255]), 255);
}

#[test]
fn upscaled_size_clamps_the_factor() {
    assert_eq!(upscale_dimensions(48, 32, 2), (96, 64));
    assert_eq!(upscale_dimensions(48, 32, 9), (192, 128));
    assert_eq!(upscale_dimensions(48, 32, 0), (96, 64));
}

#[test]
fn luma_and_average() {
    assert_eq!(to_luma(&Rgba8 { r: 255, g: 255, b: 255, a: 0 }), 255);
    assert_eq!(to_luma(&Rgba8 { r: 100, g: 0, b: 0, a: 0 }), 29);
    assert_eq!(
        average_two_pixels(Rgba8 { r: 1, g: 2, b: 3, a: 4 }, Rgba8 { r: 2, g: 4, b: 6, a: 9 }),
        Rgba8 { r: 1, g: 3, b: 4, a: 6 }
    );
}

#[test]
fn mode_strength_schedules() {
    assert_eq!(denoise_second_pass_strength(54), None);
    assert_eq!(denoise_second_pass_strength(60), Some(30));
    assert_eq!(auto_mode_strengths(100), (75, 95));
    assert_eq!(auto_mode_strengths(40), (40, 50));
    assert_eq!(upscale_prefilter_strength(91), None);
    assert_eq!(upscale_prefilter_strength(100), Some(15));
}

#[test]
fn upscale_mode_increases_resolution() {
    let (w, h) = upscale_dimensions(220, 160, 3);
    assert_eq!((w, h), (660, 480));
    let message = repair_message(RepairMode::Upscale, 72, 70, 3, 220, 160, w, h, 1234);
    assert!(message.contains("低分辨率增强"));
    assert_eq!(
        message,
        "图像修复完成（模式: 低分辨率增强，修复强度: 72，锐化强度: 70，放大: 3x，分辨率: 220x160 -> 660x480，锐化像素: 1234）。"
    );
    let message = repair_message(RepairMode::Scratch, 85, 70, 2, 1, 1, 1, 1, 7);
    assert_eq!(message, "图像修复完成（模式: 划痕修复，强度: 85，调整像素: 7）。");
}

#[test]
fn auto_mode_runs_successfully() {
    let (denoise, scratch) = auto_mode_strengths(60);
    assert_eq!((denoise, scratch), (60, 65));
    let before = scratched();
    let (after, changed) = scratch_repair_passes(&before, scratch);
    assert!(changed > 0);
    assert_eq!(after.dimensions(), before.dimensions());
}
