use art_tool::pixels::{Rgba8, RgbaBuffer};
use art_tool::processor::ProcessStatus;
use art_tool::resolution_transform::{
    compose_transform_image, normalize_path_key, png_content, resolve_target_for_input, transform_result, ResizeOperation,
    ResolutionTarget, ResolutionTransformParams,
};

fn subject() -> RgbaBuffer {
    let mut image = RgbaBuffer::filled(120, 120, Rgba8 { r: 0, g: 0, b: 0, a: 0 });
    for y in 40..80 {
        for x in 20..100 {
            image.put_pixel(x, y, Rgba8 { r: 245, g: 180, b: 80, a: 255 });
        }
    }
    image
}

fn params(w: u32, h: u32) -> ResolutionTransformParams {
    ResolutionTransformParams { target_width: w, target_height: h, upscale_sharpness: 72, file_overrides: Vec::new() }
}

#[test]
fn png_ratio_mismatch_is_center_padded_with_transparency() {
    let source = subject();
    let (content, empty) = png_content(&source);
    assert!(!empty);
    assert_eq!(content.dimensions(), (80, 40));
    // Resampling fits 80x40 into 200x200 as 200x100; it happens outside.
    let resized = RgbaBuffer::filled(200, 100, Rgba8 { r: 245, g: 180, b: 80, a: 255 });
    let (image, padded) = compose_transform_image(resized, 200, 200, true);
    assert!(padded);
    let result = transform_result((120, 120), &image, (200, 200, false), ResizeOperation::Upscale, padded, true, "in.png", "out.png");
    assert_eq!(result.status, ProcessStatus::Success);
    assert!(result.message.contains("透明居中填充"));
    assert_eq!(image.dimensions(), (200, 200));
    assert_eq!(image.get_pixel(100, 8).a, 0);
    assert_eq!(image.get_pixel(100, 192).a, 0);
    assert!(image.get_pixel(100, 100).a > 0);
}

#[test]
fn jpg_ratio_mismatch_keeps_aspect_ratio() {
    let resized = RgbaBuffer::filled(200, 133, Rgba8 { r: 1, g: 2, b: 3, a: 255 });
    let (image, padded) = compose_transform_image(resized, 200, 200, false);
    assert!(!padded);
    assert_eq!(image.dimensions(), (200, 133));
    let result = transform_result((120, 80), &image, (200, 200, false), ResizeOperation::Upscale, padded, true, "in.jpg", "out.jpg");
    assert!(result.message.contains("按原比例适配"));
    assert_eq!(
        result.message,
        "分辨率变换完成: 120x80 -> 200x133，目标 200x200，超分放大。目标比例与原图不一致，已按原比例适配。"
    );
}

#[test]
fn uses_per_file_override_target() {
    let mut p = params(300, 300);
    p.file_overrides.push(("/tmp/x/override-target.png".to_string(), ResolutionTarget { target_width: 64, target_height: 64 }));
    let (w, h, is_override) = resolve_target_for_input(&p, "/tmp/x/override-target.png");
    assert_eq!((w, h, is_override), (64, 64, true));
    let resized = RgbaBuffer::filled(64, 32, Rgba8 { r: 1, g: 2, b: 3, a: 255 });
    let (image, padded) = compose_transform_image(resized, w, h, true);
    let result = transform_result((120, 120), &image, (w, h, is_override), ResizeOperation::Downscale, padded, false, "a.png", "b.png");
    assert!(result.message.contains("已应用单文件目标分辨率"));
    assert_eq!(image.dimensions(), (64, 64));
}

#[test]
fn override_matches_normalised_paths() {
    let mut p = params(300, 300);
    p.file_overrides.push(("C:/Pics/A.PNG".to_string(), ResolutionTarget { target_width: 10, target_height: 20 }));
    assert_eq!(resolve_target_for_input(&p, "c:\\pics\\a.png"), (10, 20, true));
    assert_eq!(resolve_target_for_input(&p, "c:\\pics\\b.png"), (300, 300, false));
    assert_eq!(normalize_path_key("C:\\Pics\\A.PNG"), "c:/pics/a.png");
}

#[test]
fn transparent_png_gives_placeholder_content() {
    let source = RgbaBuffer::filled(5, 5, Rgba8 { r: 0, g: 0, b: 0, a: 0 });
    let (content, empty) = png_content(&source);
    assert!(empty);
    assert_eq!(content.dimensions(), (1, 1));
}

#[test]
fn same_size_png_is_not_padded() {
    let resized = RgbaBuffer::filled(64, 64, Rgba8 { r: 9, g: 9, b: 9, a: 255 });
    let (image, padded) = compose_transform_image(resized, 64, 64, true);
    assert!(!padded);
    let result = transform_result((64, 64), &image, (64, 64, false), ResizeOperation::Keep, padded, false, "a.png", "b.png");
    assert_eq!(result.message, "分辨率变换完成: 64x64 -> 64x64，目标 64x64，尺寸保持。");
}
