use art_tool::pixels::{Rgba8, RgbaBuffer};
use art_tool::processor::ProcessStatus;
use art_tool::trim_transparent::{
    calculate_non_transparent_bbox, trim_crop_rect, BoundingBox, TrimTransparentParams, TrimTransparentProcessor,
};

fn transparent_image(width: u32, height: u32) -> RgbaBuffer {
    RgbaBuffer::filled(width, height, Rgba8 { r: 0, g: 0, b: 0, a: 0 })
}

fn white(a: u8) -> Rgba8 {
    Rgba8 { r: 255, g: 255, b: 255, a }
}

#[test]
fn returns_none_for_fully_transparent_image() {
    let image = transparent_image(8, 8);
    let bbox = calculate_non_transparent_bbox(&image, 0);
    assert!(bbox.is_none());
}

#[test]
fn calculates_bbox_for_centered_opaque_block() {
    let mut image = transparent_image(12, 12);
    for y in 3..=7 {
        for x in 2..=8 {
            image.put_pixel(x, y, white(255));
        }
    }
    let bbox = calculate_non_transparent_bbox(&image, 0);
    assert_eq!(bbox, Some(BoundingBox { left: 2, top: 3, right: 8, bottom: 7 }));
    let got = bbox.expect("bbox should exist");
    assert_eq!(got.width(), 7);
    assert_eq!(got.height(), 5);
}

#[test]
fn alpha_threshold_filters_weak_pixels() {
    let mut image = transparent_image(10, 10);
    image.put_pixel(1, 1, white(10));
    image.put_pixel(6, 4, white(220));
    let bbox = calculate_non_transparent_bbox(&image, 200);
    assert_eq!(bbox, Some(BoundingBox { left: 6, top: 4, right: 6, bottom: 4 }));
}

#[test]
fn padding_is_clamped_to_the_image() {
    let b = BoundingBox { left: 2, top: 3, right: 8, bottom: 7 };
    let r = trim_crop_rect(b, 5, 12, 12);
    assert_eq!((r.x, r.y, r.width, r.height), (0, 0, 12, 12));
    let r = trim_crop_rect(b, 1, 12, 12);
    assert_eq!((r.x, r.y, r.width, r.height), (1, 2, 9, 7));
}

#[test]
fn trims_to_the_visible_block() {
    let mut image = transparent_image(20, 20);
    for y in 6..=14 {
        for x in 5..=16 {
            image.put_pixel(x, y, white(255));
        }
    }
    let params = TrimTransparentParams { alpha_threshold: 0, padding: 0 };
    let outcome = TrimTransparentProcessor.process_image(&image, &params, "out.png");
    assert_eq!(outcome.result.status, ProcessStatus::Success);
    assert_eq!(outcome.result.message, "裁剪完成。");
    let out = outcome.image.expect("image");
    assert_eq!(out.dimensions(), (12, 9));
    assert_eq!(out.get_pixel(0, 0), white(255));
    let meta = outcome.result.output_metadata.expect("meta");
    assert_eq!((meta.width, meta.height), (12, 9));
}

#[test]
fn fully_transparent_image_is_skipped() {
    let image = transparent_image(4, 4);
    let params = TrimTransparentParams::default_params();
    let outcome = TrimTransparentProcessor.process_image(&image, &params, "out.png");
    assert_eq!(outcome.result.status, ProcessStatus::Skipped);
    assert_eq!(outcome.result.message, "图片完全透明，已跳过输出。");
    assert!(outcome.image.is_none());
}

#[test]
fn rejects_excessive_padding() {
    let ok = TrimTransparentProcessor.validate(&TrimTransparentParams { alpha_threshold: 0, padding: 10000 });
    assert!(ok.is_ok());
    let err = TrimTransparentProcessor.validate(&TrimTransparentParams { alpha_threshold: 0, padding: 10001 });
    assert!(err.is_err());
}
