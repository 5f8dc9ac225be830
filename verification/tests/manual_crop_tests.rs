use art_tool::crop_runner::{crop_rgba_image, CropRect};
use art_tool::manual_crop::{
    clip_percent_rect, CropApplyMode, CropSource, FileCropOverride, ManualCropParams, ManualCropPlan, ManualCropProcessor,
};
use art_tool::pixels::{Rgba8, RgbaBuffer};
use art_tool::processor::ProcessStatus;

fn test_image() -> RgbaBuffer {
    let mut image = RgbaBuffer::filled(12, 12, Rgba8 { r: 0, g: 0, b: 0, a: 0 });
    for y in 2..6 {
        for x in 3..7 {
            image.put_pixel(x, y, Rgba8 { r: 120, g: 200, b: 80, a: 180 });
        }
    }
    image
}

fn absolute(rect: CropRect) -> ManualCropParams {
    ManualCropParams {
        apply_mode: CropApplyMode::Absolute,
        default_rect: Some(rect),
        has_default_percent_rect: false,
        default_percent_problem: None,
        file_overrides: Vec::new(),
    }
}

fn crop_with(params: &ManualCropParams, image: &RgbaBuffer) -> Result<RgbaBuffer, art_tool::processor::ProcessError> {
    match ManualCropProcessor.plan(params, "input.png", "output.png")? {
        ManualCropPlan::Crop(CropSource::Rect(rect)) => crop_rgba_image(image, rect),
        other => panic!("unexpected plan {:?}", other),
    }
}

#[test]
fn preserves_alpha_channel_when_cropping() {
    let image = test_image();
    let params = absolute(CropRect { x: 1, y: 1, width: 6, height: 6 });
    let cropped = crop_with(&params, &image).expect("manual crop should succeed");
    assert_eq!(cropped.dimensions(), (6, 6));
    assert_eq!(cropped.get_pixel(2, 2).a, 180);
}

#[test]
fn rejects_out_of_bounds_absolute_crop() {
    let image = test_image();
    let params = absolute(CropRect { x: 0, y: 0, width: 999, height: 2 });
    assert!(crop_with(&params, &image).is_err());
}

#[test]
fn skip_copies_original_image() {
    let mut params = ManualCropParams::default_params();
    params.file_overrides.push((
        "C:\\Work\\Input.png".to_string(),
        FileCropOverride { skip: true, rect: None, has_percent_rect: false },
    ));
    let plan = ManualCropProcessor.plan(&params, "C:\\Work\\Input.png", "out/output.png").expect("skip should succeed");
    match plan {
        ManualCropPlan::CopyInput { result } => {
            assert_eq!(result.status, ProcessStatus::Success);
            assert_eq!(result.message, "已跳过裁剪，原图已复制。");
            assert_eq!(result.output_path.as_deref(), Some("out/output.png"));
        }
        other => panic!("unexpected plan {:?}", other),
    }
}

#[test]
fn override_found_by_normalised_path() {
    let mut params = ManualCropParams::default_params();
    params.file_overrides.push((
        "c:/work/input.png".to_string(),
        FileCropOverride { skip: false, rect: Some(CropRect { x: 1, y: 2, width: 3, height: 4 }), has_percent_rect: false },
    ));
    match ManualCropProcessor.plan(&params, "C:\\Work\\Input.png", "o.png").unwrap() {
        ManualCropPlan::Crop(CropSource::Rect(r)) => assert_eq!(r, CropRect { x: 1, y: 2, width: 3, height: 4 }),
        other => panic!("unexpected plan {:?}", other),
    }
}

#[test]
fn missing_rectangle_is_reported() {
    let params = ManualCropParams::default_params();
    let e = ManualCropProcessor.plan(&params, "a.png", "b.png").unwrap_err();
    assert_eq!(e.user_message(), "未配置裁剪区域，请先设置裁剪框。");
    let mut params = ManualCropParams::default_params();
    params.has_default_percent_rect = true;
    match ManualCropProcessor.plan(&params, "a.png", "b.png").unwrap() {
        ManualCropPlan::Crop(CropSource::DefaultPercent) => {}
        other => panic!("unexpected plan {:?}", other),
    }
}

#[test]
fn fractional_rectangles_are_clipped() {
    assert_eq!(clip_percent_rect(8, 2, 10, 3, 12, 12).unwrap(), CropRect { x: 8, y: 2, width: 4, height: 3 });
    let e = clip_percent_rect(12, 0, 1, 1, 12, 12).unwrap_err();
    assert_eq!(e.user_message(), "裁剪起点超出图片尺寸（图片: 12x12）。");
    let e = clip_percent_rect(0, 0, 0, 1, 12, 12).unwrap_err();
    assert_eq!(e.user_message(), "裁剪宽高必须大于 0。");
}

#[test]
fn refused_default_fractions_fail_validation() {
    let mut params = ManualCropParams::default_params();
    assert!(ManualCropProcessor.validate(&params).is_ok());
    params.default_percent_problem = Some("裁剪百分比必须在 0 到 1 之间。".to_string());
    assert_eq!(ManualCropProcessor.validate(&params).unwrap_err().user_message(), "裁剪百分比必须在 0 到 1 之间。");
}
