use art_tool::compress::{CompressParams, CompressProcessor};
use art_tool::format_convert::{parse_input_format_by_extension, parse_target_format, FormatConvertParams, FormatConvertProcessor};
use art_tool::crop_runner::OutputFormat;
use art_tool::processor::ProcessError;
use art_tool::repair::{RepairParams, RepairProcessor};
use art_tool::resolution_transform::{ResolutionTarget, ResolutionTransformParams, ResolutionTransformProcessor};
use art_tool::upscale_anime::{UpscaleAnimeParams, UpscaleAnimeProcessor};

fn repair(mode: &str, strength: u8, factor: u8, sharpness: u8) -> RepairParams {
    RepairParams { mode: mode.to_string(), strength, upscale_factor: factor, upscale_sharpness: sharpness }
}

fn transform(w: u32, h: u32, s: u8) -> ResolutionTransformParams {
    ResolutionTransformParams { target_width: w, target_height: h, upscale_sharpness: s, file_overrides: Vec::new() }
}

fn message(e: ProcessError) -> String {
    match e {
        ProcessError::Validation(m) => m,
        other => panic!("not a validation error: {:?}", other),
    }
}

#[test]
fn rejects_invalid_compress_mode() {
    let validation = CompressProcessor.validate(&CompressParams { quality: 70, mode: Some("super".to_string()) });
    assert!(validation.is_err());
}

#[test]
fn compress_quality_must_be_in_range() {
    assert!(CompressProcessor.validate(&CompressParams { quality: 0, mode: None }).is_err());
    assert!(CompressProcessor.validate(&CompressParams { quality: 101, mode: Some("lossy".to_string()) }).is_err());
    assert!(CompressProcessor.validate(&CompressParams { quality: 100, mode: Some("lossless".to_string()) }).is_ok());
    assert!(CompressProcessor.validate(&CompressParams { quality: 1, mode: Some("balanced".to_string()) }).is_ok());
    assert_eq!(
        message(CompressProcessor.validate(&CompressParams { quality: 0, mode: None }).unwrap_err()),
        "quality 必须在 1 到 100 之间。"
    );
}

#[test]
fn rejects_unsupported_target_format() {
    let validate = FormatConvertProcessor.validate(&FormatConvertParams { target_format: "gif".to_string() });
    assert!(validate.is_err());
}

#[test]
fn target_formats_are_normalised() {
    let (ext, f) = parse_target_format("  JPEG ").expect("jpeg");
    assert_eq!(ext, "jpg");
    assert_eq!(f, OutputFormat::Jpeg);
    assert_eq!(parse_target_format("tiff").map(|p| p.1), Some(OutputFormat::Tiff));
    assert!(parse_target_format("tif").is_none());
    assert!(parse_target_format("").is_none());
    assert_eq!(parse_input_format_by_extension("a/b.TIF"), Some(OutputFormat::Tiff));
    assert_eq!(parse_input_format_by_extension("a/b.webp"), Some(OutputFormat::WebP));
    assert_eq!(parse_input_format_by_extension("a/b"), None);
}

#[test]
fn rejects_invalid_repair_mode() {
    assert!(RepairProcessor.validate(&repair("magic", 50, 2, 70)).is_err());
}

#[test]
fn rejects_invalid_upscale_factor() {
    assert!(RepairProcessor.validate(&repair("upscale", 60, 1, 70)).is_err());
}

#[test]
fn repair_tests_rejects_invalid_upscale_sharpness() {
    assert!(RepairProcessor.validate(&repair("upscale", 60, 2, 0)).is_err());
}

#[test]
fn repair_accepts_modes_in_any_case() {
    assert!(RepairProcessor.validate(&repair(" Denoise ", 60, 2, 70)).is_ok());
    assert_eq!(
        message(RepairProcessor.validate(&repair("auto", 0, 2, 70)).unwrap_err()),
        "strength 必须在 1 到 100 之间。"
    );
}

#[test]
fn rejects_invalid_target_resolution() {
    assert!(ResolutionTransformProcessor.validate(&transform(0, 1080, 70)).is_err());
}

#[test]
fn resolution_transform_tests_rejects_invalid_upscale_sharpness() {
    assert!(ResolutionTransformProcessor.validate(&transform(1920, 1080, 0)).is_err());
}

#[test]
fn per_file_targets_are_checked_with_their_path() {
    let mut p = transform(1920, 1080, 70);
    p.file_overrides.push(("a.png".to_string(), ResolutionTarget { target_width: 64, target_height: 64 }));
    p.file_overrides.push(("b.png".to_string(), ResolutionTarget { target_width: 64, target_height: 20000 }));
    let e = ResolutionTransformProcessor.validate(&p).unwrap_err();
    assert_eq!(message(e), "fileOverrides[b.png].targetHeight 必须在 1 到 16384 之间。");
    assert!(ResolutionTransformProcessor.validate(&ResolutionTransformParams::default_params()).is_ok());
}

#[test]
fn upscale_anime_params_are_checked() {
    let p = UpscaleAnimeParams::default_params();
    assert_eq!((p.scale, p.denoise_level), (2, 3));
    assert!(UpscaleAnimeProcessor.validate_params(&p).is_ok());
    let e = UpscaleAnimeProcessor.validate_params(&UpscaleAnimeParams { scale: 3, denoise_level: 1 }).unwrap_err();
    assert_eq!(message(e), "倍率仅支持 2x 或 4x。");
    let e = UpscaleAnimeProcessor.validate_params(&UpscaleAnimeParams { scale: 4, denoise_level: 0 }).unwrap_err();
    assert_eq!(message(e), "降噪等级仅支持 1-3。");
}
