use art_tool::compress::{quantize_colors, CompressMode, CompressParams, CompressPlan, CompressProcessor};
use art_tool::crop_runner::OutputFormat;
use art_tool::format_convert::{FormatConvertParams, FormatConvertProcessor};
use art_tool::pixels::{Rgba8, RgbaBuffer};
use art_tool::processor::ProcessStatus;
use art_tool::rename::{RenamePlan, RenameProcessor};

#[test]
fn skips_unsupported_bmp_compression() {
    let params = CompressParams { quality: 80, mode: Some("balanced".to_string()) };
    match CompressProcessor.plan(&params, "dir/input.bmp").expect("plan") {
        CompressPlan::Skip(message) => assert!(message.contains("暂不支持 BMP/TIFF")),
        other => panic!("unexpected plan {:?}", other),
    }
}

#[test]
fn compresses_jpeg_and_png_in_their_format() {
    let params = CompressParams { quality: 28, mode: Some("lossy".to_string()) };
    match CompressProcessor.plan(&params, "input.JPG").expect("plan") {
        CompressPlan::Encode { format, quality, mode } => {
            assert_eq!((format, quality, mode), (OutputFormat::Jpeg, 28, CompressMode::Lossy));
        }
        other => panic!("unexpected plan {:?}", other),
    }
    let params = CompressParams { quality: 40, mode: None };
    match CompressProcessor.plan(&params, "input.png").expect("plan") {
        CompressPlan::Encode { format, mode, .. } => assert_eq!((format, mode), (OutputFormat::Png, CompressMode::Balanced)),
        other => panic!("unexpected plan {:?}", other),
    }
    assert!(CompressProcessor.plan(&params, "input.gif").is_err());
}

#[test]
fn lossy_png_colours_are_quantised() {
    let img = RgbaBuffer::filled(3, 2, Rgba8 { r: 250, g: 13, b: 7, a: 201 });
    let out = quantize_colors(&img, 40);
    // quality 40: step 7
    assert_eq!(out.get_pixel(2, 1), Rgba8 { r: 245, g: 7, b: 7, a: 201 });
    let same = quantize_colors(&img, 100);
    assert_eq!(same.get_pixel(0, 0), Rgba8 { r: 250, g: 13, b: 7, a: 201 });
}

#[test]
fn converts_png_to_jpg_successfully() {
    let params = FormatConvertParams { target_format: "jpg".to_string() };
    let plan = FormatConvertProcessor.plan(&params, "out/converted.png").expect("plan");
    assert_eq!(plan.format, OutputFormat::Jpeg);
    assert_eq!(plan.output_path, "out/converted.jpg");
    let result = FormatConvertProcessor.conversion_result(&plan, (24, 18), (24, 18));
    assert_eq!(result.status, ProcessStatus::Success);
    assert_eq!(result.message, "格式转换完成。");
    let meta = result.output_metadata.expect("meta");
    assert_eq!((meta.width, meta.height, meta.format.as_deref()), (24, 18, Some("jpg")));
}

#[test]
fn rename_copies_or_skips() {
    match RenameProcessor.plan("a/b.png", "a/b.png") {
        RenamePlan::Done(r) => assert_eq!(r.status, ProcessStatus::Skipped),
        other => panic!("unexpected plan {:?}", other),
    }
    match RenameProcessor.plan("a/b.png", "c/item.png") {
        RenamePlan::Copy { result } => {
            assert_eq!(result.message, "重命名完成。");
            assert_eq!(result.output_path.as_deref(), Some("c/item.png"));
        }
        other => panic!("unexpected plan {:?}", other),
    }
}

#[test]
fn compresses_jpeg_with_smaller_size() {
    let params = CompressParams { quality: 28, mode: Some("lossy".to_string()) };
    assert!(CompressProcessor.validate(&params).is_ok());
    match CompressProcessor.plan(&params, "input.jpg").expect("plan") {
        CompressPlan::Encode { format, quality, .. } => assert_eq!((format, quality), (OutputFormat::Jpeg, 28)),
        other => panic!("unexpected plan {:?}", other),
    }
}

#[test]
fn compresses_png_in_lossy_mode() {
    let (width, height) = (30u32, 22u32);
    let mut img = RgbaBuffer::filled(width, height, Rgba8 { r: 0, g: 0, b: 0, a: 255 });
    for y in 0..height {
        for x in 0..width {
            let r = ((x * 29 + y * 13 + 17) % 256) as u8;
            let g = ((x * 7 + y * 31 + 73) % 256) as u8;
            let b = ((x * 19 + y * 11 + 191) % 256) as u8;
            img.put_pixel(x, y, Rgba8 { r, g, b, a: 255 });
        }
    }
    let params = CompressParams { quality: 40, mode: Some("lossy".to_string()) };
    let plan = CompressProcessor.plan(&params, "input.png").expect("plan");
    assert!(matches!(plan, CompressPlan::Encode { format: OutputFormat::Png, mode: CompressMode::Lossy, .. }));
    let out = quantize_colors(&img, 40);
    let distinct = |b: &RgbaBuffer| {
        let mut v: Vec<u8> = b.to_pixels().iter().map(|p| p.r).collect();
        v.sort();
        v.dedup();
        v.len()
    };
    assert!(distinct(&out) < distinct(&img));
    assert!(out.to_pixels().iter().all(|p| p.r % 7 == 0 && p.g % 7 == 0 && p.b % 7 == 0));
}

#[test]
fn compress_result_reports_written_file() {
    let r = CompressProcessor.compress_result("out/a.png");
    assert_eq!(r.status, ProcessStatus::Success);
    assert_eq!(r.message, "压缩完成。");
    assert_eq!(r.output_path.as_deref(), Some("out/a.png"));
}
