use art_tool::codec::{decode_image, decode_with_fallback, encode_for_path, encode_image, load_image_rgba};
use art_tool::compress::{CompressMode, CompressProcessor};
use art_tool::crop_runner::OutputFormat;
use art_tool::pixels::{Rgba8, RgbaBuffer};
use art_tool::processor::ProcessError;

fn sample() -> RgbaBuffer {
    let pixels = vec![
        Rgba8 { r: 255, g: 0, b: 0, a: 255 },
        Rgba8 { r: 0, g: 255, b: 0, a: 128 },
        Rgba8 { r: 0, g: 0, b: 255, a: 0 },
        Rgba8 { r: 10, g: 20, b: 30, a: 40 },
        Rgba8 { r: 1, g: 2, b: 3, a: 4 },
        Rgba8 { r: 200, g: 100, b: 50, a: 255 },
    ];
    RgbaBuffer::from_pixels(3, 2, pixels).expect("buffer")
}

#[test]
fn png_round_trip_keeps_pixels() {
    let img = sample();
    let bytes = encode_image(&img, OutputFormat::Png).expect("encode");
    let back = decode_image(&bytes, "x.png").expect("decode");
    assert_eq!(back.dimensions(), (3, 2));
    assert_eq!(back.to_pixels(), img.to_pixels());
}

#[test]
fn load_image_rgba_describes_rgba8() {
    let bytes = encode_image(&sample(), OutputFormat::Png).expect("encode");
    let (img, meta) = load_image_rgba(&bytes, "in.png").expect("load");
    assert_eq!(img.dimensions(), (3, 2));
    assert_eq!(meta.width, 3);
    assert_eq!(meta.height, 2);
    assert_eq!(meta.format.as_deref(), Some("rgba8"));
}

#[test]
fn undecodable_bytes_are_an_image_error() {
    match decode_with_fallback(b"not an image", "broken.png") {
        Err(ProcessError::Image(_)) => {}
        other => panic!("unexpected: {other:?}"),
    }
    assert!(matches!(decode_image(b"", "empty.bin"), Err(ProcessError::Image(_))));
}

#[test]
fn decode_with_fallback_decodes_by_content() {
    let bytes = encode_image(&sample(), OutputFormat::Bmp).expect("encode");
    let img = decode_with_fallback(&bytes, "picture.png").expect("decode");
    assert_eq!(img.to_pixels(), sample().to_pixels());
}

#[test]
fn jpeg_output_drops_transparency() {
    let bytes = encode_for_path(&sample(), "out/photo.JPG").expect("encode");
    assert_eq!(&bytes[0..2], &[0xFF, 0xD8]);
    let back = decode_image(&bytes, "photo.jpg").expect("decode");
    assert!(back.to_pixels().iter().all(|p| p.a == 255));
}

#[test]
fn save_by_path_uses_extension_format() {
    let bytes = encode_for_path(&sample(), "out/a.png").expect("encode");
    assert_eq!(&bytes[1..4], b"PNG");
    let tiff = encode_for_path(&sample(), "out/a.tif").expect("encode");
    assert!(tiff.starts_with(b"II") || tiff.starts_with(b"MM"));
    assert!(matches!(encode_for_path(&sample(), "out/a.unknownext"), Err(ProcessError::Image(_))));
}

#[test]
fn compress_encode_writes_planned_format() {
    let img = sample();
    let png = CompressProcessor.compress_encode(&img, OutputFormat::Png, 80, CompressMode::Lossless).expect("png");
    assert_eq!(&png[1..4], b"PNG");
    let back = decode_image(&png, "a.png").expect("decode");
    assert_eq!(back.to_pixels(), img.to_pixels());
    let jpg = CompressProcessor.compress_encode(&img, OutputFormat::Jpeg, 80, CompressMode::Balanced).expect("jpg");
    assert_eq!(&jpg[0..2], &[0xFF, 0xD8]);
    let webp = CompressProcessor.compress_encode(&img, OutputFormat::WebP, 80, CompressMode::Balanced).expect("webp");
    assert_eq!(&webp[8..12], b"WEBP");
    let lossy = CompressProcessor.compress_encode(&img, OutputFormat::Png, 10, CompressMode::Lossy).expect("lossy");
    assert_eq!(decode_image(&lossy, "a.png").expect("decode").dimensions(), (3, 2));
}
