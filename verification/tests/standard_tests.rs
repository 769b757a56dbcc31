use avify::standard::{decode_standard, DecodeError};
use std::io::Cursor;

fn encoded(format: image::ImageFormat) -> Vec<u8> {
    let img = image::RgbaImage::from_raw(2, 1, vec![10, 20, 30, 255, 40, 50, 60, 128]).unwrap();
    let mut out = Cursor::new(Vec::new());
    image::DynamicImage::ImageRgba8(img).write_to(&mut out, format).unwrap();
    out.into_inner()
}

#[test]
fn png_with_alpha() {
    let img = decode_standard(&encoded(image::ImageFormat::Png), None, true).unwrap();
    assert_eq!((img.width, img.height, img.alpha), (2, 1, true));
    assert_eq!(img.samples, vec![10, 20, 30, 255, 40, 50, 60, 128]);
}

#[test]
fn png_without_alpha() {
    let img = decode_standard(&encoded(image::ImageFormat::Png), Some("png"), false).unwrap();
    assert_eq!((img.width, img.height, img.alpha), (2, 1, false));
    assert_eq!(img.samples, vec![10, 20, 30, 40, 50, 60]);
}

#[test]
fn tga_needs_its_extension() {
    let bytes = encoded(image::ImageFormat::Tga);
    let img = decode_standard(&bytes, Some("TGA"), true).unwrap();
    assert_eq!(img.samples, vec![10, 20, 30, 255, 40, 50, 60, 128]);
    assert!(matches!(decode_standard(&bytes, None, true), Err(DecodeError::Image(_))));
}

#[test]
fn garbage_is_refused() {
    assert!(decode_standard(b"not an image", Some("jpg"), false).is_err());
    assert!(decode_standard(b"", None, false).is_err());
}

#[test]
fn sample_count_matches_layout() {
    for alpha in [false, true] {
        let img = decode_standard(&encoded(image::ImageFormat::Bmp), Some("bmp"), alpha).unwrap();
        assert_eq!(img.samples.len(), img.width * img.height * if alpha { 4 } else { 3 });
    }
}
