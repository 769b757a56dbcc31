use avify::format::{
    classify, is_raw_extension, is_raw_file, is_supported_extension, is_supported_image,
    sniff_format, ImageFormat,
};

fn header(prefix: &[u8]) -> Vec<u8> {
    let mut h = prefix.to_vec();
    h.resize(12, 0);
    h
}

#[test]
fn sniff_png_header() {
    assert_eq!(sniff_format(&header(b"\x89PNG\r\n\x1a\n")), Some(ImageFormat::StandardAlpha));
}

#[test]
fn sniff_jpeg_gif_bmp_tiff() {
    assert_eq!(sniff_format(&header(&[0xFF, 0xD8, 0xFF])), Some(ImageFormat::Standard));
    assert_eq!(sniff_format(&header(b"GIF87a")), Some(ImageFormat::Standard));
    assert_eq!(sniff_format(&header(b"GIF89a")), Some(ImageFormat::Standard));
    assert_eq!(sniff_format(&header(b"BM")), Some(ImageFormat::Standard));
    assert_eq!(sniff_format(&header(b"II*\0")), Some(ImageFormat::Standard));
    assert_eq!(sniff_format(&header(b"MM\0*")), Some(ImageFormat::Standard));
}

#[test]
fn sniff_webp_needs_both_marks() {
    assert_eq!(sniff_format(b"RIFF\x10\0\0\0WEBP"), Some(ImageFormat::StandardAlpha));
    assert_eq!(sniff_format(b"RIFF\x10\0\0\0WAVE"), None);
}

#[test]
fn sniff_heic_jxl_psd() {
    assert_eq!(sniff_format(b"\0\0\0\x18ftypheic"), Some(ImageFormat::HeicUnsupported));
    assert_eq!(sniff_format(&header(&[0xFF, 0x0A])), Some(ImageFormat::Jxl));
    assert_eq!(sniff_format(b"\0\0\0\x0cJXL \r\n\x87\n"), Some(ImageFormat::Jxl));
    assert_eq!(sniff_format(&header(b"8BPS")), Some(ImageFormat::Psd));
}

#[test]
fn sniff_short_or_unknown_header() {
    assert_eq!(sniff_format(b"\x89PNG\r\n\x1a\n"), None);
    assert_eq!(sniff_format(b""), None);
    assert_eq!(sniff_format(&header(b"hello")), None);
}

#[test]
fn classify_raw_extension_wins() {
    assert_eq!(classify("photo.ARW", Some(ImageFormat::Standard)), ImageFormat::Raw);
    assert_eq!(classify("dir/x.Cr3", None), ImageFormat::Raw);
}

#[test]
fn classify_sniffed_beats_other_extension() {
    assert_eq!(classify("photo.jpg", Some(ImageFormat::StandardAlpha)), ImageFormat::StandardAlpha);
    assert_eq!(classify("photo.heic", Some(ImageFormat::Standard)), ImageFormat::Standard);
}

#[test]
fn classify_by_extension_fallback() {
    assert_eq!(classify("a.HEIC", None), ImageFormat::HeicUnsupported);
    assert_eq!(classify("a.heif", None), ImageFormat::HeicUnsupported);
    assert_eq!(classify("a.jxl", None), ImageFormat::Jxl);
    assert_eq!(classify("a.PSD", None), ImageFormat::Psd);
    assert_eq!(classify("a.png", None), ImageFormat::StandardAlpha);
    assert_eq!(classify("a.webp", None), ImageFormat::StandardAlpha);
    assert_eq!(classify("a.tga", None), ImageFormat::Standard);
    assert_eq!(classify("noext", None), ImageFormat::Standard);
    assert_eq!(classify(".png", None), ImageFormat::Standard);
}

#[test]
fn raw_and_supported_extensions() {
    for e in ["arw", "CR2", "cr3", "DNG", "nef", "orf", "raf", "raw", "rw2", "pef", "srw", "x3f"] {
        assert!(is_raw_extension(e), "{e}");
        assert!(is_supported_extension(e), "{e}");
    }
    for e in ["heic", "heif", "jpg", "JPEG", "png", "webp", "bmp", "tiff", "tif", "gif", "tga", "jxl", "psd"] {
        assert!(!is_raw_extension(e), "{e}");
        assert!(is_supported_extension(e), "{e}");
    }
    assert!(!is_supported_extension("txt"));
    assert!(!is_supported_extension("xmp"));
    assert!(!is_raw_extension(""));
}

#[test]
fn raw_files_are_collected() {
    assert!(is_raw_file("shots/IMG_1.NEF"));
    assert!(is_supported_image("shots/IMG_1.NEF"));
    assert!(!is_raw_file("shots/IMG_1.NEF.xmp"));
    assert!(!is_supported_image("shots/IMG_1.NEF.xmp"));
    assert!(!is_raw_file("raw"));
}
