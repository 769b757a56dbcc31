//! Decoding the common formats (JPEG, PNG, GIF, WebP, BMP, TIFF, TGA) from a
//! file's bytes with the `image` crate, into 8-bit samples.

use vstd::prelude::*;

verus! {

/// A decoded image: its samples row by row, three per pixel (RGB) or four
/// (RGBA), and its size.
pub struct RawImage {
    pub samples: Vec<u8>,
    pub width: usize,
    pub height: usize,
    pub alpha: bool,
}

/// Why an image could not be decoded: the `image` crate's error.
#[derive(Debug)]
pub enum DecodeError {
    Image(image::ImageError),
}

#[verifier::external_type_specification]
#[verifier::external_body]
pub struct ExImageError(image::ImageError);

#[verifier::external_type_specification]
#[verifier::external_body]
pub struct ExDynamicImage(image::DynamicImage);

/// The number of samples per pixel: four with alpha, three without.
pub open spec fn channels(alpha: bool) -> nat {
    if alpha {
        4
    } else {
        3
    }
}

/// Decodes with `image::ImageReader::new` over the bytes, the format set by
/// `ImageFormat::from_extension` where the extension names one, then
/// `with_guessed_format` and `decode`. Nothing is claimed of the result: it
/// also depends on the decoding and format-detection hooks registered in the
/// process (`image::hooks`).
#[verifier::external_body]
fn image_decode(bytes: &[u8], ext: Option<&str>) -> (r: Result<image::DynamicImage, image::ImageError>) {
    let mut reader = image::ImageReader::new(std::io::Cursor::new(bytes));
    if let Some(format) = ext.and_then(image::ImageFormat::from_extension) {
        reader.set_format(format);
    }
    reader.with_guessed_format().map_err(image::ImageError::IoError)?.decode()
}

/// `DynamicImage::into_rgba8`, then the buffer's `width`, `height` and
/// `into_raw`. Claimed: the samples are at least four per pixel, as
/// `ImageBuffer` keeps its container at least that long.
#[verifier::external_body]
fn rgba8_samples(img: image::DynamicImage) -> (r: (Vec<u8>, usize, usize))
    ensures
        r.0@.len() >= r.1 * r.2 * 4,
{
    let b = img.into_rgba8();
    let (w, h) = (b.width() as usize, b.height() as usize);
    (b.into_raw(), w, h)
}

/// `DynamicImage::into_rgb8`, then the buffer's `width`, `height` and
/// `into_raw`. Claimed: the samples are at least three per pixel, as
/// `ImageBuffer` keeps its container at least that long.
#[verifier::external_body]
fn rgb8_samples(img: image::DynamicImage) -> (r: (Vec<u8>, usize, usize))
    ensures
        r.0@.len() >= r.1 * r.2 * 3,
{
    let b = img.into_rgb8();
    let (w, h) = (b.width() as usize, b.height() as usize);
    (b.into_raw(), w, h)
}

/// Decodes a file in a common format from its bytes and its extension, as
/// RGBA samples with `alpha`, else as RGB samples: exactly `channels(alpha)`
/// samples per pixel, row by row. Whether `image` accepts the bytes, and what
/// it decodes them to, is not stated: it depends on hooks that any code in the
/// process may register.
pub fn decode_standard(bytes: &[u8], ext: Option<&str>, alpha: bool) -> (r: Result<RawImage, DecodeError>)
    ensures
        r matches Ok(i) ==> i.alpha == alpha && i.samples@.len() == i.width * i.height * channels(alpha),
{
    let img = match image_decode(bytes, ext) {
        Ok(img) => img,
        Err(e) => return Err(DecodeError::Image(e)),
    };
    let (mut samples, width, height) = if alpha {
        rgba8_samples(img)
    } else {
        rgb8_samples(img)
    };
    let ch: usize = if alpha { 4 } else { 3 };
    let total = samples.len();
    assert(width * height * ch <= total);
    assert(width * height <= width * height * ch) by (nonlinear_arith)
        requires
            ch >= 3,
    ;
    let n = width * height * ch;
    samples.truncate(n);
    Ok(RawImage { samples, width, height, alpha })
}

} // verus!
