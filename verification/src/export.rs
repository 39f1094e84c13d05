//! Encoding a capture for export: RGBA pixels to PNG bytes through the
//! `image` crate's PNG encoder.

use vstd::prelude::*;
use image::ImageEncoder;
use crate::strings::{lowercased, str_eq, to_lowercase};

verus! {

#[verifier::external_type_specification]
#[verifier::external_body]
pub struct ExImageError(image::ImageError);

/// The PNG file the `image` crate's encoder (default compression and
/// filter) writes for a `width` x `height` RGBA image, or `None` when it
/// refuses the image.
pub uninterp spec fn png_encoding(pixels: Seq<u8>, width: u32, height: u32) -> Option<Seq<u8>>;

/// image's `PngEncoder::write_image` for 8-bit RGBA pixels, writing into a
/// fresh buffer. Its outcome is named by `png_encoding`. The encoder
/// asserts (panics) unless the buffer holds exactly `width * height`
/// pixels, so that is required.
#[verifier::external_body]
fn png_encode_rgba(pixels: &[u8], width: u32, height: u32) -> (r: Result<Vec<u8>, image::ImageError>)
    requires
        pixels@.len() == width * height * 4,
    ensures
        match r {
            Ok(bytes) => png_encoding(pixels@, width, height) == Some(bytes@),
            Err(_) => png_encoding(pixels@, width, height) is None,
        },
{
    let mut out: Vec<u8> = Vec::new();
    match image::codecs::png::PngEncoder::new(&mut out).write_image(pixels, width, height, image::ExtendedColorType::Rgba8) {
        Ok(()) => Ok(out),
        Err(e) => Err(e),
    }
}

/// The display text of an `image` error (its `Display` impl); nothing is
/// stated about the text.
#[verifier::external_body]
fn image_error_text(e: image::ImageError) -> String {
    e.to_string()
}

/// What encoding `pixels` as a `width` x `height` PNG gives: the buffer
/// must hold the image (extra bytes are ignored), else it is invalid image
/// data; otherwise the encoder's result for the image's pixels.
pub open spec fn png_outcome_ok(pixels: Seq<u8>, width: u32, height: u32, bytes: Seq<u8>) -> bool {
    pixels.len() >= width * height * 4 && png_encoding(pixels.subrange(0, width * height * 4), width, height) == Some(bytes)
}

/// Encode RGBA pixels to PNG bytes.
pub fn encode_png(pixels: &[u8], width: u32, height: u32) -> (r: Result<Vec<u8>, String>)
    ensures
        pixels@.len() < width * height * 4 ==> r is Err && r.unwrap_err()@ == "invalid image data"@,
        r matches Ok(bytes) ==> png_outcome_ok(pixels@, width, height, bytes@),
        pixels@.len() >= width * height * 4 && r is Err
            ==> png_encoding(pixels@.subrange(0, width * height * 4), width, height) is None,
{
    assert(width * height <= 0xffff_ffff * 0xffff_ffff) by (nonlinear_arith)
        requires width <= 0xffff_ffff, height <= 0xffff_ffff;
    let wh: u64 = width as u64 * height as u64;
    if ((pixels.len() / 4) as u64) < wh {
        return Err(String::from_str("invalid image data"));
    }
    let needed: usize = (wh * 4) as usize;
    let image_bytes = vstd::slice::slice_subrange(pixels, 0, needed);
    match png_encode_rgba(image_bytes, width, height) {
        Ok(bytes) => Ok(bytes),
        Err(e) => Err(image_error_text(e)),
    }
}

/// A file whose extension (lowercased) is `jpg` or `jpeg` is written as an
/// RGB JPEG, since JPEG has no alpha; any other extension (none counts as
/// `png`) is written in the format it names, with alpha.
pub open spec fn jpeg_extension(ext: Seq<char>) -> bool {
    lowercased(ext) == "jpg"@ || lowercased(ext) == "jpeg"@
}

/// Whether a file with extension `ext` is saved as JPEG (dropping alpha).
pub fn saves_as_jpeg(ext: &str) -> (jpeg: bool)
    ensures
        jpeg == jpeg_extension(ext@),
{
    let lower = to_lowercase(ext);
    str_eq(lower.as_str(), "jpg") || str_eq(lower.as_str(), "jpeg")
}

} // verus!
