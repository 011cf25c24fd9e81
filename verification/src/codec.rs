//! Decoding and encoding of image bytes, through the `image` crate.
//!
//! The decoder auto-detects the container format from the bytes themselves
//! and hands back a flat row-major RGBA buffer with its dimensions. The
//! encoder packs such a buffer into PNG, the supported lossless format with
//! an alpha channel. Both are deterministic functions of their arguments;
//! their results are named by uninterpreted spec functions, and everything
//! around the two calls is verified against those names.

use vstd::prelude::*;
use crate::pixel::{ImagePixels, Pixel, pixels_of_bytes, bytes_of_pixels};

verus! {

/// What `image::load_from_memory` followed by `DynamicImage::to_rgba8`
/// returns for given input bytes: `Some((raw, width, height))` with the flat
/// row-major RGBA buffer on success, `None` where the bytes are not a
/// supported image.
pub uninterp spec fn rgba_decoding(bytes: Seq<u8>) -> Option<(Seq<u8>, u32, u32)>;

/// What PNG-encoding a flat RGBA buffer of the given dimensions returns:
/// `Some(encoded)` on success, `None` where PNG cannot represent the
/// dimensions (a zero width or height).
pub uninterp spec fn png_encoding(raw: Seq<u8>, width: u32, height: u32) -> Option<Seq<u8>>;

/// Failure to decode input bytes as a supported image.
#[derive(Clone, Copy, PartialEq, Eq, Structural, Debug)]
pub enum DecodeError {
    /// The bytes are not a supported or well-formed image.
    InvalidImage,
}

/// Failure to encode a pixel buffer.
#[derive(Clone, Copy, PartialEq, Eq, Structural, Debug)]
pub enum EncodeError {
    /// The buffer's length is not `width * height`.
    DimensionMismatch,
    /// The target format cannot represent the image (a zero dimension).
    Unsupported,
}

#[verifier::external_type_specification]
#[verifier::external_body]
pub struct ExImageError(image::ImageError);

/// Relies on `image::load_from_memory` and `DynamicImage::to_rgba8`:
/// decoding guesses the format from the bytes alone, so the result is a
/// function of the bytes; the RGBA buffer is row-major, four bytes per
/// pixel, `4 * width * height` bytes in all, channels reordered to
/// `(R, G, B, A)` whatever the source layout.
#[verifier::external_body]
fn decode_rgba_raw(bytes: &Vec<u8>) -> (r: Result<(Vec<u8>, u32, u32), image::ImageError>)
    ensures
        match r {
            Ok(t) => rgba_decoding(bytes@) == Some((t.0@, t.1, t.2))
                && t.0@.len() == 4 * (t.1 as int) * (t.2 as int),
            Err(_) => rgba_decoding(bytes@) is None,
        },
{
    let img = image::load_from_memory(bytes.as_slice())?;
    let rgba = img.to_rgba8();
    let (w, h) = rgba.dimensions();
    Ok((rgba.into_raw(), w, h))
}

/// Relies on `image::RgbaImage::from_raw` and `DynamicImage::write_to` with
/// the PNG format: a buffer of exactly `4 * width * height` bytes always
/// forms an image, and PNG encoding of it is a function of the buffer and
/// the dimensions alone.
#[verifier::external_body]
fn png_encode_raw(raw: &Vec<u8>, width: u32, height: u32) -> (r: Result<
    Vec<u8>,
    image::ImageError,
>)
    requires
        raw@.len() == 4 * (width as int) * (height as int),
    ensures
        match r {
            Ok(v) => png_encoding(raw@, width, height) == Some(v@),
            Err(_) => png_encoding(raw@, width, height) is None,
        },
{
    let img = image::RgbaImage::from_raw(width, height, raw.clone()).unwrap();
    let dynamic = image::DynamicImage::ImageRgba8(img);
    let mut cursor = std::io::Cursor::new(Vec::new());
    match dynamic.write_to(&mut cursor, image::ImageFormat::Png) {
        Ok(()) => Ok(cursor.into_inner()),
        Err(e) => Err(e),
    }
}

/// Decodes image bytes into a pixel buffer with its dimensions. Succeeds
/// exactly where the bytes decode as a supported image; the buffer holds the
/// decoded RGBA bytes grouped into pixels, `width * height` of them in
/// row-major order.
pub fn decode_image(bytes: &Vec<u8>) -> (r: Result<(ImagePixels, u32, u32), DecodeError>)
    ensures
        match r {
            Ok(t) => {
                &&& rgba_decoding(bytes@) matches Some(d)
                &&& t.0@ == pixels_of_bytes(d.0)
                &&& t.1 == d.1
                &&& t.2 == d.2
                &&& t.0@.len() == (t.1 as int) * (t.2 as int)
            },
            Err(DecodeError::InvalidImage) => rgba_decoding(bytes@) is None,
        },
{
    match decode_rgba_raw(bytes) {
        Ok((raw, w, h)) => {
            let pixels = crate::pixel::pixels_from_raw(&raw);
            proof {
                assert(pixels@.len() == (w as int) * (h as int)) by (nonlinear_arith)
                    requires
                        pixels@.len() == raw@.len() / 4,
                        raw@.len() == 4 * (w as int) * (h as int);
            }
            Ok((pixels, w, h))
        },
        Err(_) => Err(DecodeError::InvalidImage),
    }
}

/// Encodes a pixel buffer of the given dimensions as PNG bytes. Fails with
/// `DimensionMismatch` exactly where `width * height` is not the buffer's
/// length, and with `Unsupported` exactly where PNG refuses the dimensions.
pub fn encode_png(pixels: &ImagePixels, width: u32, height: u32) -> (r: Result<
    Vec<u8>,
    EncodeError,
>)
    ensures
        match r {
            Ok(v) => (width as int) * (height as int) == pixels@.len()
                && png_encoding(bytes_of_pixels(pixels@), width, height) == Some(v@),
            Err(EncodeError::DimensionMismatch) => (width as int) * (height as int)
                != pixels@.len(),
            Err(EncodeError::Unsupported) => (width as int) * (height as int) == pixels@.len()
                && png_encoding(bytes_of_pixels(pixels@), width, height) is None,
        },
{
    proof {
        assert((width as int) * (height as int) <= 0xffff_ffff * 0xffff_ffff)
            by (nonlinear_arith)
            requires width <= 0xffff_ffff && height <= 0xffff_ffff;
    }
    if (width as u64) * (height as u64) != pixels.len() as u64 {
        return Err(EncodeError::DimensionMismatch);
    }
    let raw = crate::pixel::raw_from_pixels(pixels);
    proof {
        assert(raw@.len() == 4 * (width as int) * (height as int)) by (nonlinear_arith)
            requires
                raw@.len() == pixels@.len() * 4,
                pixels@.len() == (width as int) * (height as int);
    }
    match png_encode_raw(&raw, width, height) {
        Ok(v) => Ok(v),
        Err(_) => Err(EncodeError::Unsupported),
    }
}

} // verus!
