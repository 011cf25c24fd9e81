//! Pipeline orchestration: decode, composite against the backdrop, run the
//! transform hook, encode to PNG. A straight-line composition that propagates
//! the first failing stage's error; the encoder runs only when every earlier
//! stage succeeded.

use vstd::prelude::*;
use crate::codec::{
    DecodeError, EncodeError, decode_image, encode_png, png_encoding, rgba_decoding,
};
use crate::compositor::{composite, composite_spec};
use crate::pixel::{Pixel, bytes_of_pixels, opaque_white, pixels_of_bytes};
use crate::transform::TransformHook;

verus! {

/// The first failing stage's error, stage of origin kept distinguishable.
#[derive(Clone, Copy, PartialEq, Eq, Structural, Debug)]
pub enum PipelineError {
    Decode(DecodeError),
    Encode(EncodeError),
}

/// The whole pipeline with the fixed opaque-white backdrop and the default
/// identity hook, on in-memory bytes: decode, composite, transform, encode.
///
/// On success the output is exactly the PNG encoding of the decoded buffer
/// composited against opaque white, at the decoded dimensions. A decode
/// failure comes exactly from undecodable input; an encode failure exactly
/// from PNG refusing the decoded dimensions; a dimension mismatch cannot
/// arise, since compositing preserves length.
pub fn transform_image_bytes(input: &Vec<u8>) -> (r: Result<Vec<u8>, PipelineError>)
    ensures
        match r {
            Ok(out) => {
                &&& rgba_decoding(input@) matches Some(d)
                &&& png_encoding(
                    bytes_of_pixels(composite_spec(pixels_of_bytes(d.0), opaque_white())),
                    d.1,
                    d.2,
                ) == Some(out@)
            },
            Err(PipelineError::Decode(DecodeError::InvalidImage)) => rgba_decoding(input@) is None,
            Err(PipelineError::Encode(EncodeError::Unsupported)) => {
                &&& rgba_decoding(input@) matches Some(d)
                &&& png_encoding(
                    bytes_of_pixels(composite_spec(pixels_of_bytes(d.0), opaque_white())),
                    d.1,
                    d.2,
                ) is None
            },
            Err(PipelineError::Encode(EncodeError::DimensionMismatch)) => false,
        },
{
    let (pixels, width, height) = match decode_image(input) {
        Ok(t) => t,
        Err(e) => {
            return Err(PipelineError::Decode(e));
        },
    };
    let composited = composite(&pixels, crate::pixel::white_pixel());
    let transformed = crate::transform::apply_transform(composited);
    match encode_png(&transformed, width, height) {
        Ok(out) => Ok(out),
        Err(e) => Err(PipelineError::Encode(e)),
    }
}

/// The pipeline over a caller-supplied backdrop and hook. The hook is opaque
/// to the pipeline beyond length preservation, so on success the output is
/// the PNG encoding, at the decoded dimensions, of some buffer the hook
/// returned for the composited input — with the identity hook, of the
/// composited buffer itself.
pub fn run<H: TransformHook>(input: &Vec<u8>, backdrop: Pixel, hook: &H) -> (r: Result<
    Vec<u8>,
    PipelineError,
>)
    ensures
        match r {
            Ok(out) => {
                &&& rgba_decoding(input@) matches Some(d)
                &&& exists|t: Seq<Pixel>|
                    t.len() == pixels_of_bytes(d.0).len() && png_encoding(
                        bytes_of_pixels(t),
                        d.1,
                        d.2,
                    ) == Some(out@)
            },
            Err(PipelineError::Decode(DecodeError::InvalidImage)) => rgba_decoding(input@) is None,
            Err(PipelineError::Encode(EncodeError::Unsupported)) => {
                &&& rgba_decoding(input@) matches Some(d)
                &&& exists|t: Seq<Pixel>|
                    t.len() == pixels_of_bytes(d.0).len() && png_encoding(
                        bytes_of_pixels(t),
                        d.1,
                        d.2,
                    ) is None
            },
            Err(PipelineError::Encode(EncodeError::DimensionMismatch)) => false,
        },
{
    let (pixels, width, height) = match decode_image(input) {
        Ok(t) => t,
        Err(e) => {
            return Err(PipelineError::Decode(e));
        },
    };
    let composited = composite(&pixels, backdrop);
    let transformed = hook.apply(composited);
    match encode_png(&transformed, width, height) {
        Ok(out) => {
            proof {
                let d = rgba_decoding(input@).unwrap();
                assert(transformed@.len() == pixels_of_bytes(d.0).len());
            }
            Ok(out)
        },
        Err(e) => Err(PipelineError::Encode(e)),
    }
}

/// Round-trip law: with a fully transparent backdrop — under which
/// compositing is the identity — and the identity transform, the raw RGBA
/// bytes handed to the encoder are exactly the decoded bytes, so a lossless
/// re-encoding reproduces the decoded image's channel values.
pub proof fn lemma_round_trip_without_transform(raw: Seq<u8>, backdrop: Pixel)
    requires
        backdrop.a == 0,
        raw.len() % 4 == 0,
    ensures
        bytes_of_pixels(composite_spec(pixels_of_bytes(raw), backdrop)) == raw,
{
    crate::compositor::lemma_identity_backdrop(pixels_of_bytes(raw), backdrop);
    crate::pixel::lemma_bytes_pixels_round_trip(raw);
}

} // verus!
