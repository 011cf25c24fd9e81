use pixelpipe::codec::{decode_image, encode_png, DecodeError, EncodeError};
use pixelpipe::pipeline::{run, transform_image_bytes, PipelineError};
use pixelpipe::pixel::{pixels_from_raw, raw_from_pixels, white_pixel, Pixel};
use pixelpipe::transform::{IdentityHook, TransformHook};

fn sample_pixels() -> Vec<Pixel> {
    vec![
        Pixel { r: 1, g: 2, b: 3, a: 255 },
        Pixel { r: 200, g: 100, b: 50, a: 255 },
        Pixel { r: 0, g: 0, b: 0, a: 255 },
        Pixel { r: 255, g: 255, b: 255, a: 255 },
    ]
}

#[test]
fn png_round_trip_reproduces_pixels() {
    let pixels = sample_pixels();
    let png = encode_png(&pixels, 2, 2).unwrap();
    let (decoded, w, h) = decode_image(&png).unwrap();
    assert_eq!((w, h), (2, 2));
    assert_eq!(decoded, pixels);
    let png_again = encode_png(&decoded, 2, 2).unwrap();
    assert_eq!(png_again, png);
}

#[test]
fn raw_bytes_round_trip() {
    let raw = vec![10u8, 20, 30, 40, 50, 60, 70, 80];
    let pixels = pixels_from_raw(&raw);
    assert_eq!(
        pixels,
        vec![
            Pixel { r: 10, g: 20, b: 30, a: 40 },
            Pixel { r: 50, g: 60, b: 70, a: 80 },
        ]
    );
    assert_eq!(raw_from_pixels(&pixels), raw);
}

#[test]
fn pipeline_composites_against_white() {
    let source = vec![Pixel { r: 100, g: 50, b: 200, a: 128 }];
    let png = encode_png(&source, 1, 1).unwrap();
    let out = transform_image_bytes(&png).unwrap();
    let (decoded, w, h) = decode_image(&out).unwrap();
    assert_eq!((w, h), (1, 1));
    assert_eq!(decoded, vec![Pixel { r: 255, g: 255, b: 255, a: 255 }]);
}

#[test]
fn run_with_identity_hook_matches_fixed_pipeline() {
    let png = encode_png(&sample_pixels(), 4, 1).unwrap();
    let fixed = transform_image_bytes(&png).unwrap();
    let general = run(&png, white_pixel(), &IdentityHook).unwrap();
    assert_eq!(general, fixed);
}

struct ChannelSwapHook;

impl TransformHook for ChannelSwapHook {
    fn apply(&self, pixels: Vec<Pixel>) -> Vec<Pixel> {
        pixels
            .into_iter()
            .map(|p| Pixel { r: p.b, g: p.g, b: p.r, a: p.a })
            .collect()
    }
}

#[test]
fn run_with_custom_hook_preserves_length() {
    let pixels = sample_pixels();
    let png = encode_png(&pixels, 2, 2).unwrap();
    let out = run(&png, white_pixel(), &ChannelSwapHook).unwrap();
    let (decoded, w, h) = decode_image(&out).unwrap();
    assert_eq!((w, h), (2, 2));
    assert_eq!(decoded.len(), pixels.len());
}

#[test]
fn garbage_bytes_fail_to_decode() {
    let garbage = vec![0u8, 1, 2, 3, 4, 5, 6, 7, 8, 9];
    assert_eq!(decode_image(&garbage).unwrap_err(), DecodeError::InvalidImage);
    assert_eq!(
        transform_image_bytes(&garbage).unwrap_err(),
        PipelineError::Decode(DecodeError::InvalidImage)
    );
}

#[test]
fn dimension_mismatch_fails_to_encode() {
    let pixels = sample_pixels();
    assert_eq!(
        encode_png(&pixels, 3, 2).unwrap_err(),
        EncodeError::DimensionMismatch
    );
}

#[test]
fn zero_dimensions_are_unsupported() {
    let none: Vec<Pixel> = vec![];
    assert_eq!(encode_png(&none, 0, 0).unwrap_err(), EncodeError::Unsupported);
}

#[test]
fn encoded_output_is_png_not_raw() {
    let pixels = sample_pixels();
    let png = encode_png(&pixels, 2, 2).unwrap();
    assert_ne!(png, raw_from_pixels(&pixels));
    assert_eq!(&png[..4], &[0x89, b'P', b'N', b'G']);
}
