use pixelpipe::compositor::{composite, composite_pixel_exec, overlay_pixels};
use pixelpipe::pixel::{white_pixel, Pixel};
use pixelpipe::transform::{apply_transform, create_transform};

#[test]
fn opaque_white_saturates_channels() {
    let p = Pixel { r: 100, g: 50, b: 200, a: 128 };
    let out = composite_pixel_exec(p, white_pixel());
    assert_eq!(out, Pixel { r: 255, g: 255, b: 255, a: 255 });
}

#[test]
fn half_alpha_backdrop_blends_black_to_gray() {
    let p = Pixel { r: 0, g: 0, b: 0, a: 255 };
    let backdrop = Pixel { r: 255, g: 255, b: 255, a: 128 };
    let out = composite_pixel_exec(p, backdrop);
    assert_eq!(out, Pixel { r: 128, g: 128, b: 128, a: 255 });
}

#[test]
fn transparent_backdrop_is_identity() {
    let pixels = vec![
        Pixel { r: 1, g: 2, b: 3, a: 4 },
        Pixel { r: 250, g: 0, b: 128, a: 255 },
        Pixel { r: 0, g: 0, b: 0, a: 0 },
    ];
    let backdrop = Pixel { r: 10, g: 20, b: 30, a: 0 };
    let out = composite(&pixels, backdrop);
    assert_eq!(out, pixels);
}

#[test]
fn opaque_backdrop_forces_full_alpha() {
    let pixels = vec![
        Pixel { r: 0, g: 0, b: 0, a: 0 },
        Pixel { r: 10, g: 20, b: 30, a: 40 },
        Pixel { r: 255, g: 255, b: 255, a: 254 },
    ];
    let out = composite(&pixels, white_pixel());
    for p in &out {
        assert_eq!(p.a, 255);
    }
}

#[test]
fn blending_truncates_toward_zero() {
    // (254 * 10 + 1 * 0) / 255 = 9.96..., which truncates to 9.
    let p = Pixel { r: 10, g: 0, b: 0, a: 0 };
    let backdrop = Pixel { r: 0, g: 0, b: 0, a: 1 };
    let out = composite_pixel_exec(p, backdrop);
    assert_eq!(out, Pixel { r: 9, g: 0, b: 0, a: 1 });
}

#[test]
fn composite_preserves_length() {
    let pixels = vec![Pixel { r: 9, g: 8, b: 7, a: 6 }; 17];
    let out = composite(&pixels, Pixel { r: 5, g: 5, b: 5, a: 5 });
    assert_eq!(out.len(), pixels.len());
}

#[test]
fn overlay_composites_against_white() {
    let pixels = vec![
        Pixel { r: 100, g: 50, b: 200, a: 128 },
        Pixel { r: 7, g: 7, b: 7, a: 0 },
    ];
    let out = overlay_pixels(&pixels);
    assert_eq!(out.len(), 2);
    assert_eq!(out[0], Pixel { r: 255, g: 255, b: 255, a: 255 });
    assert_eq!(out[1], Pixel { r: 255, g: 255, b: 255, a: 255 });
}

#[test]
fn default_transform_copies_buffer() {
    let pixels = vec![
        Pixel { r: 3, g: 1, b: 4, a: 1 },
        Pixel { r: 5, g: 9, b: 2, a: 6 },
    ];
    assert_eq!(create_transform(&pixels), pixels);
    assert_eq!(apply_transform(pixels.clone()), pixels);
}
