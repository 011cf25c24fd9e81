//! The pixel buffer: the common currency of all pipeline stages.
//!
//! A buffer is a flat, row-major sequence of pixels, each a quadruple of
//! 8-bit channels in `(R, G, B, A)` order. Index `i` of a buffer of width `w`
//! holds the pixel at coordinate `(i % w, i / w)`.

use vstd::prelude::*;

verus! {

/// One pixel: four 8-bit channels, red, green, blue, alpha, in that order.
#[derive(Clone, Copy, PartialEq, Eq, Structural, Debug)]
pub struct Pixel {
    pub r: u8,
    pub g: u8,
    pub b: u8,
    pub a: u8,
}

/// A flat, row-major pixel buffer.
pub type ImagePixels = Vec<Pixel>;

/// The fixed reference backdrop: opaque white.
pub open spec fn opaque_white() -> Pixel {
    Pixel { r: 255, g: 255, b: 255, a: 255 }
}

/// The opaque-white backdrop as a runtime value.
pub fn white_pixel() -> (p: Pixel)
    ensures
        p == opaque_white(),
{
    Pixel { r: 255, g: 255, b: 255, a: 255 }
}

/// Channel `k` of a pixel, in `(R, G, B, A)` order.
pub open spec fn channel_of(p: Pixel, k: int) -> u8 {
    if k == 0 {
        p.r
    } else if k == 1 {
        p.g
    } else if k == 2 {
        p.b
    } else {
        p.a
    }
}

/// The pixels held by a flat RGBA byte sequence, four bytes per pixel;
/// a trailing fragment of fewer than four bytes carries no pixel.
pub open spec fn pixels_of_bytes(raw: Seq<u8>) -> Seq<Pixel> {
    Seq::new(
        (raw.len() / 4) as nat,
        |i: int|
            Pixel { r: raw[4 * i], g: raw[4 * i + 1], b: raw[4 * i + 2], a: raw[4 * i + 3] },
    )
}

/// The flat RGBA byte sequence of a pixel sequence.
pub open spec fn bytes_of_pixels(pixels: Seq<Pixel>) -> Seq<u8> {
    Seq::new((pixels.len() * 4) as nat, |i: int| channel_of(pixels[i / 4], i % 4))
}

/// Groups a flat RGBA byte buffer into pixels, four bytes per pixel.
pub fn pixels_from_raw(raw: &Vec<u8>) -> (r: ImagePixels)
    ensures
        r@ == pixels_of_bytes(raw@),
{
    let n: usize = raw.len() / 4;
    let mut out: Vec<Pixel> = Vec::new();
    let mut i: usize = 0;
    while i < n
        invariant
            i <= n,
            n == raw@.len() / 4,
            raw@.len() <= usize::MAX,
            out@ =~= pixels_of_bytes(raw@).take(i as int),
        decreases n - i,
    {
        proof {
            assert(4 * ((raw@.len() / 4) as int) <= raw@.len()) by (nonlinear_arith);
            assert(4 * (i as int) + 3 < raw@.len());
        }
        let p = Pixel { r: raw[4 * i], g: raw[4 * i + 1], b: raw[4 * i + 2], a: raw[4 * i + 3] };
        out.push(p);
        i = i + 1;
    }
    proof {
        assert(out@ =~= pixels_of_bytes(raw@));
    }
    out
}

/// Flattens a pixel buffer into raw RGBA bytes, four per pixel.
pub fn raw_from_pixels(pixels: &ImagePixels) -> (r: Vec<u8>)
    ensures
        r@ == bytes_of_pixels(pixels@),
{
    let mut out: Vec<u8> = Vec::new();
    let mut i: usize = 0;
    while i < pixels.len()
        invariant
            i <= pixels@.len(),
            out@ =~= bytes_of_pixels(pixels@.take(i as int)),
        decreases pixels@.len() - i,
    {
        let p = pixels[i];
        out.push(p.r);
        out.push(p.g);
        out.push(p.b);
        out.push(p.a);
        i = i + 1;
        proof {
            assert(out@ =~= bytes_of_pixels(pixels@.take(i as int)));
        }
    }
    proof {
        assert(pixels@.take(pixels@.len() as int) =~= pixels@);
    }
    out
}

/// Flattening pixels to bytes and grouping them again gives the pixels back.
pub proof fn lemma_pixels_bytes_round_trip(pixels: Seq<Pixel>)
    ensures
        pixels_of_bytes(bytes_of_pixels(pixels)) == pixels,
{
    let bytes = bytes_of_pixels(pixels);
    assert(bytes.len() == pixels.len() * 4);
    assert forall|i: int| 0 <= i < pixels.len() implies pixels_of_bytes(bytes)[i]
        == pixels[i] by {
        assert((4 * i) / 4 == i && (4 * i) % 4 == 0) by (nonlinear_arith)
            requires 0 <= i;
        assert((4 * i + 1) / 4 == i && (4 * i + 1) % 4 == 1) by (nonlinear_arith)
            requires 0 <= i;
        assert((4 * i + 2) / 4 == i && (4 * i + 2) % 4 == 2) by (nonlinear_arith)
            requires 0 <= i;
        assert((4 * i + 3) / 4 == i && (4 * i + 3) % 4 == 3) by (nonlinear_arith)
            requires 0 <= i;
    }
    assert(pixels_of_bytes(bytes) =~= pixels);
}

/// Grouping a whole-pixel byte buffer and flattening it again gives the bytes back.
pub proof fn lemma_bytes_pixels_round_trip(raw: Seq<u8>)
    requires
        raw.len() % 4 == 0,
    ensures
        bytes_of_pixels(pixels_of_bytes(raw)) == raw,
{
    let pixels = pixels_of_bytes(raw);
    assert(pixels.len() * 4 == raw.len());
    assert forall|i: int| 0 <= i < raw.len() implies bytes_of_pixels(pixels)[i] == raw[i] by {
        let q = i / 4;
        let m = i % 4;
        assert(i == 4 * q + m && 0 <= m < 4) by (nonlinear_arith)
            requires 0 <= i && q == i / 4 && m == i % 4;
        assert(4 * q < 4 * pixels.len());
        assert(bytes_of_pixels(pixels)[i] == channel_of(pixels[q], m));
    }
    assert(bytes_of_pixels(pixels) =~= raw);
}

} // verus!
