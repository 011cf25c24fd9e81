//! Alpha compositing of a pixel buffer against a uniform backdrop.
//!
//! Each pixel is blended independently with the standard "over" operator,
//! the backdrop's alpha serving as the mix weight. The arithmetic follows the
//! normalized form exactly: channels are taken as fractions over 255, blended
//! as a convex combination, and denormalized by truncation toward zero, so
//! channel `c` blends to `((255 - a2)*c + a2*c2) / 255` in integer division.

use vstd::prelude::*;
use crate::pixel::{ImagePixels, Pixel, opaque_white};

verus! {

/// One blended color channel: the convex combination of source channel `src`
/// and backdrop channel `back`, weighted by backdrop alpha `back_a`, with the
/// fractional part truncated.
pub open spec fn blend_channel(src: u8, back: u8, back_a: u8) -> u8 {
    ((((255 - back_a) * src + back_a * back) / 255) as u8)
}

/// The blended alpha: source alpha accumulates toward full opacity by the
/// backdrop alpha's share of the remaining transparency.
pub open spec fn blend_alpha(src_a: u8, back_a: u8) -> u8 {
    ((src_a + (back_a * (255 - src_a)) / 255) as u8)
}

/// One pixel composited against a uniform backdrop. A fully transparent
/// backdrop leaves the pixel unchanged.
pub open spec fn composite_pixel(p: Pixel, backdrop: Pixel) -> Pixel {
    if backdrop.a == 0 {
        p
    } else {
        Pixel {
            r: blend_channel(p.r, backdrop.r, backdrop.a),
            g: blend_channel(p.g, backdrop.g, backdrop.a),
            b: blend_channel(p.b, backdrop.b, backdrop.a),
            a: blend_alpha(p.a, backdrop.a),
        }
    }
}

/// A whole buffer composited pixel by pixel; no cross-pixel dependency.
pub open spec fn composite_spec(s: Seq<Pixel>, backdrop: Pixel) -> Seq<Pixel> {
    s.map_values(|p: Pixel| composite_pixel(p, backdrop))
}

/// The blended color channel, before truncation to `u8`, lies in `[0, 255]`.
pub proof fn lemma_blend_channel_bounded(src: u8, back: u8, back_a: u8)
    ensures
        0 <= ((255 - back_a) * src + back_a * back) / 255 <= 255,
{
    assert((255 - back_a) * src + back_a * back <= 255 * 255) by (nonlinear_arith)
        requires src <= 255 && back <= 255 && back_a <= 255;
    assert(0 <= (255 - back_a) * src + back_a * back) by (nonlinear_arith)
        requires back_a <= 255;
}

/// The blended alpha, before truncation to `u8`, lies in `[src_a, 255]`:
/// alpha only accumulates.
pub proof fn lemma_blend_alpha_bounded(src_a: u8, back_a: u8)
    ensures
        src_a <= src_a + (back_a * (255 - src_a)) / 255 <= 255,
{
    assert(0 <= back_a * (255 - src_a) <= 255 * (255 - src_a)) by (nonlinear_arith)
        requires back_a <= 255 && src_a <= 255;
    assert((back_a * (255 - src_a)) / 255 <= (255 * (255 - src_a)) / 255) by (nonlinear_arith)
        requires 0 <= back_a * (255 - src_a) <= 255 * (255 - src_a);
    assert((255 * (255 - src_a)) / 255 == 255 - src_a) by (nonlinear_arith)
        requires src_a <= 255;
}

/// One pixel of the compositor, executable form.
pub fn composite_pixel_exec(p: Pixel, backdrop: Pixel) -> (r: Pixel)
    ensures
        r == composite_pixel(p, backdrop),
{
    if backdrop.a == 0 {
        return p;
    }
    let ba: u32 = backdrop.a as u32;
    let inv: u32 = 255 - ba;
    proof {
        lemma_blend_channel_bounded(p.r, backdrop.r, backdrop.a);
        lemma_blend_channel_bounded(p.g, backdrop.g, backdrop.a);
        lemma_blend_channel_bounded(p.b, backdrop.b, backdrop.a);
        lemma_blend_alpha_bounded(p.a, backdrop.a);
        assert((255 - backdrop.a) * p.r + backdrop.a * backdrop.r <= 255 * 255) by (nonlinear_arith)
            requires p.r <= 255 && backdrop.r <= 255 && backdrop.a <= 255;
        assert((255 - backdrop.a) * p.g + backdrop.a * backdrop.g <= 255 * 255) by (nonlinear_arith)
            requires p.g <= 255 && backdrop.g <= 255 && backdrop.a <= 255;
        assert((255 - backdrop.a) * p.b + backdrop.a * backdrop.b <= 255 * 255) by (nonlinear_arith)
            requires p.b <= 255 && backdrop.b <= 255 && backdrop.a <= 255;
        assert(backdrop.a * (255 - p.a) <= 255 * 255) by (nonlinear_arith)
            requires p.a <= 255 && backdrop.a <= 255;
    }
    let r = ((inv * (p.r as u32) + ba * (backdrop.r as u32)) / 255) as u8;
    let g = ((inv * (p.g as u32) + ba * (backdrop.g as u32)) / 255) as u8;
    let b = ((inv * (p.b as u32) + ba * (backdrop.b as u32)) / 255) as u8;
    let a = ((p.a as u32) + (ba * (255 - (p.a as u32))) / 255) as u8;
    Pixel { r, g, b, a }
}

/// Composites every pixel of `src` against the uniform `backdrop`. The result
/// has the length of `src`.
pub fn composite(src: &ImagePixels, backdrop: Pixel) -> (r: ImagePixels)
    ensures
        r@ == composite_spec(src@, backdrop),
        r@.len() == src@.len(),
{
    let mut out: Vec<Pixel> = Vec::new();
    let mut i: usize = 0;
    while i < src.len()
        invariant
            i <= src@.len(),
            out@ =~= composite_spec(src@, backdrop).take(i as int),
        decreases src@.len() - i,
    {
        out.push(composite_pixel_exec(src[i], backdrop));
        i = i + 1;
    }
    proof {
        assert(out@ =~= composite_spec(src@, backdrop));
    }
    out
}

/// Identity backdrop law: compositing against any backdrop whose alpha is 0
/// returns the buffer unchanged.
pub proof fn lemma_identity_backdrop(s: Seq<Pixel>, backdrop: Pixel)
    requires
        backdrop.a == 0,
    ensures
        composite_spec(s, backdrop) == s,
{
    assert(composite_spec(s, backdrop) =~= s);
}

/// Opaque backdrop law: against a fully opaque backdrop, such as opaque
/// white, every output pixel's alpha is 255.
pub proof fn lemma_opaque_backdrop_alpha(s: Seq<Pixel>, backdrop: Pixel)
    requires
        backdrop.a == 255,
    ensures
        forall|i: int| 0 <= i < s.len() ==> #[trigger] composite_spec(s, backdrop)[i].a == 255,
{
    assert forall|i: int| 0 <= i < s.len() implies #[trigger] composite_spec(s, backdrop)[i].a
        == 255 by {
        let sa = s[i].a;
        assert((255 * (255 - sa)) / 255 == 255 - sa) by (nonlinear_arith)
            requires sa <= 255;
    }
}

/// Bounded output law: every channel of every composited pixel lies in
/// `[0, 255]`.
pub proof fn lemma_composite_bounded(s: Seq<Pixel>, backdrop: Pixel)
    ensures
        forall|i: int| 0 <= i < s.len() ==> {
            let q = #[trigger] composite_spec(s, backdrop)[i];
            0 <= q.r <= 255 && 0 <= q.g <= 255 && 0 <= q.b <= 255 && 0 <= q.a <= 255
        },
{
}

/// The original fixed-backdrop compositor: blends every pixel against opaque
/// white, then hands the buffer to the transform stage, which returns it
/// unchanged.
pub fn overlay_pixels(pixels: &ImagePixels) -> (r: ImagePixels)
    ensures
        r@ == composite_spec(pixels@, opaque_white()),
{
    let composited = composite(pixels, crate::pixel::white_pixel());
    crate::transform::apply_transform(composited)
}

} // verus!
