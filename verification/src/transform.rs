//! The transform hook: the pipeline's seam for caller-supplied per-pixel
//! effects, applied after compositing. The pipeline assumes nothing of a hook
//! beyond length preservation; the default hook is the identity.

use vstd::prelude::*;
use crate::pixel::ImagePixels;

verus! {

/// A caller-supplied pure transform of a pixel buffer.
///
/// Length preservation law: a conforming hook returns a buffer of its
/// input's length; the pipeline is correct for every such hook.
pub trait TransformHook {
    fn apply(&self, pixels: ImagePixels) -> (r: ImagePixels)
        ensures
            r@.len() == pixels@.len(),
    ;
}

/// The default hook: returns an equivalent copy of its input.
pub struct IdentityHook;

impl TransformHook for IdentityHook {
    fn apply(&self, pixels: ImagePixels) -> (r: ImagePixels)
        ensures
            r@ == pixels@,
    {
        create_transform(&pixels)
    }
}

/// The default transform: an equivalent copy of the buffer.
pub fn create_transform(pixels: &ImagePixels) -> (r: ImagePixels)
    ensures
        r@ == pixels@,
{
    let mut out: Vec<crate::pixel::Pixel> = Vec::new();
    let mut i: usize = 0;
    while i < pixels.len()
        invariant
            i <= pixels@.len(),
            out@ =~= pixels@.take(i as int),
        decreases pixels@.len() - i,
    {
        out.push(pixels[i]);
        i = i + 1;
    }
    proof {
        assert(out@ =~= pixels@);
    }
    out
}

/// Runs the default transform over a buffer it takes by value.
pub fn apply_transform(pixels: ImagePixels) -> (r: ImagePixels)
    ensures
        r@ == pixels@,
{
    create_transform(&pixels)
}

} // verus!
