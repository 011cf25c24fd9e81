//! A verified image-pipeline library: a flat RGBA pixel buffer is decoded from
//! image bytes, alpha-composited against a uniform backdrop, run through a
//! caller-supplied transform hook, and re-encoded; beside it stands an
//! independent line-oriented row filter keyed on a substring match in one field.

pub mod codec;
pub mod compositor;
pub mod pipeline;
pub mod pixel;
pub mod rowfilter;
pub mod transform;
