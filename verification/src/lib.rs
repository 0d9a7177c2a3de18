//! A software triangle rasterizer, verified with Verus.
//!
//! The rasterization core works on exact rational numbers: screen-space
//! vertex coordinates are fixed-point values (numerator over a small power
//! of two), and every quantity derived from them during scan conversion
//! (edge slopes, attribute gradients, interpolated texture coordinates)
//! is an exact fraction of two 128-bit integers. All arithmetic is proved
//! free of overflow for inputs inside the documented coordinate bounds,
//! and the render contract pins down every pixel the rasterizer writes.
//!
//! Modules:
//! - [`rat`]: the exact fraction type and its ghost model.
//! - [`interpolant`]: vertex/attribute types, the gradient formulas, and
//!   per-row attribute stepping.
//! - [`edge`]: one triangle edge walked scanline by scanline.
//! - [`scanline`]: vertex transform, ordering, culling, and span filling.
//! - [`bitmap`]: texture storage and nearest-neighbor sampling.
//! - [`mesh_loader`]: mesh storage and deduplicating construction.
//! - [`render_system`]: the pixel-sink interfaces and an in-memory frame.
//! - [`display`]: an output surface's dimensions.

use vstd::prelude::*;

pub mod rat;
pub mod interpolant;
pub mod edge;
pub mod bitmap;
pub mod render_system;
pub mod mesh_loader;
pub mod scanline;
pub mod display;

pub use rat::Rat;

verus! {

} // verus!
