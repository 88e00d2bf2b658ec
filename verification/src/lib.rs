//! A software 3D rendering core: a pinhole-camera projection model and an
//! exact, integer-arithmetic triangle rasterizer with top-left fill-rule
//! tie-breaking and perspective-correct attribute interpolation.
//!
//! All geometry is carried on integer grids (sub-pixel fixed-point for the
//! rasterizer, caller-chosen integer units for world space), so every
//! coverage decision and every interpolated colour is an exact, fully
//! specified function of the inputs.

pub mod camera;
pub mod colour;
pub mod frame_buffer;
pub mod linear_algebra;
pub mod rasterisation;
