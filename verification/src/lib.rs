//! A small ray caster: analytic spheres are tested against one orthographic
//! ray per pixel and rasterized into a bounds-checked pixel buffer.
//!
//! All geometry is exact integer arithmetic over bounded coordinates, so the
//! ray–sphere intersection test and the rasterization loop are verified
//! end to end. Encoding the finished buffer to an image file is left to the
//! caller.

pub mod backdrop;
pub mod canvas;
pub mod color;
pub mod geometry;
pub mod laws;
pub mod math;
pub mod render;
pub mod scene;
pub mod sphere;
