//! Decision core of a Whitted-style ray tracer.
//!
//! Scene quantities are single-precision values that the caller computes; they
//! enter this library as IEEE 754 bit patterns (`Ieee32`), whose ordering,
//! saturating conversions and sign changes are proved against an exact integer
//! model of the encoding. On top of that model stand the per-primitive hit
//! rules, the nearest-hit and shadow queries, the refraction and recursion
//! rules of the shader, the materials, and the framebuffer and environment map
//! access through `image`.

pub mod ieee32;
pub mod color;
pub mod geometry;
pub mod scene;
pub mod material;
pub mod shading;
pub mod framebuffer;
pub mod mesh;
