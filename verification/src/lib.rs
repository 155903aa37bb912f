//! Verified core of a Whitted-style ray tracer: the 8-bit RGBA rasters it
//! reads (textures) and writes (the rendered image), and the integer
//! arithmetic of texture-coordinate wrapping.
//!
//! The floating-point geometry and shading live outside the verified
//! library; they exchange plain pixel values with the types here.

pub mod pixel;
pub mod raster;
pub mod texture;
pub mod trace;
