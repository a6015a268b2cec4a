//! A CPU-only scanline renderer for textured triangle meshes.
//!
//! Scene geometry is transformed through a camera pipeline (model, view,
//! projection, viewport), rasterized scanline by scanline into a
//! depth-buffered color image, and shaded from diffuse, normal and specular
//! maps.  All coordinates, depths and intensities are carried as 16.16
//! fixed-point integers, so every arithmetic step has an exact contract.

pub mod colors;
pub mod dimensional;
pub mod fixed;
pub mod matrix;
pub mod obj;
pub mod plane;
pub mod texture;
