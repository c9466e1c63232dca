//! A software rasterizer on 16.16 fixed-point numbers.
//!
//! Vertices pass through a transformation matrix, are grouped into triangles,
//! scan-converted into fragments, shaded with coherent noise and written
//! into a depth-tested framebuffer. Every number the pipeline holds is an
//! integer, so each stage has an exact contract.

pub mod fixed;
pub mod vector;
pub mod color;
pub mod vertex;
pub mod fragment;
pub mod interpolate;
pub mod line;
pub mod triangle;
pub mod coverage;
pub mod framebuffer;
pub mod noise;
pub mod uniforms;
pub mod shader;
pub mod render;
pub mod camera;
