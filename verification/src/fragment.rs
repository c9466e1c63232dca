//! Fragments: what the rasterizer knows about one pixel of one primitive.

use vstd::prelude::*;
use crate::color::Color;
use crate::vector::{Vec2, Vec3};

verus! {

/// The column and row of a pixel. Pixel `(x, y)` covers the square from
/// `(x, y)` to `(x + 1, y + 1)`; its centre is `(x + 1/2, y + 1/2)`.
#[derive(Clone, Copy, Debug, PartialEq, Eq, Structural)]
pub struct Pixel {
    pub x: i32,
    pub y: i32,
}

/// A candidate for one pixel of the picture, with the attributes of the
/// primitive interpolated at that pixel.
#[derive(Clone, Copy, Debug, PartialEq, Eq, Structural)]
pub struct Fragment {
    pub position: Pixel,
    pub color: Color,
    /// Screen-space depth; smaller is nearer.
    pub depth: i32,
    /// Interpolated normal: the weighted sum of the corners' normals.
    pub normal: Vec3,
    /// How much light falls on the surface, from zero upwards: taken from
    /// the normal scaled to length one.
    pub intensity: i32,
    /// Interpolated object-space position.
    pub vertex_position: Vec3,
    pub tex_coords: Vec2,
}

impl Fragment {
    /// The fragment with the given fields.
    pub fn new(
        position: Pixel,
        color: Color,
        depth: i32,
        normal: Vec3,
        intensity: i32,
        vertex_position: Vec3,
        tex_coords: Vec2,
    ) -> (f: Fragment)
        ensures
            f == (Fragment {
                position,
                color,
                depth,
                normal,
                intensity,
                vertex_position,
                tex_coords,
            }),
    {
        Fragment { position, color, depth, normal, intensity, vertex_position, tex_coords }
    }
}

} // verus!
