//! The vertices of a mesh.

use vstd::prelude::*;
use crate::vector::{Vec2, Vec3};

verus! {

/// One corner of a triangle. The first three fields are given by the mesh
/// and stay as they are; the transformed fields are recomputed for every
/// frame.
#[derive(Clone, Copy, Debug, PartialEq, Eq, Structural)]
pub struct Vertex {
    /// Position in the object's own space.
    pub position: Vec3,
    /// Surface normal in the object's own space.
    pub normal: Vec3,
    /// Texture coordinates.
    pub tex_coords: Vec2,
    /// Position on the screen: `x` and `y` in pixels, `z` the depth.
    pub transformed_position: Vec3,
    /// Surface normal after the model matrix was applied.
    pub transformed_normal: Vec3,
}

impl Vertex {
    /// A vertex as a mesh gives it: the transformed fields start as copies
    /// of the object-space ones.
    pub fn new(position: Vec3, normal: Vec3, tex_coords: Vec2) -> (v: Vertex)
        ensures
            v == (Vertex {
                position,
                normal,
                tex_coords,
                transformed_position: position,
                transformed_normal: normal,
            }),
    {
        Vertex {
            position,
            normal,
            tex_coords,
            transformed_position: position,
            transformed_normal: normal,
        }
    }
}

} // verus!
