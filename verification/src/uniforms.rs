//! What every shader call of one frame shares.

use vstd::prelude::*;
use crate::fixed::div_floor;
use crate::noise::NoiseSource;
use crate::vector::{Mat4, Vec4};

verus! {

/// The values that stay the same while one frame is drawn: the matrices,
/// the number of the frame, and the noise source. It is built anew for
/// every frame and only read afterwards.
#[derive(Clone, Copy)]
pub struct Uniforms<'a> {
    /// From the object's space to the world.
    pub model_matrix: Mat4,
    /// From the world to the camera's space.
    pub view_matrix: Mat4,
    /// From the camera's space to clip space.
    pub projection_matrix: Mat4,
    /// From clip space to pixels.
    pub viewport_matrix: Mat4,
    /// All four at once: viewport times projection times view times model.
    pub transformation_matrix: Mat4,
    /// The number of the frame, counted from the start.
    pub time: u32,
    /// The noise that fragments are shaded with.
    pub noise: &'a NoiseSource,
}

/// The matrix that changes nothing.
pub open spec fn identity_matrix() -> Mat4 {
    Mat4 {
        x: Vec4 { x: 65536, y: 0, z: 0, w: 0 },
        y: Vec4 { x: 0, y: 65536, z: 0, w: 0 },
        z: Vec4 { x: 0, y: 0, z: 65536, w: 0 },
        w: Vec4 { x: 0, y: 0, z: 0, w: 65536 },
    }
}

/// The matrix that maps the square from minus one to one onto a screen of
/// the given width and height, with `y` pointing down the screen.
pub open spec fn viewport_matrix_spec(width: int, height: int) -> Mat4 {
    Mat4 {
        x: Vec4 { x: (width / 2) as i32, y: 0, z: 0, w: (width / 2) as i32 },
        y: Vec4 { x: 0, y: ((-height) / 2) as i32, z: 0, w: (height / 2) as i32 },
        z: Vec4 { x: 0, y: 0, z: 65536, w: 0 },
        w: Vec4 { x: 0, y: 0, z: 0, w: 65536 },
    }
}

/// The model matrix of the scene: the mesh stands where it was made.
pub fn create_model_matrix() -> (m: Mat4)
    ensures
        m == identity_matrix(),
{
    Mat4 {
        x: Vec4 { x: 65536, y: 0, z: 0, w: 0 },
        y: Vec4 { x: 0, y: 65536, z: 0, w: 0 },
        z: Vec4 { x: 0, y: 0, z: 65536, w: 0 },
        w: Vec4 { x: 0, y: 0, z: 0, w: 65536 },
    }
}

/// The viewport matrix for a screen of the given width and height, both
/// fixed-point numbers of pixels.
pub fn create_viewport_matrix(width: i32, height: i32) -> (m: Mat4)
    ensures
        m == viewport_matrix_spec(width as int, height as int),
{
    let half_width: i32 = div_floor(width as i128, 2) as i32;
    let half_height: i32 = div_floor(height as i128, 2) as i32;
    let minus_half_height: i32 = div_floor(-(height as i128), 2) as i32;
    Mat4 {
        x: Vec4 { x: half_width, y: 0, z: 0, w: half_width },
        y: Vec4 { x: 0, y: minus_half_height, z: 0, w: half_height },
        z: Vec4 { x: 0, y: 0, z: 65536, w: 0 },
        w: Vec4 { x: 0, y: 0, z: 0, w: 65536 },
    }
}

} // verus!
