//! The two programmable stages: what happens to a vertex before
//! rasterization, and to a fragment after it.

use vstd::prelude::*;
use crate::color::{lerp_spec, scale_spec, Color};
use crate::fixed::{clamp_spec, div_floor, fits_i32};
use crate::fragment::Fragment;
use crate::noise::{simplex_noise_bits, unit_fixed_of_bits};
use crate::uniforms::{identity_matrix, Uniforms};
use crate::vector::{lemma_product_bound, row_product, Mat4, Vec3, Vec4};
use crate::vertex::Vertex;

verus! {

/// The point `p` in homogeneous coordinates.
pub open spec fn homogeneous(p: Vec3) -> Vec4 {
    Vec4 { x: p.x, y: p.y, z: p.z, w: 65536 }
}

/// The quotient `n / w` of two numbers of one scale as a fixed-point
/// number, rounded down; `w` is not zero.
pub open spec fn perspective_quotient(n: int, w: int) -> int {
    if w > 0 {
        (n * 65536) / w
    } else {
        ((-n) * 65536) / (-w)
    }
}

/// Where the matrix `m` takes the point `p`: the product of `m` and `p` in
/// homogeneous coordinates, each of `x`, `y` and `z` divided by `w`. There
/// is no such place where `w` is zero, or where a coordinate is too large
/// for a fixed-point number.
pub open spec fn transformed_position_spec(m: Mat4, p: Vec3) -> Option<Vec3> {
    let h = homogeneous(p);
    let w = row_product(m.w, h);
    let x = perspective_quotient(row_product(m.x, h), w);
    let y = perspective_quotient(row_product(m.y, h), w);
    let z = perspective_quotient(row_product(m.z, h), w);
    if w != 0 && fits_i32(x) && fits_i32(y) && fits_i32(z) {
        Some(Vec3 { x: x as i32, y: y as i32, z: z as i32 })
    } else {
        None
    }
}

/// One component of a rotated direction: the first three entries of `row`
/// times `n`, rounded down.
pub open spec fn rotated_component(row: Vec4, n: Vec3) -> int {
    (row.x * n.x + row.y * n.y + row.z * n.z) / 65536
}

/// Where the matrix `m` takes the direction `n`: only the upper left three
/// rows and columns of `m` apply, so that a direction is turned but neither
/// moved nor projected. There is no result where a component is too large
/// for a fixed-point number.
pub open spec fn transformed_normal_spec(m: Mat4, n: Vec3) -> Option<Vec3> {
    let x = rotated_component(m.x, n);
    let y = rotated_component(m.y, n);
    let z = rotated_component(m.z, n);
    if fits_i32(x) && fits_i32(y) && fits_i32(z) {
        Some(Vec3 { x: x as i32, y: y as i32, z: z as i32 })
    } else {
        None
    }
}

/// The vertex `v` after the vertex stage: its position taken to the screen
/// by `transformation`, its normal turned by `model`, and the rest as it
/// was. A vertex that has no place on the screen, or no turned normal,
/// yields nothing.
pub open spec fn vertex_shader_spec(v: Vertex, transformation: Mat4, model: Mat4) -> Option<
    Vertex,
> {
    match (
        transformed_position_spec(transformation, v.position),
        transformed_normal_spec(model, v.normal),
    ) {
        (Some(position), Some(normal)) => Some(
            Vertex { transformed_position: position, transformed_normal: normal, ..v },
        ),
        _ => None,
    }
}

fn times_row(row: &Vec4, v: &Vec4) -> (r: i128)
    ensures
        r == row_product(*row, *v),
        -0x1_0000_0000_0000_0000 <= r <= 0x1_0000_0000_0000_0000,
{
    proof {
        lemma_product_bound(row.x as int, v.x as int);
        lemma_product_bound(row.y as int, v.y as int);
        lemma_product_bound(row.z as int, v.z as int);
        lemma_product_bound(row.w as int, v.w as int);
    }
    (row.x as i128) * (v.x as i128) + (row.y as i128) * (v.y as i128) + (row.z as i128) * (
    v.z as i128) + (row.w as i128) * (v.w as i128)
}

fn divide_by_w(n: i128, w: i128) -> (q: i128)
    requires
        w != 0,
        -0x1_0000_0000_0000_0000 <= n <= 0x1_0000_0000_0000_0000,
        -0x1_0000_0000_0000_0000 <= w <= 0x1_0000_0000_0000_0000,
    ensures
        q == perspective_quotient(n as int, w as int),
{
    if w > 0 {
        div_floor(n * 65536, w)
    } else {
        div_floor((-n) * 65536, -w)
    }
}

fn narrow(x: i128, y: i128, z: i128) -> (v: Option<Vec3>)
    ensures
        v == if fits_i32(x as int) && fits_i32(y as int) && fits_i32(z as int) {
            Some(Vec3 { x: x as i32, y: y as i32, z: z as i32 })
        } else {
            None
        },
{
    if x < i32::MIN as i128 || x > i32::MAX as i128 || y < i32::MIN as i128 || y > i32::MAX as i128
        || z < i32::MIN as i128 || z > i32::MAX as i128 {
        None
    } else {
        Some(Vec3 { x: x as i32, y: y as i32, z: z as i32 })
    }
}

/// Where the matrix `m` takes the point `p`, if anywhere.
pub fn transform_position(m: &Mat4, p: &Vec3) -> (r: Option<Vec3>)
    ensures
        r == transformed_position_spec(*m, *p),
{
    let h: Vec4 = Vec4 { x: p.x, y: p.y, z: p.z, w: 65536 };
    let w: i128 = times_row(&m.w, &h);
    if w == 0 {
        return None;
    }
    let x: i128 = divide_by_w(times_row(&m.x, &h), w);
    let y: i128 = divide_by_w(times_row(&m.y, &h), w);
    let z: i128 = divide_by_w(times_row(&m.z, &h), w);
    narrow(x, y, z)
}

fn rotate_component(row: &Vec4, n: &Vec3) -> (r: i128)
    ensures
        r == rotated_component(*row, *n),
{
    proof {
        lemma_product_bound(row.x as int, n.x as int);
        lemma_product_bound(row.y as int, n.y as int);
        lemma_product_bound(row.z as int, n.z as int);
    }
    let sum: i128 = (row.x as i128) * (n.x as i128) + (row.y as i128) * (n.y as i128) + (
    row.z as i128) * (n.z as i128);
    div_floor(sum, 65536)
}

/// Where the matrix `m` takes the direction `n`, if anywhere.
pub fn transform_normal(m: &Mat4, n: &Vec3) -> (r: Option<Vec3>)
    ensures
        r == transformed_normal_spec(*m, *n),
{
    let x: i128 = rotate_component(&m.x, n);
    let y: i128 = rotate_component(&m.y, n);
    let z: i128 = rotate_component(&m.z, n);
    narrow(x, y, z)
}

/// The vertex stage: takes the position of `vertex` to the screen with
/// `uniforms.transformation_matrix`, dividing by the homogeneous `w`, and
/// turns its normal with `uniforms.model_matrix`. The result depends on
/// the vertex and the two matrices alone. A vertex whose `w` is zero, or
/// whose result is too large for a fixed-point number, yields `None`.
pub fn vertex_shader(vertex: &Vertex, uniforms: &Uniforms) -> (r: Option<Vertex>)
    ensures
        r == vertex_shader_spec(*vertex, uniforms.transformation_matrix, uniforms.model_matrix),
{
    let position: Option<Vec3> = transform_position(
        &uniforms.transformation_matrix,
        &vertex.position,
    );
    let normal: Option<Vec3> = transform_normal(&uniforms.model_matrix, &vertex.normal);
    match (position, normal) {
        (Some(p), Some(n)) => Some(
            Vertex {
                position: vertex.position,
                normal: vertex.normal,
                tex_coords: vertex.tex_coords,
                transformed_position: p,
                transformed_normal: n,
            },
        ),
        _ => None,
    }
}

/// The vertex stage is a function: equal vertices and equal matrices give
/// equal results.
pub proof fn lemma_vertex_shader_deterministic(
    vertex: Vertex,
    transformation: Mat4,
    model: Mat4,
    other_vertex: Vertex,
    other_transformation: Mat4,
    other_model: Mat4,
)
    requires
        vertex == other_vertex,
        transformation == other_transformation,
        model == other_model,
    ensures
        vertex_shader_spec(vertex, transformation, model) == vertex_shader_spec(
            other_vertex,
            other_transformation,
            other_model,
        ),
{
}

/// The identity matrix leaves every vertex where it is: positions and
/// normals come through the vertex stage unchanged.
pub proof fn lemma_identity_transforms_nothing(v: Vertex)
    ensures
        vertex_shader_spec(v, identity_matrix(), identity_matrix()) == Some(
            Vertex { transformed_position: v.position, transformed_normal: v.normal, ..v },
        ),
{
    let m = identity_matrix();
    let h = homogeneous(v.position);
    assert(row_product(m.w, h) == 0x1_0000_0000);
    lemma_identity_quotient(v.position.x as int);
    lemma_identity_quotient(v.position.y as int);
    lemma_identity_quotient(v.position.z as int);
    assert(row_product(m.x, h) == 65536 * v.position.x);
    assert(row_product(m.y, h) == 65536 * v.position.y);
    assert(row_product(m.z, h) == 65536 * v.position.z);
    assert(rotated_component(m.x, v.normal) == v.normal.x);
    assert(rotated_component(m.y, v.normal) == v.normal.y);
    assert(rotated_component(m.z, v.normal) == v.normal.z);
}

proof fn lemma_identity_quotient(c: int)
    ensures
        perspective_quotient(65536 * c, 0x1_0000_0000) == c,
{
    vstd::arithmetic::div_mod::lemma_fundamental_div_mod_converse(
        0x1_0000_0000 * c,
        0x1_0000_0000,
        c,
        0,
    );
}

/// How many steps of the noise grid one unit of the object's space is.
pub const NOISE_SCALE: i32 = 100;

/// After how many frames the drift of the pattern starts over.
pub const NOISE_PERIOD: u32 = 32768;

/// A coordinate of the object's space on the noise grid, before the drift
/// is added.
pub open spec fn noise_steps(raw: int) -> int {
    (raw * 100) / 65536
}

/// The point of the noise grid at which a fragment at `position` is
/// sampled in frame `time`: the position on the grid, moved along `x` by
/// one step per frame, each coordinate limited to the grid.
pub open spec fn noise_point(position: Vec3, time: u32) -> (int, int, int) {
    (
        clamp_spec(noise_steps(position.x as int) + time % 32768, -32768, 32767),
        clamp_spec(noise_steps(position.y as int), -32768, 32767),
        clamp_spec(noise_steps(position.z as int), -32768, 32767),
    )
}

/// The colour of the lowest noise.
pub open spec fn ramp_low() -> Color {
    Color { r: 20, g: 40, b: 110 }
}

/// The colour of the highest noise.
pub open spec fn ramp_high() -> Color {
    Color { r: 250, g: 230, b: 160 }
}

/// How far along the colour ramp a noise level lies: minus one is its
/// start, one its end.
pub open spec fn ramp_position(level: int) -> int {
    (level + 65536) / 2
}

/// The colour of a fragment for a noise level and a light intensity: the
/// colour of the ramp at the level, each channel scaled by the intensity.
pub open spec fn shade_spec(level: int, intensity: int) -> Color {
    scale_spec(lerp_spec(ramp_low(), ramp_high(), ramp_position(level)), intensity)
}

/// The colour that the fragment stage gives a fragment with the given
/// interpolated position and light intensity, in frame `time`, with noise
/// of the given seed.
pub open spec fn shader_color(position: Vec3, intensity: int, time: u32, seed: int) -> Color {
    let (x, y, z) = noise_point(position, time);
    shade_spec(unit_fixed_of_bits(simplex_noise_bits(seed, x, y, z)), intensity)
}

fn to_grid(v: i64) -> (r: i16)
    ensures
        r == clamp_spec(v as int, -32768, 32767),
{
    if v < -32768 {
        -32768
    } else if v > 32767 {
        32767
    } else {
        v as i16
    }
}

fn grid_steps(raw: i32) -> (r: i64)
    ensures
        r == noise_steps(raw as int),
        -0x1_0000_0000 <= r <= 0x1_0000_0000,
{
    let q: i128 = div_floor(raw as i128 * 100, 65536);
    q as i64
}

/// The colour for a noise level and a light intensity, both fixed-point
/// numbers.
pub fn shade(level: i32, intensity: i32) -> (c: Color)
    ensures
        c == shade_spec(level as int, intensity as int),
{
    let t: i32 = div_floor(level as i128 + 65536, 2) as i32;
    let low: Color = Color::new(20, 40, 110);
    let high: Color = Color::new(250, 230, 160);
    low.lerp(&high, t).scale(intensity)
}

/// The fragment stage: samples the noise of `uniforms` at the point that
/// the fragment's interpolated position and the frame's number give, maps
/// the level to the colour ramp and scales the colour by the fragment's
/// light intensity. Only the colour of the fragment changes.
pub fn noise_based_fragment_shader(fragment: &Fragment, uniforms: &Uniforms) -> (shaded: Fragment)
    ensures
        shaded == (Fragment {
            color: shader_color(
                fragment.vertex_position,
                fragment.intensity as int,
                uniforms.time,
                uniforms.noise.seed(),
            ),
            ..*fragment
        }),
{
    let drift: i64 = (uniforms.time % 32768) as i64;
    let x: i16 = to_grid(grid_steps(fragment.vertex_position.x) + drift);
    let y: i16 = to_grid(grid_steps(fragment.vertex_position.y));
    let z: i16 = to_grid(grid_steps(fragment.vertex_position.z));
    let level: i32 = uniforms.noise.sample(x, y, z);
    let color: Color = shade(level, fragment.intensity);
    Fragment {
        position: fragment.position,
        color,
        depth: fragment.depth,
        normal: fragment.normal,
        intensity: fragment.intensity,
        vertex_position: fragment.vertex_position,
        tex_coords: fragment.tex_coords,
    }
}

/// The fragment stage is a function of the interpolated position, the
/// light intensity, the frame's number and the seed of the noise: where
/// these agree, so does the colour.
pub proof fn lemma_fragment_shader_deterministic(
    position: Vec3,
    intensity: int,
    time: u32,
    seed: int,
    other_position: Vec3,
    other_intensity: int,
    other_time: u32,
    other_seed: int,
)
    requires
        position == other_position,
        intensity == other_intensity,
        time == other_time,
        seed == other_seed,
    ensures
        shader_color(position, intensity, time, seed) == shader_color(
            other_position,
            other_intensity,
            other_time,
            other_seed,
        ),
{
}

/// More light never darkens a fragment, and without light it is black,
/// whatever the noise.
pub proof fn lemma_intensity_modulates(level: int, dim: int, bright: int)
    requires
        dim <= bright,
    ensures
        shade_spec(level, dim).r <= shade_spec(level, bright).r,
        shade_spec(level, dim).g <= shade_spec(level, bright).g,
        shade_spec(level, dim).b <= shade_spec(level, bright).b,
        dim <= 0 ==> shade_spec(level, dim) == (Color { r: 0, g: 0, b: 0 }),
        shade_spec(level, 65536) == lerp_spec(ramp_low(), ramp_high(), ramp_position(level)),
{
    let base = lerp_spec(ramp_low(), ramp_high(), ramp_position(level));
    crate::color::lemma_lerp_channel_between(20, 250, ramp_position(level));
    crate::color::lemma_lerp_channel_between(40, 230, ramp_position(level));
    crate::color::lemma_lerp_channel_between(110, 160, ramp_position(level));
    crate::color::lemma_scale_channel_monotonic(base.r as int, dim, bright);
    crate::color::lemma_scale_channel_monotonic(base.g as int, dim, bright);
    crate::color::lemma_scale_channel_monotonic(base.b as int, dim, bright);
}

} // verus!
