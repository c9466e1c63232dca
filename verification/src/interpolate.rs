//! Barycentric weights and the interpolation of vertex attributes.
//!
//! A point of a primitive is given by three weights that are not negative
//! and sum to one. They are held exactly, as three numerators over one
//! positive denominator, so that no rounding happens before the final
//! division.

use vstd::prelude::*;
use crate::color::Color;
use crate::fixed::{clamp_spec, div_floor, fits_i32};
use crate::fragment::{Fragment, Pixel};
use crate::vector::{dot, dot_spec, normalize_spec, Vec2, Vec3};
use crate::vertex::Vertex;

verus! {

/// The largest denominator that weights may have: 2^66.
pub const MAX_TOTAL: i128 = 0x4_0000_0000_0000_0000;

/// Three weights `w1 / total`, `w2 / total` and `w3 / total`.
#[derive(Clone, Copy, Debug, PartialEq, Eq, Structural)]
pub struct Weights {
    pub w1: i128,
    pub w2: i128,
    pub w3: i128,
    pub total: i128,
}

/// Whether three numerators over `total` are weights: none is negative and
/// they sum to the denominator.
pub open spec fn valid_weights(n1: int, n2: int, n3: int, total: int) -> bool {
    &&& n1 >= 0
    &&& n2 >= 0
    &&& n3 >= 0
    &&& n1 + n2 + n3 == total
    &&& 0 < total <= MAX_TOTAL
}

/// The weighted sum `(a1 * n1 + a2 * n2 + a3 * n3) / total`, rounded down.
pub open spec fn interp(a1: int, a2: int, a3: int, n1: int, n2: int, n3: int, total: int) -> int {
    (a1 * n1 + a2 * n2 + a3 * n3) / total
}

/// `interp` on each component of three vectors.
pub open spec fn interp_vec3(
    u1: Vec3,
    u2: Vec3,
    u3: Vec3,
    n1: int,
    n2: int,
    n3: int,
    total: int,
) -> Vec3 {
    Vec3 {
        x: interp(u1.x as int, u2.x as int, u3.x as int, n1, n2, n3, total) as i32,
        y: interp(u1.y as int, u2.y as int, u3.y as int, n1, n2, n3, total) as i32,
        z: interp(u1.z as int, u2.z as int, u3.z as int, n1, n2, n3, total) as i32,
    }
}

/// `interp` on each component of three vectors.
pub open spec fn interp_vec2(
    u1: Vec2,
    u2: Vec2,
    u3: Vec2,
    n1: int,
    n2: int,
    n3: int,
    total: int,
) -> Vec2 {
    Vec2 {
        x: interp(u1.x as int, u2.x as int, u3.x as int, n1, n2, n3, total) as i32,
        y: interp(u1.y as int, u2.y as int, u3.y as int, n1, n2, n3, total) as i32,
    }
}

/// The direction towards the light: two units along the `z` axis.
pub open spec fn light_direction_spec() -> Vec3 {
    Vec3 { x: 0, y: 0, z: 131072 }
}

/// The light that falls on a surface with the given normal of length one:
/// the dot product of the normal and the light direction, or zero where the
/// surface faces away.
pub open spec fn intensity_spec(normal: Vec3) -> int {
    clamp_spec(dot_spec(normal, light_direction_spec()), 0, i32::MAX as int)
}

/// The fragment at pixel `p` of the primitive with corners `v1`, `v2` and
/// `v3`, for the weights `n1 / total`, `n2 / total` and `n3 / total` of the
/// three corners: every attribute, the normal too, is the weighted sum of
/// the corners' attributes. The light intensity is taken from the normal
/// scaled to length one, and the colour is white until a shader replaces
/// it.
pub open spec fn shade_point(
    v1: Vertex,
    v2: Vertex,
    v3: Vertex,
    p: Pixel,
    n1: int,
    n2: int,
    n3: int,
    total: int,
) -> Fragment {
    let normal = interp_vec3(
        v1.transformed_normal,
        v2.transformed_normal,
        v3.transformed_normal,
        n1,
        n2,
        n3,
        total,
    );
    Fragment {
        position: p,
        color: Color { r: 255, g: 255, b: 255 },
        depth: interp(
            v1.transformed_position.z as int,
            v2.transformed_position.z as int,
            v3.transformed_position.z as int,
            n1,
            n2,
            n3,
            total,
        ) as i32,
        normal,
        intensity: intensity_spec(normalize_spec(normal)) as i32,
        vertex_position: interp_vec3(v1.position, v2.position, v3.position, n1, n2, n3, total),
        tex_coords: interp_vec2(v1.tex_coords, v2.tex_coords, v3.tex_coords, n1, n2, n3, total),
    }
}

/// The smallest of three numbers.
pub open spec fn min3(a: int, b: int, c: int) -> int {
    if a <= b && a <= c {
        a
    } else if b <= c {
        b
    } else {
        c
    }
}

/// The largest of three numbers.
pub open spec fn max3(a: int, b: int, c: int) -> int {
    if a >= b && a >= c {
        a
    } else if b >= c {
        b
    } else {
        c
    }
}

/// A weighted sum of three values lies between the smallest and the largest
/// of them, scaled by the denominator.
pub proof fn lemma_weighted_sum_between(
    a1: int,
    a2: int,
    a3: int,
    n1: int,
    n2: int,
    n3: int,
    total: int,
)
    requires
        n1 >= 0,
        n2 >= 0,
        n3 >= 0,
        n1 + n2 + n3 == total,
    ensures
        min3(a1, a2, a3) * total <= a1 * n1 + a2 * n2 + a3 * n3 <= max3(a1, a2, a3) * total,
{
    let lo = min3(a1, a2, a3);
    let hi = max3(a1, a2, a3);
    assert(lo * n1 <= a1 * n1 <= hi * n1) by (nonlinear_arith)
        requires
            lo <= a1 <= hi,
            n1 >= 0,
    ;
    assert(lo * n2 <= a2 * n2 <= hi * n2) by (nonlinear_arith)
        requires
            lo <= a2 <= hi,
            n2 >= 0,
    ;
    assert(lo * n3 <= a3 * n3 <= hi * n3) by (nonlinear_arith)
        requires
            lo <= a3 <= hi,
            n3 >= 0,
    ;
    assert(lo * total == lo * n1 + lo * n2 + lo * n3) by (nonlinear_arith)
        requires
            n1 + n2 + n3 == total,
    ;
    assert(hi * total == hi * n1 + hi * n2 + hi * n3) by (nonlinear_arith)
        requires
            n1 + n2 + n3 == total,
    ;
}

/// An interpolated attribute is the weighted sum of the three corners'
/// attributes, rounded down to the next fixed-point number, and lies
/// between the smallest and the largest of them.
pub proof fn lemma_interp_is_weighted_sum(
    a1: int,
    a2: int,
    a3: int,
    n1: int,
    n2: int,
    n3: int,
    total: int,
)
    requires
        n1 >= 0,
        n2 >= 0,
        n3 >= 0,
        n1 + n2 + n3 == total,
        total > 0,
    ensures
        interp(a1, a2, a3, n1, n2, n3, total) * total <= a1 * n1 + a2 * n2 + a3 * n3,
        a1 * n1 + a2 * n2 + a3 * n3 < (interp(a1, a2, a3, n1, n2, n3, total) + 1) * total,
        min3(a1, a2, a3) <= interp(a1, a2, a3, n1, n2, n3, total) <= max3(a1, a2, a3),
        a1 == a2 && a2 == a3 ==> interp(a1, a2, a3, n1, n2, n3, total) == a1,
{
    let s = a1 * n1 + a2 * n2 + a3 * n3;
    let q = s / total;
    let lo = min3(a1, a2, a3);
    let hi = max3(a1, a2, a3);
    lemma_weighted_sum_between(a1, a2, a3, n1, n2, n3, total);
    vstd::arithmetic::div_mod::lemma_fundamental_div_mod(s, total);
    vstd::arithmetic::div_mod::lemma_mod_bound(s, total);
    assert(q * total == total * q) by (nonlinear_arith);
    assert((q + 1) * total == total * q + total) by (nonlinear_arith);
    assert(lo <= q) by (nonlinear_arith)
        requires
            lo * total <= s,
            s < (q + 1) * total,
            total > 0,
    ;
    assert(q <= hi) by (nonlinear_arith)
        requires
            s <= hi * total,
            q * total <= s,
            total > 0,
    ;
}

impl Weights {
    /// Whether the three numerators are weights.
    pub open spec fn valid(self) -> bool {
        valid_weights(self.w1 as int, self.w2 as int, self.w3 as int, self.total as int)
    }

    /// The weights with the given numerators over their sum, where the
    /// three can be weights at all: none is negative, and their sum is
    /// positive and at most `MAX_TOTAL`.
    pub fn new(w1: i128, w2: i128, w3: i128) -> (w: Option<Weights>)
        ensures
            w.is_some() <==> w1 >= 0 && w2 >= 0 && w3 >= 0 && 0 < w1 + w2 + w3 <= MAX_TOTAL,
            w matches Some(v) ==> v.valid() && v.w1 == w1 && v.w2 == w2 && v.w3 == w3,
    {
        if w1 < 0 || w2 < 0 || w3 < 0 || w1 > MAX_TOTAL || w2 > MAX_TOTAL || w3 > MAX_TOTAL {
            return None;
        }
        let total: i128 = w1 + w2 + w3;
        if total == 0 || total > MAX_TOTAL {
            return None;
        }
        Some(Weights { w1, w2, w3, total })
    }
}

/// The attribute at the point with weights `w`, between corners where it
/// is `a1`, `a2` and `a3`.
pub fn interpolate(a1: i32, a2: i32, a3: i32, w: &Weights) -> (r: i32)
    requires
        w.valid(),
    ensures
        r == interp(
            a1 as int,
            a2 as int,
            a3 as int,
            w.w1 as int,
            w.w2 as int,
            w.w3 as int,
            w.total as int,
        ),
{
    proof {
        lemma_term_bound(a1 as int, w.w1 as int);
        lemma_term_bound(a2 as int, w.w2 as int);
        lemma_term_bound(a3 as int, w.w3 as int);
        lemma_interp_is_weighted_sum(
            a1 as int,
            a2 as int,
            a3 as int,
            w.w1 as int,
            w.w2 as int,
            w.w3 as int,
            w.total as int,
        );
    }
    let sum: i128 = (a1 as i128) * w.w1 + (a2 as i128) * w.w2 + (a3 as i128) * w.w3;
    let q: i128 = div_floor(sum, w.total);
    q as i32
}

/// One term of a weighted sum stays far inside what an `i128` holds.
proof fn lemma_term_bound(a: int, n: int)
    requires
        fits_i32(a),
        0 <= n <= MAX_TOTAL,
    ensures
        -0x2_0000_0000_0000_0000_0000_0000 <= a * n <= 0x2_0000_0000_0000_0000_0000_0000,
{
    assert(-0x2_0000_0000_0000_0000_0000_0000 <= a * n <= 0x2_0000_0000_0000_0000_0000_0000)
        by (nonlinear_arith)
        requires
            -0x8000_0000 <= a <= 0x7fff_ffff,
            0 <= n <= 0x4_0000_0000_0000_0000,
    ;
}

fn interpolate_vec3(u1: &Vec3, u2: &Vec3, u3: &Vec3, w: &Weights) -> (r: Vec3)
    requires
        w.valid(),
    ensures
        r == interp_vec3(*u1, *u2, *u3, w.w1 as int, w.w2 as int, w.w3 as int, w.total as int),
{
    Vec3 {
        x: interpolate(u1.x, u2.x, u3.x, w),
        y: interpolate(u1.y, u2.y, u3.y, w),
        z: interpolate(u1.z, u2.z, u3.z, w),
    }
}

fn interpolate_vec2(u1: &Vec2, u2: &Vec2, u3: &Vec2, w: &Weights) -> (r: Vec2)
    requires
        w.valid(),
    ensures
        r == interp_vec2(*u1, *u2, *u3, w.w1 as int, w.w2 as int, w.w3 as int, w.total as int),
{
    Vec2 { x: interpolate(u1.x, u2.x, u3.x, w), y: interpolate(u1.y, u2.y, u3.y, w) }
}

/// The direction towards the light.
pub fn light_direction() -> (l: Vec3)
    ensures
        l == light_direction_spec(),
{
    Vec3 { x: 0, y: 0, z: 131072 }
}

/// The light that falls on a surface with the given normal of length one.
pub fn light_intensity(normal: &Vec3) -> (i: i32)
    ensures
        i == intensity_spec(*normal),
{
    let light: Vec3 = light_direction();
    let d: i64 = dot(normal, &light);
    if d < 0 {
        0
    } else if d > i32::MAX as i64 {
        i32::MAX
    } else {
        d as i32
    }
}

/// The fragment at pixel `p` for the weights `w` of the corners `v1`, `v2`
/// and `v3`.
pub fn interpolate_fragment(v1: &Vertex, v2: &Vertex, v3: &Vertex, p: Pixel, w: &Weights) -> (f:
    Fragment)
    requires
        w.valid(),
    ensures
        f == shade_point(
            *v1,
            *v2,
            *v3,
            p,
            w.w1 as int,
            w.w2 as int,
            w.w3 as int,
            w.total as int,
        ),
{
    let normal: Vec3 = interpolate_vec3(
        &v1.transformed_normal,
        &v2.transformed_normal,
        &v3.transformed_normal,
        w,
    );
    let intensity: i32 = light_intensity(&normal.normalize());
    let vertex_position: Vec3 = interpolate_vec3(&v1.position, &v2.position, &v3.position, w);
    let tex_coords: Vec2 = interpolate_vec2(&v1.tex_coords, &v2.tex_coords, &v3.tex_coords, w);
    let depth: i32 = interpolate(
        v1.transformed_position.z,
        v2.transformed_position.z,
        v3.transformed_position.z,
        w,
    );
    Fragment::new(
        p,
        Color::new(255, 255, 255),
        depth,
        normal,
        intensity,
        vertex_position,
        tex_coords,
    )
}

} // verus!
