//! Fixed-point vectors and the 4x4 matrix that transforms them.

use vstd::prelude::*;
use crate::fixed::{div_floor, fits_i32, is_sqrt_of, isqrt, lemma_sqrt_exists, sqrt_floor};

verus! {

/// A vector of two fixed-point numbers.
#[derive(Clone, Copy, Debug, PartialEq, Eq, Structural)]
pub struct Vec2 {
    pub x: i32,
    pub y: i32,
}

/// A vector of three fixed-point numbers.
#[derive(Clone, Copy, Debug, PartialEq, Eq, Structural)]
pub struct Vec3 {
    pub x: i32,
    pub y: i32,
    pub z: i32,
}

/// A vector of four fixed-point numbers: a point in homogeneous coordinates,
/// or one row of a matrix.
#[derive(Clone, Copy, Debug, PartialEq, Eq, Structural)]
pub struct Vec4 {
    pub x: i32,
    pub y: i32,
    pub z: i32,
    pub w: i32,
}

/// A 4x4 matrix of fixed-point numbers, held row by row: the row `x` yields
/// the `x` component of a product, and so on.
#[derive(Clone, Copy, Debug, PartialEq, Eq, Structural)]
pub struct Mat4 {
    pub x: Vec4,
    pub y: Vec4,
    pub z: Vec4,
    pub w: Vec4,
}

/// The sum of the products of the components of `row` and `v`, not yet
/// scaled back: a number with 32 fractional bits.
pub open spec fn row_product(row: Vec4, v: Vec4) -> int {
    row.x * v.x + row.y * v.y + row.z * v.z + row.w * v.w
}

/// The dot product of `a` and `b` as a fixed-point number.
pub open spec fn dot_spec(a: Vec3, b: Vec3) -> int {
    (a.x * b.x + a.y * b.y + a.z * b.z) / 65536
}

/// The square of the length of `v`, with 32 fractional bits.
pub open spec fn length_squared(v: Vec3) -> int {
    v.x * v.x + v.y * v.y + v.z * v.z
}

/// The length of `v` as a fixed-point number.
pub open spec fn length_spec(v: Vec3) -> int {
    sqrt_floor(length_squared(v))
}

/// `v` scaled to length one; the zero vector stays as it is.
pub open spec fn normalize_spec(v: Vec3) -> Vec3 {
    let len = length_spec(v);
    if len == 0 {
        v
    } else {
        Vec3 {
            x: ((v.x * 65536) / len) as i32,
            y: ((v.y * 65536) / len) as i32,
            z: ((v.z * 65536) / len) as i32,
        }
    }
}

/// The product of two `i32` values lies within 2^62 of zero.
pub proof fn lemma_product_bound(a: int, b: int)
    requires
        fits_i32(a),
        fits_i32(b),
    ensures
        -0x4000_0000_0000_0000 <= a * b <= 0x4000_0000_0000_0000,
{
    assert(-0x4000_0000_0000_0000 <= a * b <= 0x4000_0000_0000_0000) by (nonlinear_arith)
        requires
            -0x8000_0000 <= a <= 0x7fff_ffff,
            -0x8000_0000 <= b <= 0x7fff_ffff,
    ;
}

impl Vec2 {
    /// The vector with the given components.
    pub fn new(x: i32, y: i32) -> (v: Vec2)
        ensures
            v == (Vec2 { x, y }),
    {
        Vec2 { x, y }
    }
}

impl Vec3 {
    /// The vector with the given components.
    pub fn new(x: i32, y: i32, z: i32) -> (v: Vec3)
        ensures
            v == (Vec3 { x, y, z }),
    {
        Vec3 { x, y, z }
    }

    /// The length of the vector, rounded down.
    pub fn length(&self) -> (len: u64)
        ensures
            len == length_spec(*self),
            len <= 0xffff_ffff,
    {
        let x: i64 = self.x as i64;
        let y: i64 = self.y as i64;
        let z: i64 = self.z as i64;
        proof {
            lemma_product_bound(x as int, x as int);
            lemma_product_bound(y as int, y as int);
            lemma_product_bound(z as int, z as int);
            assert(x * x >= 0 && y * y >= 0 && z * z >= 0) by (nonlinear_arith);
        }
        let sum: u64 = (x * x) as u64 + (y * y) as u64 + (z * z) as u64;
        isqrt(sum)
    }

    /// The vector scaled to length one, each component rounded down. The
    /// zero vector has no direction and is returned unchanged.
    pub fn normalize(&self) -> (n: Vec3)
        ensures
            n == normalize_spec(*self),
            length_spec(*self) != 0 ==> -65536 <= n.x <= 65536 && -65536 <= n.y <= 65536
                && -65536 <= n.z <= 65536,
    {
        let len: u64 = self.length();
        if len == 0 {
            *self
        } else {
            proof {
                lemma_component_within_length(*self);
            }
            let d: i128 = len as i128;
            let x: i128 = div_floor(self.x as i128 * 65536, d);
            let y: i128 = div_floor(self.y as i128 * 65536, d);
            let z: i128 = div_floor(self.z as i128 * 65536, d);
            proof {
                lemma_scaled_quotient_bound(self.x as int, d as int);
                lemma_scaled_quotient_bound(self.y as int, d as int);
                lemma_scaled_quotient_bound(self.z as int, d as int);
            }
            Vec3 { x: x as i32, y: y as i32, z: z as i32 }
        }
    }
}

/// No component of a vector is longer than the vector.
pub proof fn lemma_component_within_length(v: Vec3)
    ensures
        -length_spec(v) <= v.x <= length_spec(v),
        -length_spec(v) <= v.y <= length_spec(v),
        -length_spec(v) <= v.z <= length_spec(v),
{
    let n = length_squared(v);
    let x = v.x as int;
    let y = v.y as int;
    let z = v.z as int;
    assert(n >= 0 && x * x <= n && y * y <= n && z * z <= n) by (nonlinear_arith)
        requires
            n == x * x + y * y + z * z,
    ;
    lemma_sqrt_exists(n);
    let len = sqrt_floor(n);
    lemma_square_root_dominates(x, len, n);
    lemma_square_root_dominates(y, len, n);
    lemma_square_root_dominates(z, len, n);
}

/// A number whose square is at most `n` is within the square root of `n`.
proof fn lemma_square_root_dominates(x: int, len: int, n: int)
    requires
        is_sqrt_of(len, n),
        x * x <= n,
    ensures
        -len <= x <= len,
{
    if x > len {
        assert((len + 1) * (len + 1) <= x * x) by (nonlinear_arith)
            requires
                0 <= len,
                len + 1 <= x,
        ;
    }
    if x < -len {
        assert((len + 1) * (len + 1) <= x * x) by (nonlinear_arith)
            requires
                0 <= len,
                x <= -(len + 1),
        ;
    }
}

/// A component divided by a length that bounds it lies between minus one
/// and one.
proof fn lemma_scaled_quotient_bound(c: int, d: int)
    requires
        d > 0,
        -d <= c <= d,
    ensures
        -65536 <= (c * 65536) / d <= 65536,
{
    assert(-65536 <= (c * 65536) / d <= 65536) by (nonlinear_arith)
        requires
            d > 0,
            -d <= c <= d,
    ;
}

/// The dot product of two vectors, rounded down.
pub fn dot(a: &Vec3, b: &Vec3) -> (d: i64)
    ensures
        d == dot_spec(*a, *b),
{
    proof {
        lemma_product_bound(a.x as int, b.x as int);
        lemma_product_bound(a.y as int, b.y as int);
        lemma_product_bound(a.z as int, b.z as int);
    }
    let sum: i128 = (a.x as i128) * (b.x as i128) + (a.y as i128) * (b.y as i128) + (a.z as i128)
        * (b.z as i128);
    let q: i128 = div_floor(sum, 65536);
    q as i64
}

} // verus!
