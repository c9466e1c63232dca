//! 16.16 fixed-point numbers and the integer helpers the pipeline shares.
//!
//! A fixed-point number is stored as an `i32` that counts 65536ths: the raw
//! value `r` stands for the rational `r / 65536`. Quotients are always
//! rounded down.

use vstd::prelude::*;

verus! {

/// The raw value of the number one.
pub const ONE: i32 = 65536;

/// The raw value of one half: the offset of a pixel's centre from its corner.
pub const HALF: i32 = 32768;

/// Whether `v` can be stored in an `i32`.
pub open spec fn fits_i32(v: int) -> bool {
    i32::MIN <= v <= i32::MAX
}

/// `v` limited to the interval `[lo, hi]`.
pub open spec fn clamp_spec(v: int, lo: int, hi: int) -> int {
    if v < lo {
        lo
    } else if v > hi {
        hi
    } else {
        v
    }
}

/// The largest integer that is not above `raw / 65536`.
pub open spec fn pixel_floor_spec(raw: int) -> int {
    raw / 65536
}

/// The smallest integer that is not below `raw / 65536`.
pub open spec fn pixel_ceil_spec(raw: int) -> int {
    (raw + 65535) / 65536
}

/// Whether `r` is the integer square root of `n`.
pub open spec fn is_sqrt_of(r: int, n: int) -> bool {
    &&& 0 <= r
    &&& r * r <= n
    &&& n < (r + 1) * (r + 1)
}

/// The integer square root of `n`: the one `r` with `is_sqrt_of(r, n)`.
pub open spec fn sqrt_floor(n: int) -> int {
    choose|r: int| is_sqrt_of(r, n)
}

/// A number has at most one integer square root.
pub proof fn lemma_sqrt_unique(r: int, s: int, n: int)
    requires
        is_sqrt_of(r, n),
        is_sqrt_of(s, n),
    ensures
        r == s,
{
    if r < s {
        assert((r + 1) * (r + 1) <= s * s) by (nonlinear_arith)
            requires
                0 <= r,
                r + 1 <= s,
        ;
    }
    if s < r {
        assert((s + 1) * (s + 1) <= r * r) by (nonlinear_arith)
            requires
                0 <= s,
                s + 1 <= r,
        ;
    }
}

/// Every natural number has an integer square root.
pub proof fn lemma_sqrt_exists(n: int)
    requires
        n >= 0,
    ensures
        is_sqrt_of(sqrt_floor(n), n),
    decreases n,
{
    if n == 0 {
        assert(is_sqrt_of(0, 0));
    } else {
        lemma_sqrt_exists(n - 1);
        let r = sqrt_floor(n - 1);
        if n < (r + 1) * (r + 1) {
            assert(is_sqrt_of(r, n));
        } else {
            assert(n == (r + 1) * (r + 1));
            assert((r + 1) * (r + 1) < (r + 2) * (r + 2)) by (nonlinear_arith)
                requires
                    r >= 0,
            ;
            assert(is_sqrt_of(r + 1, n));
        }
    }
}

/// The quotient of `a` by a positive `b`, rounded down.
pub fn div_floor(a: i128, b: i128) -> (q: i128)
    requires
        b > 0,
    ensures
        q == a / b,
{
    let q: i128 = a / b;
    let r: i128 = a % b;
    if r < 0 {
        proof {
            lemma_floor_of_negative(a as int, b as int);
        }
        q - 1
    } else {
        proof {
            lemma_floor_of_exact(a as int, b as int);
        }
        q
    }
}

/// Truncation and rounding down agree where nothing is cut off or the
/// dividend is not negative.
proof fn lemma_floor_of_exact(a: int, b: int)
    requires
        b > 0,
        a < 0 ==> (-a) % b == 0,
    ensures
        a < 0 ==> a / b == -((-a) / b),
{
    if a < 0 {
        vstd::arithmetic::div_mod::lemma_fundamental_div_mod(-a, b);
        let k = (-a) / b;
        assert(-a == b * k);
        assert(a == b * (-k)) by (nonlinear_arith)
            requires
                -a == b * k,
        ;
        vstd::arithmetic::div_mod::lemma_fundamental_div_mod_converse(a, b, -k, 0);
    }
}

/// Where a negative dividend leaves a remainder, rounding down is one below
/// truncation.
proof fn lemma_floor_of_negative(a: int, b: int)
    requires
        b > 0,
        a < 0,
        (-a) % b != 0,
    ensures
        a / b == -((-a) / b) - 1,
        (-a) / b < -a,
{
    vstd::arithmetic::div_mod::lemma_fundamental_div_mod(-a, b);
    vstd::arithmetic::div_mod::lemma_mod_bound(-a, b);
    let k = (-a) / b;
    let r = (-a) % b;
    assert(a == b * (-k - 1) + (b - r)) by (nonlinear_arith)
        requires
            -a == b * k + r,
    ;
    vstd::arithmetic::div_mod::lemma_fundamental_div_mod_converse(a, b, -k - 1, b - r);
    assert(k < -a) by (nonlinear_arith)
        requires
            -a == b * k + r,
            r > 0,
            b > 0,
            a < 0,
    ;
}

/// The remainder of `a` by a positive `b`: never negative and less than
/// `b`.
pub fn rem_floor(a: i64, b: i64) -> (r: i64)
    requires
        b > 0,
    ensures
        r == a % b,
        0 <= r < b,
{
    let q: i128 = div_floor(a as i128, b as i128);
    proof {
        vstd::arithmetic::div_mod::lemma_fundamental_div_mod(a as int, b as int);
        vstd::arithmetic::div_mod::lemma_mod_bound(a as int, b as int);
    }
    let r: i128 = a as i128 - b as i128 * q;
    r as i64
}

/// The pixel column or row that holds the raw coordinate `raw`.
pub fn pixel_floor(raw: i32) -> (p: i32)
    ensures
        p == pixel_floor_spec(raw as int),
        -32768 <= p <= 32767,
{
    let q: i128 = div_floor(raw as i128, 65536);
    q as i32
}

/// The first pixel column or row that does not lie before the raw
/// coordinate `raw`.
pub fn pixel_ceil(raw: i32) -> (p: i32)
    ensures
        p == pixel_ceil_spec(raw as int),
        -32768 <= p <= 32768,
{
    let q: i128 = div_floor(raw as i128 + 65535, 65536);
    q as i32
}

/// The integer square root of `n`, found by bisection.
pub fn isqrt(n: u64) -> (r: u64)
    ensures
        is_sqrt_of(r as int, n as int),
        r == sqrt_floor(n as int),
        r <= 0xffff_ffff,
{
    let mut lo: u64 = 0;
    let mut hi: u64 = 0x1_0000_0000;
    while hi - lo > 1
        invariant
            lo < hi <= 0x1_0000_0000,
            lo * lo <= n,
            n < hi * hi,
        decreases hi - lo,
    {
        let mid: u64 = lo + (hi - lo) / 2;
        assert(mid * mid < 0x1_0000_0000 * 0x1_0000_0000) by (nonlinear_arith)
            requires
                0 <= mid < 0x1_0000_0000,
        ;
        if mid * mid <= n {
            lo = mid;
        } else {
            hi = mid;
        }
    }
    proof {
        assert(is_sqrt_of(lo as int, n as int));
        lemma_sqrt_unique(lo as int, sqrt_floor(n as int), n as int);
    }
    lo
}

} // verus!
