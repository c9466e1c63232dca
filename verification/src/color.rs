//! Colours with eight bits per channel.

use vstd::prelude::*;
use crate::fixed::clamp_spec;

verus! {

/// An opaque colour.
#[derive(Clone, Copy, Debug, PartialEq, Eq, Structural)]
pub struct Color {
    pub r: u8,
    pub g: u8,
    pub b: u8,
}

/// The colour as the number `0xRRGGBB`.
pub open spec fn hex_of(c: Color) -> int {
    c.r * 65536 + c.g * 256 + c.b
}

/// The colour that the low 24 bits of `hex` spell as `0xRRGGBB`.
pub open spec fn color_of_hex(hex: int) -> Color {
    Color { r: ((hex / 65536) % 256) as u8, g: ((hex / 256) % 256) as u8, b: (hex % 256) as u8 }
}

/// The channel a fraction `t` of the way from `from` to `to`, rounded down;
/// `t` is a fixed-point number, limited to the interval from zero to one.
pub open spec fn lerp_channel(from: int, to: int, t: int) -> int {
    from + ((to - from) * clamp_spec(t, 0, 65536)) / 65536
}

/// The channel `c` times the fixed-point factor `k`, rounded down and
/// limited to what a channel can hold; a negative factor counts as zero.
pub open spec fn scale_channel(c: int, k: int) -> int {
    clamp_spec((c * clamp_spec(k, 0, i32::MAX as int)) / 65536, 0, 255)
}

/// The colour a fraction `t` of the way from `from` to `to`.
pub open spec fn lerp_spec(from: Color, to: Color, t: int) -> Color {
    Color {
        r: lerp_channel(from.r as int, to.r as int, t) as u8,
        g: lerp_channel(from.g as int, to.g as int, t) as u8,
        b: lerp_channel(from.b as int, to.b as int, t) as u8,
    }
}

/// The colour `c` with each channel scaled by `k`.
pub open spec fn scale_spec(c: Color, k: int) -> Color {
    Color {
        r: scale_channel(c.r as int, k) as u8,
        g: scale_channel(c.g as int, k) as u8,
        b: scale_channel(c.b as int, k) as u8,
    }
}

/// An interpolated channel lies between its two ends.
pub proof fn lemma_lerp_channel_between(from: int, to: int, t: int)
    ensures
        from <= to ==> from <= lerp_channel(from, to, t) <= to,
        to <= from ==> to <= lerp_channel(from, to, t) <= from,
        t <= 0 ==> lerp_channel(from, to, t) == from,
        t >= 65536 ==> lerp_channel(from, to, t) == to,
{
    let c = clamp_spec(t, 0, 65536);
    let d = to - from;
    if d >= 0 {
        assert(0 <= (d * c) / 65536 <= d) by (nonlinear_arith)
            requires
                0 <= c <= 65536,
                d >= 0,
        ;
    } else {
        assert(d <= (d * c) / 65536 <= 0) by (nonlinear_arith)
            requires
                0 <= c <= 65536,
                d < 0,
        ;
    }
    if t <= 0 {
        assert(d * 0 == 0);
    }
    if t >= 65536 {
        assert((d * 65536) / 65536 == d);
    }
}

/// A brighter light never darkens a channel, no light leaves it black, and
/// a factor of one leaves it as it is.
pub proof fn lemma_scale_channel_monotonic(c: int, k1: int, k2: int)
    requires
        0 <= c <= 255,
        k1 <= k2,
    ensures
        scale_channel(c, k1) <= scale_channel(c, k2),
        k1 <= 0 ==> scale_channel(c, k1) == 0,
        scale_channel(c, 65536) == c,
{
    let a = clamp_spec(k1, 0, i32::MAX as int);
    let b = clamp_spec(k2, 0, i32::MAX as int);
    assert((c * a) / 65536 <= (c * b) / 65536) by (nonlinear_arith)
        requires
            0 <= c,
            0 <= a <= b,
    ;
    if k1 <= 0 {
        assert(c * 0 == 0);
    }
    assert((c * 65536) / 65536 == c);
}

fn lerp_one(from: u8, to: u8, t: i32) -> (c: u8)
    ensures
        c == lerp_channel(from as int, to as int, t as int),
{
    let t: i64 = if t < 0 {
        0
    } else if t > 65536 {
        65536
    } else {
        t as i64
    };
    let d: i64 = to as i64 - from as i64;
    proof {
        lemma_lerp_channel_between(from as int, to as int, t as int);
        assert(-255 * 65536 <= d * t <= 255 * 65536) by (nonlinear_arith)
            requires
                -255 <= d <= 255,
                0 <= t <= 65536,
        ;
    }
    let q: i128 = crate::fixed::div_floor((d * t) as i128, 65536);
    (from as i128 + q) as u8
}

fn scale_one(c: u8, k: i32) -> (s: u8)
    ensures
        s == scale_channel(c as int, k as int),
{
    let k: i64 = if k < 0 {
        0
    } else {
        k as i64
    };
    assert(0 <= c * k <= 255 * 0x7fff_ffff) by (nonlinear_arith)
        requires
            0 <= c <= 255,
            0 <= k <= 0x7fff_ffff,
    ;
    let q: i64 = (c as i64 * k) / 65536;
    if q > 255 {
        255
    } else {
        q as u8
    }
}

impl Color {
    /// The colour with the given channels.
    pub fn new(r: u8, g: u8, b: u8) -> (c: Color)
        ensures
            c == (Color { r, g, b }),
    {
        Color { r, g, b }
    }

    /// The colour that the low 24 bits of `hex` spell as `0xRRGGBB`.
    pub fn from_hex(hex: u32) -> (c: Color)
        ensures
            c == color_of_hex(hex as int),
    {
        Color {
            r: ((hex / 65536) % 256) as u8,
            g: ((hex / 256) % 256) as u8,
            b: (hex % 256) as u8,
        }
    }

    /// The colour as the number `0xRRGGBB`.
    pub fn to_hex(&self) -> (hex: u32)
        ensures
            hex == hex_of(*self),
            hex <= 0xff_ffff,
    {
        self.r as u32 * 65536 + self.g as u32 * 256 + self.b as u32
    }

    /// The colour a fraction `t` of the way from `self` to `other`.
    pub fn lerp(&self, other: &Color, t: i32) -> (c: Color)
        ensures
            c == lerp_spec(*self, *other, t as int),
    {
        Color {
            r: lerp_one(self.r, other.r, t),
            g: lerp_one(self.g, other.g, t),
            b: lerp_one(self.b, other.b, t),
        }
    }

    /// The colour with each channel multiplied by the fixed-point factor
    /// `k` and limited to 255.
    pub fn scale(&self, k: i32) -> (c: Color)
        ensures
            c == scale_spec(*self, k as int),
    {
        Color { r: scale_one(self.r, k), g: scale_one(self.g, k), b: scale_one(self.b, k) }
    }
}

/// Writing a colour as a number and reading it back gives the colour.
pub proof fn lemma_hex_round_trip(c: Color)
    ensures
        color_of_hex(hex_of(c)) == c,
        0 <= hex_of(c) <= 0xff_ffff,
{
}

} // verus!
