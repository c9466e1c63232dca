//! Coherent noise from the `fastnoise_lite` generator.
//!
//! The generator computes in floating point. This module hands it whole
//! numbers, takes the bits of the number it returns, and turns them into a
//! fixed-point number by integer arithmetic.

use fastnoise_lite::{FastNoiseLite, NoiseType};
use vstd::arithmetic::power2::pow2;
use vstd::prelude::*;

verus! {

/// The seed that the pipeline's generator is made with.
pub const NOISE_SEED: i32 = 2312;

/// The generator `fastnoise_lite::FastNoiseLite`. Nothing of what it holds
/// is visible here; what the contracts need of it has a name below.
#[verifier::external_type_specification]
#[verifier::external_body]
pub struct ExFastNoiseLite(FastNoiseLite);

/// The enum `fastnoise_lite::NoiseType`, with its six algorithms.
#[verifier::external_type_specification]
pub struct ExNoiseType(NoiseType);

/// The seed of a generator: its field `seed`.
pub uninterp spec fn noise_seed(generator: FastNoiseLite) -> int;

/// The algorithm of a generator: its field `noise_type`.
pub uninterp spec fn noise_type_of(generator: FastNoiseLite) -> NoiseType;

/// Whether a generator is as `FastNoiseLite::default` makes it but for its
/// seed and its algorithm, and these two were set by `set_seed` and
/// `set_noise_type`: frequency 0.01, no fractal, no rotation, and so on.
pub uninterp spec fn noise_is_stock(generator: FastNoiseLite) -> bool;

/// The bits of the single-precision number that a stock OpenSimplex2
/// generator with the given seed returns from `get_noise_3d` at the point
/// `(x, y, z)`.
pub uninterp spec fn simplex_noise_bits(seed: int, x: int, y: int, z: int) -> u32;

/// `FastNoiseLite::with_seed` returns the default generator with its seed
/// replaced: a stock generator whose algorithm is OpenSimplex2.
pub assume_specification[ FastNoiseLite::with_seed ](seed: i32) -> (generator: FastNoiseLite)
    ensures
        noise_seed(generator) == seed,
        noise_type_of(generator) == NoiseType::OpenSimplex2,
        noise_is_stock(generator),
;

/// `FastNoiseLite::set_noise_type` replaces the algorithm, by OpenSimplex2
/// where it is given `None`, and leaves the seed and every other setting
/// alone: a stock generator stays one.
pub assume_specification[ FastNoiseLite::set_noise_type ](
    generator: &mut FastNoiseLite,
    noise_type: Option<NoiseType>,
)
    ensures
        noise_type_of(*final(generator)) == match noise_type {
            Some(t) => t,
            None => NoiseType::OpenSimplex2,
        },
        noise_seed(*final(generator)) == noise_seed(*old(generator)),
        noise_is_stock(*old(generator)) ==> noise_is_stock(*final(generator)),
;

/// Calls `FastNoiseLite::get_noise_3d` at a point with whole coordinates
/// and returns the bits of the result. For a stock OpenSimplex2 generator
/// the result depends on the seed and the point alone, and the call never
/// panics.
#[verifier::external_body]
fn noise_bits_3d(generator: &FastNoiseLite, x: i16, y: i16, z: i16) -> (bits: u32)
    requires
        noise_type_of(*generator) == NoiseType::OpenSimplex2,
        noise_is_stock(*generator),
    ensures
        bits == simplex_noise_bits(noise_seed(*generator), x as int, y as int, z as int),
{
    generator.get_noise_3d(x.into(), y.into(), z.into()).to_bits()
}

/// A source of coherent noise: a stock OpenSimplex2 generator. It is made
/// once and only read afterwards, so any number of shader calls can share
/// it.
pub struct NoiseSource {
    generator: FastNoiseLite,
}

impl NoiseSource {
    #[verifier::type_invariant]
    spec fn ready(self) -> bool {
        noise_type_of(self.generator) == NoiseType::OpenSimplex2 && noise_is_stock(self.generator)
    }

    /// The seed that the source was made with.
    pub closed spec fn seed(&self) -> int {
        noise_seed(self.generator)
    }

    /// A source with the given seed.
    pub fn with_seed(seed: i32) -> (source: NoiseSource)
        ensures
            source.seed() == seed,
    {
        let mut generator: FastNoiseLite = FastNoiseLite::with_seed(seed);
        generator.set_noise_type(Some(NoiseType::OpenSimplex2));
        NoiseSource { generator }
    }

    /// The bits of the noise at the point `(x, y, z)`, as a
    /// single-precision number between minus one and one.
    pub fn sample_bits(&self, x: i16, y: i16, z: i16) -> (bits: u32)
        ensures
            bits == simplex_noise_bits(self.seed(), x as int, y as int, z as int),
    {
        proof {
            use_type_invariant(self);
        }
        noise_bits_3d(&self.generator, x, y, z)
    }

    /// The noise at the point `(x, y, z)` as a fixed-point number between
    /// minus one and one.
    pub fn sample(&self, x: i16, y: i16, z: i16) -> (level: i32)
        ensures
            level == unit_fixed_of_bits(
                simplex_noise_bits(self.seed(), x as int, y as int, z as int),
            ),
            -65536 <= level <= 65536,
    {
        noise_level(self.sample_bits(x, y, z))
    }
}

/// The noise source of the pipeline, seeded with `NOISE_SEED`.
pub fn create_noise() -> (noise: NoiseSource)
    ensures
        noise.seed() == NOISE_SEED,
{
    NoiseSource::with_seed(NOISE_SEED)
}

/// The sign bit of a single-precision number: one for a negative number.
pub open spec fn sign_of_bits(bits: u32) -> int {
    bits as int / 0x8000_0000
}

/// The eight exponent bits of a single-precision number.
pub open spec fn exponent_of_bits(bits: u32) -> int {
    (bits as int / 0x80_0000) % 256
}

/// The 23 fraction bits of a single-precision number.
pub open spec fn fraction_of_bits(bits: u32) -> int {
    bits as int % 0x80_0000
}

/// The absolute value of the number that `bits` stand for, times 65536,
/// rounded down and limited to 65536. A number with exponent bits `e` and
/// fraction bits `f` is `(2^23 + f) * 2^(e - 150)`; below `e = 111` it is
/// less than 1/65536, from `e = 127` on it is one or more. What is not a
/// number counts as zero.
pub open spec fn unit_magnitude_of_bits(bits: u32) -> int {
    let e = exponent_of_bits(bits);
    let f = fraction_of_bits(bits);
    if e == 255 && f != 0 {
        0
    } else if e >= 127 {
        65536
    } else if e <= 110 {
        0
    } else {
        (0x80_0000 + f) / (pow2((134 - e) as nat) as int)
    }
}

/// The single-precision number that `bits` stand for as a fixed-point
/// number: rounded towards zero and limited to the interval from minus one
/// to one.
pub open spec fn unit_fixed_of_bits(bits: u32) -> int {
    if sign_of_bits(bits) == 1 {
        -unit_magnitude_of_bits(bits)
    } else {
        unit_magnitude_of_bits(bits)
    }
}

/// The single-precision number that `bits` stand for as a fixed-point
/// number between minus one and one.
pub fn noise_level(bits: u32) -> (level: i32)
    ensures
        level == unit_fixed_of_bits(bits),
        -65536 <= level <= 65536,
{
    let negative: bool = bits / 0x8000_0000 == 1;
    let e: u32 = (bits / 0x80_0000) % 256;
    let f: u32 = bits % 0x80_0000;
    let magnitude: u32 = if e == 255 && f != 0 {
        0
    } else if e >= 127 {
        65536
    } else if e <= 110 {
        0
    } else {
        let shift: u32 = 134 - e;
        let m: u32 = 0x80_0000 + f;
        proof {
            vstd::bits::lemma_u32_shr_is_div(m, shift);
            vstd::arithmetic::power2::lemma2_to64();
            if shift > 8 {
                vstd::arithmetic::power2::lemma_pow2_strictly_increases(8, shift as nat);
            }
            let d: int = pow2(shift as nat) as int;
            assert(0 <= m as int / d <= 65536) by (nonlinear_arith)
                requires
                    0 <= m < 0x100_0000,
                    d >= 256,
            ;
        }
        m >> shift
    };
    if negative {
        -(magnitude as i32)
    } else {
        magnitude as i32
    }
}

} // verus!
