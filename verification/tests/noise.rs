use fastnoise_lite::{FastNoiseLite, NoiseType};
use softraster::noise::{create_noise, noise_level, NoiseSource, NOISE_SEED};

fn reference(seed: i32) -> FastNoiseLite {
    let mut generator = FastNoiseLite::with_seed(seed);
    generator.set_noise_type(Some(NoiseType::OpenSimplex2));
    generator
}

fn expected_level(value: f32) -> i32 {
    if value.is_nan() {
        0
    } else if value >= 1.0 {
        65536
    } else if value <= -1.0 {
        -65536
    } else {
        (value as f64 * 65536.0).trunc() as i32
    }
}

#[test]
fn noise_level_reads_the_bits_of_a_number() {
    assert_eq!(noise_level(0.5f32.to_bits()), 32768);
    assert_eq!(noise_level((-0.25f32).to_bits()), -16384);
    assert_eq!(noise_level(0.75f32.to_bits()), 49152);
    assert_eq!(noise_level(0.0f32.to_bits()), 0);
    assert_eq!(noise_level((-0.0f32).to_bits()), 0);
    assert_eq!(noise_level(1.0f32.to_bits()), 65536);
    assert_eq!(noise_level((-1.0f32).to_bits()), -65536);
    assert_eq!(noise_level(0x3f00_0000), 32768);
    assert_eq!(noise_level(0xbe80_0000), -16384);
}

#[test]
fn noise_level_rounds_towards_zero() {
    assert_eq!(noise_level(0.99999f32.to_bits()), 65535);
    assert_eq!(noise_level((-0.99999f32).to_bits()), -65535);
    assert_eq!(noise_level((1.0f32 / 65536.0).to_bits()), 1);
    assert_eq!(noise_level((1.9f32 / 65536.0).to_bits()), 1);
    assert_eq!(noise_level((0.9f32 / 65536.0).to_bits()), 0);
    assert_eq!(noise_level((-0.9f32 / 65536.0).to_bits()), 0);
    assert_eq!(noise_level(1e-30f32.to_bits()), 0);
    assert_eq!(noise_level(f32::MIN_POSITIVE.to_bits()), 0);
    assert_eq!(noise_level(1), 0);
}

#[test]
fn noise_level_stops_at_one() {
    assert_eq!(noise_level(1.5f32.to_bits()), 65536);
    assert_eq!(noise_level((-7.0f32).to_bits()), -65536);
    assert_eq!(noise_level(f32::MAX.to_bits()), 65536);
    assert_eq!(noise_level(f32::INFINITY.to_bits()), 65536);
    assert_eq!(noise_level(f32::NEG_INFINITY.to_bits()), -65536);
}

#[test]
fn noise_level_of_what_is_not_a_number_is_zero() {
    assert_eq!(noise_level(f32::NAN.to_bits()), 0);
    assert_eq!(noise_level(0x7fc0_0001), 0);
    assert_eq!(noise_level(0xffc0_0000), 0);
    assert_eq!(noise_level(0x7f80_0001), 0);
}

#[test]
fn noise_level_agrees_with_floating_point_on_a_sweep() {
    let mut bits: u32 = 0;
    loop {
        let value = f32::from_bits(bits);
        assert_eq!(noise_level(bits), expected_level(value), "bits {:#x}", bits);
        match bits.checked_add(0x0001_2345) {
            Some(next) => bits = next,
            None => break,
        }
    }
}

#[test]
fn sample_bits_are_the_bits_that_the_generator_returns() {
    let source = NoiseSource::with_seed(99);
    let generator = reference(99);
    for &(x, y, z) in &[(0i16, 0i16, 0i16), (3, 4, 5), (-120, 77, 1000), (i16::MIN, i16::MAX, -1)] {
        assert_eq!(
            source.sample_bits(x, y, z),
            generator.get_noise_3d(x as f32, y as f32, z as f32).to_bits()
        );
    }
}

#[test]
fn sample_is_the_level_of_the_sampled_bits() {
    let source = NoiseSource::with_seed(5);
    let generator = reference(5);
    let mut distinct = std::collections::BTreeSet::new();
    for x in -20i16..20 {
        let level = source.sample(x * 13, 40 - x, x);
        assert!((-65536..=65536).contains(&level));
        assert_eq!(level, noise_level(source.sample_bits(x * 13, 40 - x, x)));
        assert_eq!(
            level,
            expected_level(generator.get_noise_3d((x * 13) as f32, (40 - x) as f32, x as f32))
        );
        distinct.insert(level);
    }
    assert!(distinct.len() > 10);
}

#[test]
fn sample_depends_on_the_seed() {
    let one = NoiseSource::with_seed(1);
    let two = NoiseSource::with_seed(2);
    let differing = (0i16..50)
        .filter(|&i| one.sample_bits(17 * i, 29 * i, 5 * i) != two.sample_bits(17 * i, 29 * i, 5 * i))
        .count();
    assert!(differing > 25);
}

#[test]
fn sample_is_the_same_every_time() {
    let first = NoiseSource::with_seed(77);
    let second = NoiseSource::with_seed(77);
    for i in 0i16..50 {
        assert_eq!(first.sample_bits(i, 2 * i, 3 * i), first.sample_bits(i, 2 * i, 3 * i));
        assert_eq!(first.sample_bits(i, 2 * i, 3 * i), second.sample_bits(i, 2 * i, 3 * i));
    }
}

#[test]
fn create_noise_uses_the_seed_of_the_pipeline() {
    assert_eq!(NOISE_SEED, 2312);
    let source = create_noise();
    let generator = reference(2312);
    let other = reference(1337);
    let mut differs = false;
    for i in 0i16..40 {
        let (x, y, z) = (31 * i - 500, 7 * i, 100 - 3 * i);
        let bits = source.sample_bits(x, y, z);
        assert_eq!(bits, generator.get_noise_3d(x as f32, y as f32, z as f32).to_bits());
        differs |= bits != other.get_noise_3d(x as f32, y as f32, z as f32).to_bits();
    }
    assert!(differs);
}
