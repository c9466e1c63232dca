use softraster::color::Color;

#[test]
fn colour_to_hex_packs_the_channels() {
    assert_eq!(Color::new(0x43, 0x38, 0x78).to_hex(), 0x433878);
    assert_eq!(Color::new(255, 255, 255).to_hex(), 0xffffff);
    assert_eq!(Color::new(0, 0, 0).to_hex(), 0);
    assert_eq!(Color::new(1, 2, 3).to_hex(), 0x010203);
}

#[test]
fn colour_from_hex_reads_the_low_24_bits() {
    assert_eq!(Color::from_hex(0x433878), Color::new(0x43, 0x38, 0x78));
    assert_eq!(Color::from_hex(0xff123456), Color::new(0x12, 0x34, 0x56));
    assert_eq!(Color::from_hex(0), Color::new(0, 0, 0));
}

#[test]
fn colour_survives_the_round_trip_through_hex() {
    for r in [0u8, 1, 127, 128, 255] {
        for g in [0u8, 17, 255] {
            for b in [0u8, 200, 255] {
                let c = Color::new(r, g, b);
                assert_eq!(Color::from_hex(c.to_hex()), c);
            }
        }
    }
}

#[test]
fn lerp_moves_from_one_colour_to_the_other() {
    let from = Color::new(0, 100, 200);
    let to = Color::new(100, 0, 200);
    assert_eq!(from.lerp(&to, 0), from);
    assert_eq!(from.lerp(&to, 65536), to);
    assert_eq!(from.lerp(&to, 32768), Color::new(50, 50, 200));
    assert_eq!(from.lerp(&to, 16384), Color::new(25, 75, 200));
    assert_eq!(from.lerp(&to, 1), Color::new(0, 99, 200));
}

#[test]
fn lerp_stops_at_both_ends() {
    let from = Color::new(10, 20, 30);
    let to = Color::new(200, 100, 0);
    assert_eq!(from.lerp(&to, -5), from);
    assert_eq!(from.lerp(&to, i32::MIN), from);
    assert_eq!(from.lerp(&to, 65537), to);
    assert_eq!(from.lerp(&to, i32::MAX), to);
}

#[test]
fn scale_multiplies_each_channel() {
    let c = Color::new(100, 200, 50);
    assert_eq!(c.scale(65536), c);
    assert_eq!(c.scale(32768), Color::new(50, 100, 25));
    assert_eq!(c.scale(0), Color::new(0, 0, 0));
    assert_eq!(c.scale(-65536), Color::new(0, 0, 0));
    assert_eq!(c.scale(16384), Color::new(25, 50, 12));
}

#[test]
fn scale_stops_at_the_brightest_value() {
    let c = Color::new(100, 200, 50);
    assert_eq!(c.scale(2 * 65536), Color::new(200, 255, 100));
    assert_eq!(c.scale(i32::MAX), Color::new(255, 255, 255));
    assert_eq!(Color::new(0, 0, 0).scale(i32::MAX), Color::new(0, 0, 0));
}
