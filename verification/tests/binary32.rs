use css_length::number::Number;

fn expected(value: f32) -> i64 {
    (value as f64 * 1_000_000.0).round() as i64
}

fn read(value: f32) -> i64 {
    Number::from_binary32(value.to_bits()).micros()
}

#[test]
fn plain_values_are_read_to_the_millionth() {
    assert_eq!(read(0.0), 0);
    assert_eq!(read(-0.0), 0);
    assert_eq!(read(1.0), 1_000_000);
    assert_eq!(read(-1.0), -1_000_000);
    assert_eq!(read(0.5), 500_000);
    assert_eq!(read(-0.5), -500_000);
    assert_eq!(read(0.1), 100_000);
    assert_eq!(read(2.54), 2_540_000);
    assert_eq!(read(96.0), 96_000_000);
    assert_eq!(read(1234.5677), 1_234_567_749);
    assert_eq!(read(16_777_216.0), 16_777_216_000_000);
}

#[test]
fn small_values_round_to_the_nearest_millionth() {
    assert_eq!(read(0.000_001), 1);
    assert_eq!(read(0.000_000_4), 0);
    assert_eq!(read(0.000_000_6), 1);
    assert_eq!(read(-0.000_000_6), -1);
    assert_eq!(read(f32::MIN_POSITIVE), 0);
    assert_eq!(read(f32::from_bits(1)), 0);
    assert_eq!(read(f32::from_bits(0x807f_ffff)), 0);
    assert_eq!(read(f32::EPSILON), 0);
}

#[test]
fn ties_go_away_from_zero() {
    assert_eq!(0.0078125_f32 as f64 * 1_000_000.0, 7812.5);
    assert_eq!(read(0.0078125), 7813);
    assert_eq!(read(-0.0078125), -7813);
    assert_eq!(read(0.0234375), 23438);
    assert_eq!(read(-0.0234375), -23438);
    assert_eq!(read(2_097_152.5), 2_097_152_500_000);
    let below = f32::from_bits(0x3500_0000);
    assert_eq!(below as f64 * 1_000_000.0, 0.476837158203125);
    assert_eq!(read(below), 0);
}

#[test]
fn values_beyond_the_range_go_to_its_ends() {
    assert_eq!(read(f32::MAX), i64::MAX);
    assert_eq!(read(f32::MIN), i64::MIN);
    assert_eq!(read(f32::INFINITY), i64::MAX);
    assert_eq!(read(f32::NEG_INFINITY), i64::MIN);
    assert_eq!(read(1.0e13), i64::MAX);
    assert_eq!(read(-1.0e13), i64::MIN);
    assert_eq!(read(9.0e12), 9_000_000_159_744_000_000);
    assert_eq!(read(9_223_372_036_854.0), expected(9_223_372_036_854.0));
    assert_eq!(read(9_223_373_000_000.0), i64::MAX);
}

#[test]
fn what_is_no_number_is_zero() {
    assert_eq!(read(f32::NAN), 0);
    assert_eq!(read(f32::from_bits(0xffc0_0001)), 0);
    assert_eq!(read(f32::from_bits(0x7f80_0001)), 0);
}

#[test]
fn every_exponent_is_read_as_the_product_rounded() {
    for exponent in 0u32..=255 {
        for fraction in [0u32, 1, 2, 3, 0x40_0000, 0x55_5555, 0x2a_aaaa, 0x7f_fffe, 0x7f_ffff, 0x12_3456, 0x00_8000] {
            for sign in [0u32, 0x8000_0000] {
                let bits = sign | (exponent << 23) | fraction;
                let value = f32::from_bits(bits);
                assert_eq!(read(value), expected(value), "bits {:#x}", bits);
            }
        }
    }
}

#[test]
fn many_values_are_read_as_the_product_rounded() {
    let mut state: u32 = 0x9e37_79b9;
    for _ in 0..200_000 {
        state = state.wrapping_mul(1_664_525).wrapping_add(1_013_904_223);
        let value = f32::from_bits(state);
        assert_eq!(read(value), expected(value), "bits {:#x}", state);
        let near = f32::from_bits((state % 0x0400_0000) + 0x3400_0000);
        assert_eq!(read(near), expected(near), "bits {:#x}", near.to_bits());
    }
}
