use gamepad_relay::angle::Angle;
use gamepad_relay::axis::{angle_from_axis, DEAD_ZONE_BITS, FULL_SCALE_BITS, INFINITY_BITS};

fn by_floats(value: f32) -> i32 {
    if value > 0.05 {
        (value * 180.0).round() as i32
    } else {
        0
    }
}

fn mapped(value: f32) -> i32 {
    angle_from_axis(value.to_bits()).degrees()
}

#[test]
fn named_bit_patterns_are_the_numbers_they_stand_for() {
    assert_eq!(DEAD_ZONE_BITS, 0.05f32.to_bits());
    assert_eq!(FULL_SCALE_BITS, 1.0f32.to_bits());
    assert_eq!(INFINITY_BITS, f32::INFINITY.to_bits());
}

#[test]
fn half_deflection_is_ninety_degrees() {
    assert_eq!(mapped(0.5), 90);
}

#[test]
fn rest_position_is_neutral() {
    assert_eq!(mapped(0.0), 0);
    assert_eq!(angle_from_axis(0), Angle::neutral());
}

#[test]
fn full_deflection_is_one_hundred_and_eighty_degrees() {
    assert_eq!(mapped(1.0), 180);
    assert_eq!(angle_from_axis(FULL_SCALE_BITS), Angle::full());
}

#[test]
fn dead_zone_is_neutral_up_to_and_including_the_threshold() {
    assert_eq!(mapped(0.05), 0);
    assert_eq!(mapped(0.049), 0);
    assert_eq!(mapped(0.01), 0);
    assert_eq!(mapped(f32::MIN_POSITIVE), 0);
    assert_eq!(mapped(1.0e-40), 0);
    assert_eq!(angle_from_axis(DEAD_ZONE_BITS).degrees(), 0);
    assert_eq!(angle_from_axis(DEAD_ZONE_BITS - 1).degrees(), 0);
}

#[test]
fn first_reading_above_the_threshold_is_nine_degrees() {
    assert_eq!(angle_from_axis(DEAD_ZONE_BITS + 1).degrees(), 9);
    assert_eq!(mapped(0.0500001), 9);
    assert_eq!(mapped(0.051), 9);
}

#[test]
fn negative_readings_are_neutral() {
    assert_eq!(mapped(-0.0), 0);
    assert_eq!(mapped(-0.03), 0);
    assert_eq!(mapped(-0.05), 0);
    assert_eq!(mapped(-0.5), 0);
    assert_eq!(mapped(-1.0), 0);
    assert_eq!(mapped(f32::NEG_INFINITY), 0);
}

#[test]
fn readings_that_are_not_numbers_are_neutral() {
    assert_eq!(mapped(f32::NAN), 0);
    assert_eq!(angle_from_axis(0x7FC0_0001).degrees(), 0);
    assert_eq!(angle_from_axis(0x7F80_0001).degrees(), 0);
    assert_eq!(angle_from_axis(0xFFC0_0000).degrees(), 0);
    assert_eq!(angle_from_axis(u32::MAX).degrees(), 0);
}

#[test]
fn readings_beyond_full_deflection_are_full_deflection() {
    assert_eq!(mapped(1.0000001), 180);
    assert_eq!(mapped(1.5), 180);
    assert_eq!(mapped(2.0), 180);
    assert_eq!(mapped(f32::MAX), 180);
    assert_eq!(mapped(f32::INFINITY), 180);
}

#[test]
fn exact_expected_values() {
    assert_eq!(mapped(0.25), 45);
    assert_eq!(mapped(0.75), 135);
    assert_eq!(mapped(0.1), 18);
    assert_eq!(mapped(0.06), 11);
    assert_eq!(mapped(0.9), 162);
    assert_eq!(mapped(0.999), 180);
    assert_eq!(mapped(0.99), 178);
    assert_eq!(mapped(0.0625), 11);
    assert_eq!(mapped(0.125), 23);
}

#[test]
fn a_half_degree_rounds_up() {
    // 0.125 * 180 is 22.5 exactly.
    assert_eq!(mapped(0.125), 23);
    // 0.375 * 180 is 67.5 exactly.
    assert_eq!(mapped(0.375), 68);
    // 0.625 * 180 is 112.5 exactly.
    assert_eq!(mapped(0.625), 113);
}

#[test]
fn product_is_rounded_as_single_precision_rounds_it() {
    // The single nearest to 0.175 lies just below it; times 180 that is just
    // below 31.5, and the single-precision product is 31.5 itself.
    assert_eq!(by_floats(0.175), 32);
    assert_eq!(mapped(0.175), 32);
}

#[test]
fn agrees_with_float_arithmetic_on_decimal_steps() {
    let mut i: u32 = 0;
    while i <= 100_000 {
        let value = i as f32 / 100_000.0;
        assert_eq!(mapped(value), by_floats(value), "at {}", value);
        i += 1;
    }
}

#[test]
fn agrees_with_float_arithmetic_across_the_live_range() {
    let mut bits = DEAD_ZONE_BITS - 1000;
    while bits <= FULL_SCALE_BITS {
        let value = f32::from_bits(bits);
        assert_eq!(angle_from_axis(bits).degrees(), by_floats(value), "at bits {:#x}", bits);
        bits += 97;
    }
}

#[test]
fn agrees_with_float_arithmetic_near_every_half_degree() {
    let mut k: u32 = 9;
    while k < 180 {
        let centre = ((k as f32 + 0.5) / 180.0).to_bits();
        let mut bits = centre - 64;
        while bits <= centre + 64 {
            let value = f32::from_bits(bits);
            assert_eq!(angle_from_axis(bits).degrees(), by_floats(value), "at bits {:#x}", bits);
            bits += 1;
        }
        k += 1;
    }
}

#[test]
fn agrees_with_float_arithmetic_around_powers_of_two() {
    for exponent in 122u32..=127 {
        let centre = exponent << 23;
        let mut bits = centre - 200;
        while bits <= centre + 200 {
            let value = f32::from_bits(bits);
            let expected = by_floats(value).min(180);
            assert_eq!(angle_from_axis(bits).degrees(), expected, "at bits {:#x}", bits);
            bits += 1;
        }
    }
}

#[test]
fn angle_never_decreases_as_the_reading_grows() {
    let mut bits = DEAD_ZONE_BITS - 10;
    let mut last = 0;
    while bits <= FULL_SCALE_BITS + 10 {
        let degrees = angle_from_axis(bits).degrees();
        assert!(degrees >= last);
        assert!(degrees <= 180);
        last = degrees;
        bits += 61;
    }
    assert_eq!(last, 180);
}
