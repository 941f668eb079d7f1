use battery_indicator::percent::{Percent, FRACTION_SPAN, INFINITY_BITS, SIGN_BIT};

fn notable_values() -> Vec<f32> {
    vec![
        0.0,
        -0.0,
        f32::from_bits(1),
        -f32::from_bits(1),
        f32::from_bits(0x007f_ffff),
        f32::MIN_POSITIVE,
        -f32::MIN_POSITIVE,
        0.5,
        1.0,
        -1.0,
        1.5,
        15.0,
        18.0,
        19.0,
        f32::from_bits(20.0f32.to_bits() - 1),
        20.0,
        f32::from_bits(20.0f32.to_bits() + 1),
        25.0,
        99.999,
        100.0,
        -100.0,
        16_777_216.0,
        16_777_218.0,
        f32::MAX,
        f32::MIN,
        f32::INFINITY,
        f32::NEG_INFINITY,
        f32::NAN,
        -f32::NAN,
        f32::from_bits(0x7f80_0001),
        f32::from_bits(0xffff_ffff),
    ]
}

#[test]
fn less_than_orders_bit_patterns_as_the_numbers_are_ordered() {
    let values = notable_values();
    for a in &values {
        for b in &values {
            let left = Percent::from_bits(a.to_bits());
            let right = Percent::from_bits(b.to_bits());
            assert_eq!(left.less_than(right), a < b, "{:?} < {:?}", a, b);
        }
    }
}

#[test]
fn less_than_agrees_with_the_numbers_on_a_sweep_of_patterns() {
    // A stride that walks through every exponent and both signs.
    let mut patterns: Vec<u32> = Vec::new();
    let mut bits: u32 = 0;
    loop {
        patterns.push(bits);
        match bits.checked_add(0x0123_4567) {
            Some(next) => bits = next,
            None => break,
        }
    }
    for a in &patterns {
        for b in &patterns {
            let expected = f32::from_bits(*a) < f32::from_bits(*b);
            assert_eq!(Percent::from_bits(*a).less_than(Percent::from_bits(*b)), expected);
        }
    }
}

#[test]
fn is_nan_tells_the_patterns_that_are_no_number() {
    for value in notable_values() {
        assert_eq!(Percent::from_bits(value.to_bits()).is_nan(), value.is_nan(), "{:?}", value);
    }
}

#[test]
fn nothing_is_below_itself() {
    for value in notable_values() {
        let p = Percent::from_bits(value.to_bits());
        assert!(!p.less_than(p));
    }
}

#[test]
fn both_zeros_are_one_value() {
    let plus = Percent::from_bits(0.0f32.to_bits());
    let minus = Percent::from_bits((-0.0f32).to_bits());
    assert!(!plus.less_than(minus));
    assert!(!minus.less_than(plus));
}

#[test]
fn from_bits_and_bits_are_inverse() {
    for bits in [0u32, 1, 0x41a0_0000, 0x7f80_0000, 0x8000_0000, u32::MAX] {
        assert_eq!(Percent::from_bits(bits).bits(), bits);
    }
}

#[test]
fn twenty_percent_is_below_twenty_five_and_not_below_eighteen() {
    let twenty = Percent::from_bits(20.0f32.to_bits());
    assert!(twenty.less_than(Percent::from_bits(25.0f32.to_bits())));
    assert!(!twenty.less_than(Percent::from_bits(18.0f32.to_bits())));
    assert_eq!(twenty.bits(), 0x41a0_0000);
}

#[test]
fn bit_layout_constants_match_the_format() {
    assert_eq!(SIGN_BIT, (-0.0f32).to_bits());
    assert_eq!(INFINITY_BITS, f32::INFINITY.to_bits());
    assert_eq!(FRACTION_SPAN, 1u32 << (f32::MANTISSA_DIGITS - 1));
}
