use recolor::distance::{Distance, BLEND_THRESHOLD_BITS, INFINITY_BITS};

fn distance(value: f32) -> Distance {
    Distance::from_bits(value.to_bits()).unwrap()
}

#[test]
fn threshold_constant_is_the_nearest_single_precision_number() {
    assert_eq!(BLEND_THRESHOLD_BITS, 8.936723f32.to_bits());
    assert_eq!(f32::from_bits(BLEND_THRESHOLD_BITS) as f64, 9370833.0 / 1048576.0);
}

#[test]
fn infinity_constant_is_the_pattern_of_infinity() {
    assert_eq!(INFINITY_BITS, f32::INFINITY.to_bits());
}

#[test]
fn zero_is_the_pattern_of_zero() {
    assert_eq!(Distance::zero().to_bits(), 0.0f32.to_bits());
    assert_eq!(Distance::zero(), distance(0.0));
}

#[test]
fn bits_round_trip() {
    for value in [0.0f32, 1.0e-40, 0.5, 1.0, 8.936723, 100.0, 374.5, f32::MAX] {
        assert_eq!(distance(value).to_bits(), value.to_bits());
        assert_eq!(f32::from_bits(distance(value).to_bits()), value);
    }
}

#[test]
fn negative_numbers_are_no_distance() {
    assert_eq!(Distance::from_bits((-1.0f32).to_bits()), None);
    assert_eq!(Distance::from_bits((-0.0f32).to_bits()), None);
    assert_eq!(Distance::from_bits(f32::MIN.to_bits()), None);
    assert_eq!(Distance::from_bits(u32::MAX), None);
}

#[test]
fn infinity_and_nan_are_no_distance() {
    assert_eq!(Distance::from_bits(f32::INFINITY.to_bits()), None);
    assert_eq!(Distance::from_bits(f32::NEG_INFINITY.to_bits()), None);
    assert_eq!(Distance::from_bits(f32::NAN.to_bits()), None);
    assert_eq!(Distance::from_bits(0x7F80_0001), None);
}

#[test]
fn largest_finite_number_is_a_distance() {
    assert!(Distance::from_bits(f32::MAX.to_bits()).is_some());
    assert!(Distance::from_bits(INFINITY_BITS - 1).is_some());
}

#[test]
fn order_is_the_order_of_the_numbers() {
    let values = [0.0f32, 1.0e-45, 1.0e-40, 1.1754944e-38, 0.001, 0.5, 0.99999994, 1.0, 1.0000001,
        2.0, 8.936722, 8.936723, 8.936724, 9.0, 16.0, 255.0, 1.0e10, f32::MAX];
    for a in values {
        for b in values {
            assert_eq!(distance(a).is_below(&distance(b)), a < b);
        }
    }
}

#[test]
fn nothing_is_below_zero() {
    for value in [0.0f32, 1.0e-45, 1.0, f32::MAX] {
        assert!(!distance(value).is_below(&Distance::zero()));
    }
    assert!(Distance::zero().is_below(&distance(1.0e-45)));
}

#[test]
fn threshold_is_reached_from_the_threshold_on() {
    assert!(distance(8.936723).reaches_blend_threshold());
    assert!(distance(8.936724).reaches_blend_threshold());
    assert!(distance(9.0).reaches_blend_threshold());
    assert!(distance(100.0).reaches_blend_threshold());
    assert!(distance(f32::MAX).reaches_blend_threshold());
}

#[test]
fn threshold_is_not_reached_below_it() {
    assert!(!distance(0.0).reaches_blend_threshold());
    assert!(!distance(1.0).reaches_blend_threshold());
    assert!(!distance(8.0).reaches_blend_threshold());
    assert!(!distance(8.936722).reaches_blend_threshold());
    assert!(!Distance::from_bits(BLEND_THRESHOLD_BITS - 1).unwrap().reaches_blend_threshold());
}

#[test]
fn threshold_agrees_with_the_comparison_of_numbers() {
    let mut bits: u32 = BLEND_THRESHOLD_BITS - 1000;
    while bits < BLEND_THRESHOLD_BITS + 1000 {
        let value = f32::from_bits(bits);
        assert_eq!(distance(value).reaches_blend_threshold(), value >= 8.936723f32);
        bits += 1;
    }
}
