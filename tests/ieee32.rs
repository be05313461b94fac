use tinyraytracer::ieee32::Ieee32;

fn v(x: f32) -> Ieee32 {
    Ieee32::from_bits(x.to_bits())
}

#[test]
fn comparisons_follow_ieee_order() {
    let values = [
        f32::NEG_INFINITY,
        -1.0e30,
        -2.5,
        -1.0e-45,
        0.0,
        1.0e-45,
        1.0e-38,
        0.5,
        1.0,
        3.25,
        1.0e30,
        f32::INFINITY,
    ];
    for a in values {
        for b in values {
            assert_eq!(v(a).lt(v(b)), a < b, "{} < {}", a, b);
            assert_eq!(v(a).le(v(b)), a <= b, "{} <= {}", a, b);
            assert_eq!(v(a).gt(v(b)), a > b, "{} > {}", a, b);
            assert_eq!(v(a).ge(v(b)), a >= b, "{} >= {}", a, b);
            assert_eq!(v(a).same_value(v(b)), a == b, "{} == {}", a, b);
        }
    }
}

#[test]
fn signed_zeros_are_equal() {
    assert!(v(-0.0).same_value(v(0.0)));
    assert!(!v(-0.0).lt(v(0.0)));
    assert!(v(-0.0).le(v(0.0)));
    assert!(!v(-0.0).is_positive());
    assert!(!v(0.0).is_positive());
}

#[test]
fn nan_compares_false() {
    let nan = v(f32::NAN);
    assert!(nan.is_nan());
    assert!(!v(1.0).is_nan());
    assert!(!v(f32::INFINITY).is_nan());
    for x in [nan, v(0.0), v(1.0), v(-1.0)] {
        assert!(!nan.lt(x));
        assert!(!nan.le(x));
        assert!(!x.lt(nan));
        assert!(!x.ge(nan));
        assert!(!nan.same_value(x));
    }
    assert!(!nan.is_positive());
}

#[test]
fn negation_flips_the_sign() {
    assert_eq!(f32::from_bits(v(2.5).neg().to_bits()), -2.5);
    assert_eq!(f32::from_bits(v(-7.0).neg().to_bits()), 7.0);
    assert_eq!(v(0.0).neg().to_bits(), (-0.0f32).to_bits());
    assert!(v(f32::NAN).neg().is_nan());
}

#[test]
fn min_and_max_ignore_nan() {
    let nan = v(f32::NAN);
    assert_eq!(v(1.0).min(v(2.0)), v(1.0));
    assert_eq!(v(1.0).max(v(2.0)), v(2.0));
    assert_eq!(nan.min(v(2.0)), v(2.0));
    assert_eq!(v(2.0).min(nan), v(2.0));
    assert_eq!(nan.max(v(-3.0)), v(-3.0));
    assert_eq!(v(-3.0).max(nan), v(-3.0));
}

#[test]
fn one_and_minus_one() {
    assert_eq!(f32::from_bits(Ieee32::one().to_bits()), 1.0);
    assert_eq!(f32::from_bits(Ieee32::minus_one().to_bits()), -1.0);
    assert_eq!(f32::from_bits(Ieee32::zero().to_bits()), 0.0);
}

#[test]
fn to_u8_saturates_like_a_cast() {
    let cases = [
        0.0f32, 0.99, 1.0, 12.7, 127.5, 254.99, 255.0, 255.9, 256.0, 1.0e9, -0.5, -3.5, -1.0e9,
        1.0e-40,
    ];
    for x in cases {
        assert_eq!(v(x).to_u8(), x as u8, "{}", x);
    }
    assert_eq!(v(f32::INFINITY).to_u8(), 255);
    assert_eq!(v(f32::NEG_INFINITY).to_u8(), 0);
    assert_eq!(v(f32::NAN).to_u8(), 0);
}

#[test]
fn to_u32_saturates_like_a_cast() {
    let cases = [0.0f32, 0.4, 767.9, 1023.0, 16777216.0, 4.0e9, 5.0e9, 1.0e20, -1.0, -0.0];
    for x in cases {
        assert_eq!(v(x).to_u32(), x as u32, "{}", x);
    }
    assert_eq!(v(f32::INFINITY).to_u32(), u32::MAX);
    assert_eq!(v(f32::NAN).to_u32(), 0);
}

#[test]
fn floor_i32_rounds_down_and_saturates() {
    let cases = [
        (0.0f32, 0i32),
        (-0.0, 0),
        (0.5, 0),
        (-0.5, -1),
        (3.9, 3),
        (-2.0, -2),
        (-2.25, -3),
        (1000.5, 1000),
        (-1.0e-40, -1),
        (8388607.5, 8388607),
        (-8388607.5, -8388608),
        (16777216.0, 16777216),
        (1.0e20, i32::MAX),
        (-1.0e20, i32::MIN),
        (-2147483648.0, i32::MIN),
    ];
    for (x, expected) in cases {
        assert_eq!(v(x).floor_i32(), expected, "{}", x);
    }
    assert_eq!(v(f32::NAN).floor_i32(), 0);
    assert_eq!(v(f32::NEG_INFINITY).floor_i32(), i32::MIN);
}
