use gizmo::number::{EPSILON_BITS, HIDDEN_BIT, INFINITY_BITS, ONE_BITS, SIGN_BIT};
use gizmo::Number;

fn n(x: f64) -> Number {
    Number { bits: x.to_bits() }
}

fn samples() -> Vec<f64> {
    let mut v = vec![
        0.0,
        -0.0,
        1.0,
        -1.0,
        0.5,
        -0.5,
        0.999_999_999,
        1.5,
        2.0,
        2.5,
        3.7,
        -3.7,
        127.0,
        128.0,
        255.9,
        1e9,
        -1e9,
        2147483646.5,
        2147483647.0,
        2147483648.0,
        2147483649.0,
        -2147483648.0,
        -2147483649.0,
        -2147483648.5,
        4294967295.0,
        4294967296.0,
        4503599627370496.0,
        9007199254740992.0,
        9007199254740993.0,
        1.8446744073709552e19,
        1.8446744073709550e19,
        9.223372036854775e18,
        9.223372036854776e18,
        1e300,
        -1e300,
        f64::MAX,
        f64::MIN,
        f64::MIN_POSITIVE,
        5e-324,
        -5e-324,
        f64::EPSILON,
        f64::INFINITY,
        f64::NEG_INFINITY,
        f64::NAN,
        -f64::NAN,
    ];
    let mut x = 1.0f64;
    for _ in 0..80 {
        v.push(x);
        v.push(-x);
        v.push(x + 0.5);
        v.push(x - 0.25);
        x *= 2.0;
    }
    v
}

#[test]
fn constants_are_the_patterns_they_name() {
    assert_eq!(SIGN_BIT, (-0.0f64).to_bits());
    assert_eq!(INFINITY_BITS, f64::INFINITY.to_bits());
    assert_eq!(ONE_BITS, 1.0f64.to_bits());
    assert_eq!(EPSILON_BITS, f64::EPSILON.to_bits());
    assert_eq!(HIDDEN_BIT, 1u64 << 52);
}

#[test]
fn zero_test_agrees_with_comparison_to_zero() {
    for x in samples() {
        assert_eq!(n(x).zero(), x == 0.0, "{}", x);
    }
}

#[test]
fn nan_test_agrees() {
    for x in samples() {
        assert_eq!(n(x).nan(), x.is_nan(), "{}", x);
    }
}

#[test]
fn order_agrees_with_float_order() {
    for a in samples() {
        for b in samples() {
            assert_eq!(n(a).less_than(n(b)), a < b, "{} < {}", a, b);
            assert_eq!(n(a).at_most(n(b)), a <= b, "{} <= {}", a, b);
        }
    }
}

#[test]
fn negation_and_absolute_value_agree() {
    for x in samples() {
        assert_eq!(n(x).negated().bits, (-x).to_bits(), "{}", x);
        assert_eq!(n(x).absolute().bits, x.abs().to_bits(), "{}", x);
    }
}

#[test]
fn from_bool_is_one_or_zero() {
    assert_eq!(Number::from_bool(true), n(1.0));
    assert_eq!(Number::from_bool(false), n(0.0));
}

#[test]
fn conversion_to_u64_agrees_with_the_cast() {
    for x in samples() {
        assert_eq!(n(x).to_u64(), x as u64, "{}", x);
    }
}

#[test]
fn conversion_to_index_agrees_with_the_cast() {
    for x in samples() {
        assert_eq!(n(x).to_index(), x as usize, "{}", x);
    }
}

#[test]
fn conversion_to_i32_agrees_with_the_cast() {
    for x in samples() {
        assert_eq!(n(x).to_i32(), x as i32, "{}", x);
    }
}

#[test]
fn conversions_round_toward_zero_and_saturate() {
    assert_eq!(n(3.7).to_index(), 3);
    assert_eq!(n(-3.7).to_index(), 0);
    assert_eq!(n(-3.7).to_i32(), -3);
    assert_eq!(n(f64::NAN).to_index(), 0);
    assert_eq!(n(f64::NAN).to_i32(), 0);
    assert_eq!(n(f64::INFINITY).to_u64(), u64::MAX);
    assert_eq!(n(f64::NEG_INFINITY).to_i32(), i32::MIN);
    assert_eq!(n(1e30).to_i32(), i32::MAX);
    assert_eq!(n(50000.0).to_u64(), 50000);
}

#[test]
fn conversion_from_integers_agrees_with_the_cast() {
    let mut values: Vec<u64> = vec![
        0,
        1,
        2,
        3,
        7,
        8,
        100,
        1000,
        u32::MAX as u64,
        (1 << 52) - 1,
        1 << 52,
        (1 << 52) + 1,
        (1 << 53) - 1,
        1 << 53,
        (1 << 53) + 1,
        (1 << 53) + 2,
        (1 << 53) + 3,
        (1 << 54) + 1,
        (1 << 54) + 2,
        (1 << 54) + 3,
        (1 << 54) + 5,
        (1 << 54) + 6,
        (1 << 54) + 7,
        (1 << 63) - 1,
        1 << 63,
        (1 << 63) + 1023,
        (1 << 63) + 1024,
        (1 << 63) + 1025,
        (1 << 63) + 3072,
        u64::MAX - 2048,
        u64::MAX - 1024,
        u64::MAX - 1023,
        u64::MAX - 1,
        u64::MAX,
        1_700_000_000_000,
    ];
    let mut x: u64 = 1;
    for i in 0..64 {
        values.push(x);
        values.push(x.wrapping_mul(3));
        values.push(x.wrapping_mul(0x9E37_79B9_7F4A_7C15).rotate_left(i));
        values.push(x - 1);
        values.push(x | (x >> 53));
        values.push(x | (x >> 53) | 1);
        values.push(x | (x >> 54));
        values.push(x | (x >> 54) | (x >> 53));
        x = x.wrapping_mul(2);
    }
    for v in values {
        assert_eq!(Number::from_integer(v).bits, (v as f64).to_bits(), "{}", v);
    }
}

#[test]
fn small_integers_survive_the_trip_to_a_number_and_back() {
    for v in [0u64, 1, 2, 3, 127, 128, 1 << 20, (1 << 53) - 1, 1 << 53] {
        assert_eq!(Number::from_integer(v).to_u64(), v);
    }
}
