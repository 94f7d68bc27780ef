use ray_tracer::scalar::Scalar;
use std::ops::{Add, Div, Mul, Neg, Sub};

fn number(x: f64) -> Scalar {
    Scalar::from_bits(x.to_bits())
}

fn float(s: Scalar) -> f64 {
    f64::from_bits(s.bits())
}

/// Whether the library's pattern stands for the same value as the float:
/// the same bits, or both no number.
fn agrees(s: Scalar, x: f64) -> bool {
    (x.is_nan() && s.is_nan()) || s.bits() == x.to_bits()
}

fn samples() -> Vec<f64> {
    let mut list = vec![
        0.0,
        -0.0,
        1.0,
        -1.0,
        2.0,
        0.5,
        3.0,
        10.0,
        0.1,
        0.2,
        0.3,
        1.0 / 3.0,
        -2.5,
        1e-8,
        1e8,
        123456.789,
        -0.000123,
        std::f64::consts::PI,
        std::f64::consts::E,
        1.5,
        0.04,
        0.6,
        0.8,
        4.0,
        9.0,
        1e-300,
        1e300,
        -1e300,
        1e-310,
        -3e-320,
        5e-324,
        f64::MIN_POSITIVE,
        f64::MAX,
        f64::MIN,
        f64::EPSILON,
        1.0 + f64::EPSILON,
        1.0 - f64::EPSILON / 2.0,
        f64::INFINITY,
        f64::NEG_INFINITY,
        f64::NAN,
        9007199254740992.0,
        9007199254740993.0,
        4503599627370497.5,
        0.9999999999999999,
        2.2250738585072009e-308,
        1.7976931348623157e308,
        6.0e153,
        1.3e154,
        7.0e-155,
    ];
    let mut state: u64 = 0x9e3779b97f4a7c15;
    for _ in 0..60 {
        state ^= state << 13;
        state ^= state >> 7;
        state ^= state << 17;
        list.push(f64::from_bits(state));
        let near_one = 0x3fe0_0000_0000_0000u64 + (state >> 12);
        list.push(f64::from_bits(near_one));
        list.push(-f64::from_bits(near_one >> 1 | 0x3000_0000_0000_0000));
    }
    list
}

#[test]
fn sums_match_the_hardware() {
    for &a in &samples() {
        for &b in &samples() {
            let got = number(a).add(number(b));
            assert!(agrees(got, a + b), "{:e} + {:e}: {:x} against {:x}", a, b, got.bits(), (a + b).to_bits());
            assert!(agrees(number(a) + number(b), a + b));
        }
    }
}

#[test]
fn differences_match_the_hardware() {
    for &a in &samples() {
        for &b in &samples() {
            let got = number(a).sub(number(b));
            assert!(agrees(got, a - b), "{:e} - {:e}: {:x} against {:x}", a, b, got.bits(), (a - b).to_bits());
        }
    }
}

#[test]
fn products_match_the_hardware() {
    for &a in &samples() {
        for &b in &samples() {
            let got = number(a).mul(number(b));
            assert!(agrees(got, a * b), "{:e} * {:e}: {:x} against {:x}", a, b, got.bits(), (a * b).to_bits());
        }
    }
}

#[test]
fn ratios_match_the_hardware() {
    for &a in &samples() {
        for &b in &samples() {
            let got = number(a).div(number(b));
            assert!(agrees(got, a / b), "{:e} / {:e}: {:x} against {:x}", a, b, got.bits(), (a / b).to_bits());
        }
    }
}

#[test]
fn square_roots_match_the_hardware() {
    for &a in &samples() {
        let got = number(a).sqrt();
        assert!(agrees(got, a.sqrt()), "sqrt {:e}: {:x} against {:x}", a, got.bits(), a.sqrt().to_bits());
        let got = number(a.abs()).sqrt();
        assert!(agrees(got, a.abs().sqrt()), "sqrt {:e}", a.abs());
    }
}

#[test]
fn floors_match_the_hardware() {
    for &a in &samples() {
        assert!(agrees(number(a).floor(), a.floor()), "floor {:e}", a);
    }
    for a in [0.5, -0.5, 1.5, -1.5, 2.0, -2.0, 255.9, -256.1, 1e15 + 0.5, -1e15 - 0.5, 0.999, -0.001] {
        assert!(agrees(number(a).floor(), a.floor()), "floor {:e}", a);
    }
}

#[test]
fn comparisons_match_the_hardware() {
    for &a in &samples() {
        for &b in &samples() {
            assert_eq!(number(a).lt(number(b)), a < b, "{:e} < {:e}", a, b);
            assert_eq!(number(a).le(number(b)), a <= b);
            assert_eq!(number(a).gt(number(b)), a > b);
            assert_eq!(number(a).ge(number(b)), a >= b);
            assert_eq!(number(a) == number(b), a == b);
            assert!(agrees(number(a).min(number(b)), a.min(b)) || (a == 0.0 && b == 0.0));
            assert!(agrees(number(a).max(number(b)), a.max(b)) || (a == 0.0 && b == 0.0));
        }
    }
}

#[test]
fn signs_match_the_hardware() {
    for &a in &samples() {
        assert_eq!(number(a).neg().bits(), (-a).to_bits());
        assert_eq!((-number(a)).bits(), (-a).to_bits());
        assert_eq!(number(a).abs().bits(), a.abs().to_bits());
        assert_eq!(number(a).is_nan(), a.is_nan());
        assert_eq!(number(a).is_sign_negative(), a.is_sign_negative());
        assert_eq!(number(a).with_sign(true).bits(), (-a.abs()).to_bits());
    }
}

#[test]
fn whole_numbers_convert_exactly() {
    for n in [0, 1, -1, 2, 10, 255, -256, 1000000, i32::MAX, i32::MIN] {
        assert_eq!(Scalar::from_int(n).bits(), (n as f64).to_bits());
    }
    for n in [0u64, 1, 3, 9007199254740992, 9007199254740993, u64::MAX, 1 << 63] {
        assert_eq!(Scalar::from_count(n).bits(), (n as f64).to_bits());
    }
    assert_eq!(Scalar::zero().bits(), 0.0_f64.to_bits());
    assert_eq!(Scalar::one().bits(), 1.0_f64.to_bits());
    assert_eq!(Scalar::pi().bits(), std::f64::consts::PI.to_bits());
}

#[test]
fn division_by_zero_is_not_finite() {
    assert_eq!(float(number(1.0).div(number(0.0))), f64::INFINITY);
    assert_eq!(float(number(-1.0).div(number(0.0))), f64::NEG_INFINITY);
    assert!(number(0.0).div(number(0.0)).is_nan());
    assert!(number(-4.0).sqrt().is_nan());
}

#[test]
fn sine_matches_the_hardware_closely() {
    let mut x = -20.0;
    while x < 20.0 {
        let got = float(number(x).sin());
        assert!((got - f64::sin(x)).abs() < 1e-13, "sin({}) = {}", x, got);
        x += 0.0371;
    }
    assert_eq!(float(number(0.0).sin()), 0.0);
    assert!(number(f64::NAN).sin().is_nan());
    assert!(number(f64::INFINITY).sin().is_nan());
}

#[test]
fn arctangent_matches_the_hardware_closely() {
    let mut angle = -3.14;
    while angle < 3.14 {
        let (y, x) = (2.0 * f64::sin(angle), 2.0 * f64::cos(angle));
        let got = float(number(y).atan2(number(x)));
        assert!((got - f64::atan2(y, x)).abs() < 1e-13, "atan2 at {} = {}", angle, got);
        angle += 0.0517;
    }
    for (y, x) in [(0.0, 0.0), (0.0, 1.0), (0.0, -1.0), (1.0, 0.0), (-1.0, 0.0), (-0.0, -1.0), (1.0, 1.0), (-1.0, -1.0)] {
        let got = float(number(y).atan2(number(x)));
        assert!((got - f64::atan2(y, x)).abs() < 1e-15, "atan2({}, {}) = {}", y, x, got);
    }
}

#[test]
fn arccosine_matches_the_hardware_closely() {
    let mut c = -1.0;
    while c <= 1.0 {
        let got = float(number(c).acos());
        assert!((got - f64::acos(c)).abs() < 1e-13, "acos({}) = {}", c, got);
        c += 0.03125;
    }
    assert!(number(1.5).acos().is_nan());
    assert_eq!(float(number(1.0).acos()), 0.0);
}

#[test]
fn fifth_power_multiplies_five_times() {
    for x in [0.0, 0.5, 0.7, 1.0, -2.0, 1e-3] {
        let got = float(number(x).fifth_power());
        assert!((got - f64::powi(x, 5)).abs() <= 1e-15 * f64::powi(x, 5).abs());
    }
}

#[test]
fn sine_is_odd_and_bounded() {
    let mut x = 0.0;
    while x < 40.0 {
        let s = number(x).sin();
        assert_eq!(number(-x).sin().bits(), s.neg().bits());
        assert!(float(s) >= -1.0 && float(s) <= 1.0);
        x += 0.173;
    }
    for x in [1e10, 1e100, 1e300, -1e300, f64::MAX] {
        let s = float(number(x).sin());
        assert!(s >= -1.0 && s <= 1.0);
    }
}

#[test]
fn angles_are_bounded() {
    for y in [-1e300, -3.0, -1e-300, -0.0, 0.0, 1e-300, 0.5, 1e300, f64::INFINITY] {
        for x in [-1e300, -3.0, -1e-300, -0.0, 0.0, 1e-300, 0.5, 1e300, f64::NEG_INFINITY] {
            let a = float(number(y).atan2(number(x)));
            assert!(a >= -std::f64::consts::PI && a <= std::f64::consts::PI);
            assert_eq!(a.is_sign_negative(), y.is_sign_negative());
            assert!((a - f64::atan2(y, x)).abs() < 1e-15, "atan2({}, {}) = {}", y, x, a);
        }
    }
    for c in [-1.0, -0.5, 0.0, 0.3, 1.0] {
        let a = float(number(c).acos());
        assert!(a >= 0.0 && a <= std::f64::consts::PI);
    }
}

#[test]
fn infinite_numbers_are_told_apart() {
    assert!(number(f64::INFINITY).is_infinite());
    assert!(number(f64::NEG_INFINITY).is_infinite());
    assert!(!number(f64::MAX).is_infinite());
    assert!(!number(f64::NAN).is_infinite());
    assert!(!number(0.0).is_infinite());
}

#[test]
fn integer_square_roots_round_down() {
    for n in [0u128, 1, 2, 3, 4, 15, 16, 17, 1 << 64, (1 << 64) - 1, u128::MAX, 10u128.pow(30)] {
        let r = ray_tracer::scalar::floor_sqrt(n);
        assert!(r * r <= n);
        assert!(r == u64::MAX as u128 || (r + 1) * (r + 1) > n);
    }
}
