use std::cmp::Ordering;

use sp_app::sample::{is_at_least, widen};
use sp_app::workers::analysis::{my_f64_cmp, widen_all};

const SINGLES: [f32; 18] = [
    0.0,
    -0.0,
    1.0,
    -1.0,
    0.1,
    -0.7,
    3.0e38,
    1.5e-45,
    -1.5e-45,
    1.0e-40,
    1.1754942e-38,
    1.17549435e-38,
    f32::MAX,
    f32::MIN,
    f32::MIN_POSITIVE,
    f32::EPSILON,
    f32::INFINITY,
    f32::NEG_INFINITY,
];

#[test]
fn widened_singles_equal_the_singles() {
    for s in SINGLES {
        assert_eq!(widen(s.to_bits()), f64::from(s).to_bits(), "{s:?}");
    }
}

#[test]
fn widens_every_exponent() {
    for exponent in 0..255u32 {
        for fraction in [0u32, 1, 2, 3, 0x1234, 0x3f_ffff, 0x40_0000, 0x7f_fffe, 0x7f_ffff] {
            for sign in [0u32, 1 << 31] {
                let bits = sign | (exponent << 23) | fraction;
                assert_eq!(widen(bits), f64::from(f32::from_bits(bits)).to_bits(), "{bits:#x}");
            }
        }
    }
}

#[test]
fn widened_nan_is_nan() {
    for bits in [f32::NAN.to_bits(), 0x7f80_0001, 0xffff_ffff] {
        assert!(f64::from_bits(widen(bits)).is_nan());
    }
}

#[test]
fn widening_keeps_order() {
    for a in SINGLES {
        for b in SINGLES {
            assert_eq!(is_at_least(widen(a.to_bits()), widen(b.to_bits())), a >= b);
        }
    }
}

#[test]
fn widens_slices_in_order() {
    let narrow: Vec<u32> = SINGLES.iter().map(|s| s.to_bits()).collect();
    let wide: Vec<u64> = SINGLES.iter().map(|s| f64::from(*s).to_bits()).collect();
    assert_eq!(widen_all(&narrow), wide);
    assert_eq!(widen_all(&[]), Vec::<u64>::new());
}

const DOUBLES: [f64; 16] = [
    0.0,
    -0.0,
    1.0,
    -1.0,
    0.1,
    1.0e300,
    -1.0e300,
    5.0e-324,
    -5.0e-324,
    f64::MAX,
    f64::MIN,
    f64::MIN_POSITIVE,
    f64::EPSILON,
    f64::INFINITY,
    f64::NEG_INFINITY,
    f64::NAN,
];

#[test]
fn bits_compare_as_the_numbers_do() {
    for a in DOUBLES {
        for b in DOUBLES {
            assert_eq!(is_at_least(a.to_bits(), b.to_bits()), a >= b, "{a} >= {b}");
        }
    }
}

#[test]
fn larger_magnitudes_come_first() {
    let order = |a: f64, b: f64| my_f64_cmp(a.to_bits(), b.to_bits());
    assert_eq!(order(1.0, 2.0), Ordering::Greater);
    assert_eq!(order(2.0, 1.0), Ordering::Less);
    assert_eq!(order(1.0, 1.0), Ordering::Greater);
    assert_eq!(order(0.0, -0.0), Ordering::Greater);
    assert_eq!(order(f64::NAN, 1.0), Ordering::Less);
    assert_eq!(order(1.0, f64::NAN), Ordering::Less);
    assert_eq!(order(f64::NAN, f64::NAN), Ordering::Less);
    assert_eq!(order(f64::NEG_INFINITY, f64::INFINITY), Ordering::Greater);
}
