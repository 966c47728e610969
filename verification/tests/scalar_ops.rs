use sonny::scalar::{
    abs_bits, add_bits, ceil_bits, cos_bits, div_bits, eq_bits, floor_bits, is_finite_bits,
    is_int_bits, is_nan_bits, is_odd_int_bits, le_bits, ln_bits, lt_bits, max_bits, min_bits,
    mul_bits, neg_bits, powf_bits, rem_bits, sin_bits, sub_bits, trunc_bits, u64_to_bits,
    F64_INF, F64_NAN, F64_NEG_INF, F64_ONE, F64_ZERO,
};

fn b(x: f64) -> u64 {
    x.to_bits()
}

#[test]
fn addition_matches_hardware() {
    assert_eq!(add_bits(b(1.0), b(2.0)), b(3.0));
    assert_eq!(add_bits(b(0.1), b(0.2)), b(0.1 + 0.2));
    assert_eq!(add_bits(b(1.0e308), b(1.0e308)), F64_INF);
}

#[test]
fn subtraction_multiplication_division() {
    assert_eq!(sub_bits(b(5.5), b(2.25)), b(3.25));
    assert_eq!(mul_bits(b(3.0), b(7.0)), b(21.0));
    assert_eq!(div_bits(b(1.0), b(3.0)), b(1.0 / 3.0));
    assert_eq!(div_bits(b(1.0), F64_ZERO), F64_INF);
    assert!(is_nan_bits(div_bits(F64_ZERO, F64_ZERO)));
}

#[test]
fn remainder_is_fmod() {
    assert_eq!(rem_bits(b(7.5), b(2.0)), b(7.5 % 2.0));
    assert_eq!(rem_bits(b(-7.5), b(2.0)), b(-7.5 % 2.0));
    assert!(is_nan_bits(rem_bits(b(1.0), F64_ZERO)));
}

#[test]
fn comparisons_follow_ieee() {
    assert!(lt_bits(b(-1.0), b(1.0)));
    assert!(!lt_bits(b(1.0), b(-1.0)));
    assert!(!lt_bits(F64_ZERO, b(-0.0)));
    assert!(!lt_bits(b(-0.0), F64_ZERO));
    assert!(eq_bits(F64_ZERO, b(-0.0)));
    assert!(!eq_bits(F64_NAN, F64_NAN));
    assert!(!lt_bits(F64_NAN, b(1.0)));
    assert!(le_bits(b(2.0), b(2.0)));
    assert!(lt_bits(F64_NEG_INF, F64_INF));
}

#[test]
fn negation_and_absolute_value() {
    assert_eq!(neg_bits(b(1.5)), b(-1.5));
    assert_eq!(neg_bits(F64_ZERO), b(-0.0));
    assert_eq!(abs_bits(b(-2.5)), b(2.5));
    assert_eq!(abs_bits(b(2.5)), b(2.5));
}

#[test]
fn min_max_ignore_nan() {
    assert_eq!(min_bits(b(1.0), b(2.0)), b(1.0));
    assert_eq!(max_bits(b(1.0), b(2.0)), b(2.0));
    assert_eq!(min_bits(F64_NAN, b(2.0)), b(2.0));
    assert_eq!(max_bits(b(3.0), F64_NAN), b(3.0));
}

#[test]
fn truncation_saturates() {
    assert_eq!(trunc_bits(b(3.9)), 3);
    assert_eq!(trunc_bits(b(-3.9)), 0);
    assert_eq!(trunc_bits(F64_NAN), 0);
    assert_eq!(trunc_bits(F64_INF), u64::MAX);
    assert_eq!(trunc_bits(b(0.5)), 0);
    assert_eq!(trunc_bits(b(1.0e19)), 10_000_000_000_000_000_000u64);
}

#[test]
fn integer_classification() {
    assert!(is_int_bits(b(4.0)));
    assert!(is_odd_int_bits(b(3.0)));
    assert!(!is_odd_int_bits(b(4.0)));
    assert!(!is_int_bits(b(4.5)));
    assert!(is_odd_int_bits(b(-7.0)));
    assert!(is_int_bits(b(9007199254740993.0)));
}

#[test]
fn conversion_from_integer() {
    assert_eq!(u64_to_bits(0), F64_ZERO);
    assert_eq!(u64_to_bits(1), F64_ONE);
    assert_eq!(u64_to_bits(48000), b(48000.0));
}

#[test]
fn floor_and_ceiling() {
    assert_eq!(floor_bits(b(2.7)), b(2.0));
    assert_eq!(floor_bits(b(-2.1)), b(-3.0));
    assert_eq!(ceil_bits(b(2.1)), b(3.0));
    assert_eq!(ceil_bits(b(-2.7)), b(-2.0));
}

#[test]
fn sine_and_cosine() {
    assert_eq!(sin_bits(F64_ZERO), F64_ZERO);
    assert_eq!(cos_bits(F64_ZERO), F64_ONE);
    assert!(is_nan_bits(sin_bits(F64_INF)));
    let s = f64::from_bits(sin_bits(b(1.0)));
    assert!((s - 1.0f64.sin()).abs() < 1.0e-12);
    let c = f64::from_bits(cos_bits(b(2.0)));
    assert!((c - 2.0f64.cos()).abs() < 1.0e-12);
}

#[test]
fn natural_logarithm() {
    assert_eq!(ln_bits(F64_ONE), F64_ZERO);
    assert_eq!(ln_bits(F64_ZERO), F64_NEG_INF);
    assert!(is_nan_bits(ln_bits(b(-1.0))));
    assert_eq!(ln_bits(F64_INF), F64_INF);
    let l = f64::from_bits(ln_bits(b(10.0)));
    assert!((l - 10.0f64.ln()).abs() < 1.0e-12);
}

#[test]
fn power_edge_table() {
    assert_eq!(powf_bits(F64_NAN, F64_ZERO), F64_ONE);
    assert_eq!(powf_bits(F64_ONE, F64_NAN), F64_ONE);
    assert!(is_nan_bits(powf_bits(b(-2.0), b(0.5))));
    assert_eq!(powf_bits(F64_ZERO, b(-1.0)), F64_INF);
    assert_eq!(powf_bits(b(2.0), F64_INF), F64_INF);
    assert_eq!(powf_bits(b(0.5), F64_INF), F64_ZERO);
}

#[test]
fn power_of_integers() {
    assert_eq!(powf_bits(b(2.0), b(10.0)), b(1024.0));
    assert_eq!(powf_bits(b(-2.0), b(3.0)), b(-8.0));
    assert_eq!(powf_bits(b(-2.0), b(2.0)), b(4.0));
}

#[test]
fn power_square_root() {
    assert_eq!(powf_bits(b(4.0), b(0.5)), b(2.0));
}

#[test]
fn power_of_large_base() {
    assert!(is_finite_bits(powf_bits(b(1.0e300), b(1.01))));
}
