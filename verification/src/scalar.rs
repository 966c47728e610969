//! Scalars of the value algebra: IEEE-754 binary64 numbers, represented by
//! their bit patterns as `u64`.
//!
//! What is exactly definable on bit patterns (classification, comparison,
//! negation, absolute value, minimum/maximum, truncation to an integer) is
//! implemented and verified here. Rounding arithmetic is performed by the
//! software floating-point crate `rustc_apfloat` behind trusted wrappers,
//! and the transcendental functions by `astro-float`, each result bound to
//! an uninterpreted name so that callers' contracts stay exact.

use rustc_apfloat::Float;
use std::str::FromStr;
use vstd::prelude::*;

verus! {

/// Sign bit of a binary64 bit pattern.
pub const F64_SIGN_MASK: u64 = 0x8000_0000_0000_0000;

/// Exponent field of a binary64 bit pattern.
pub const F64_EXP_MASK: u64 = 0x7FF0_0000_0000_0000;

/// Significand field of a binary64 bit pattern.
pub const F64_FRAC_MASK: u64 = 0x000F_FFFF_FFFF_FFFF;

/// Bits of positive zero.
pub const F64_ZERO: u64 = 0;

/// Bits of negative zero.
pub const F64_NEG_ZERO: u64 = 0x8000_0000_0000_0000;

/// Bits of 1.0.
pub const F64_ONE: u64 = 0x3FF0_0000_0000_0000;

/// Bits of the canonical quiet NaN.
pub const F64_NAN: u64 = 0x7FF8_0000_0000_0000;

/// Bits of positive infinity.
pub const F64_INF: u64 = 0x7FF0_0000_0000_0000;

/// Bits of negative infinity.
pub const F64_NEG_INF: u64 = 0xFFF0_0000_0000_0000;

pub open spec fn sign_of(b: u64) -> bool {
    b & F64_SIGN_MASK == F64_SIGN_MASK
}

/// Magnitude: the bit pattern with the sign cleared.
pub open spec fn mag_of(b: u64) -> u64 {
    b & (F64_EXP_MASK | F64_FRAC_MASK)
}

pub open spec fn is_nan(b: u64) -> bool {
    b & F64_EXP_MASK == F64_EXP_MASK && b & F64_FRAC_MASK != 0
}

pub open spec fn is_inf(b: u64) -> bool {
    b & F64_EXP_MASK == F64_EXP_MASK && b & F64_FRAC_MASK == 0
}

pub open spec fn is_finite(b: u64) -> bool {
    b & F64_EXP_MASK != F64_EXP_MASK
}

/// Both `+0.0` and `-0.0`.
pub open spec fn is_zero(b: u64) -> bool {
    mag_of(b) == 0
}

/// IEEE-754 equality: NaN equals nothing, the two zeros are equal, and
/// every other value is equal only to itself.
pub open spec fn f64_eq(a: u64, b: u64) -> bool {
    &&& !is_nan(a)
    &&& !is_nan(b)
    &&& (a == b || (is_zero(a) && is_zero(b)))
}

/// IEEE-754 strict order: false whenever either side is NaN; otherwise
/// negative values sort below positive ones and magnitudes order each half,
/// with the two zeros equal.
pub open spec fn f64_lt(a: u64, b: u64) -> bool {
    &&& !is_nan(a)
    &&& !is_nan(b)
    &&& !(is_zero(a) && is_zero(b))
    &&& if sign_of(a) && sign_of(b) {
        mag_of(b) < mag_of(a)
    } else if sign_of(a) && !sign_of(b) {
        true
    } else if !sign_of(a) && sign_of(b) {
        false
    } else {
        mag_of(a) < mag_of(b)
    }
}

pub open spec fn f64_le(a: u64, b: u64) -> bool {
    f64_lt(a, b) || f64_eq(a, b)
}

pub fn eq_bits(a: u64, b: u64) -> (r: bool)
    ensures
        r == f64_eq(a, b),
{
    let nan_a = (a & F64_EXP_MASK) == F64_EXP_MASK && (a & F64_FRAC_MASK) != 0;
    let nan_b = (b & F64_EXP_MASK) == F64_EXP_MASK && (b & F64_FRAC_MASK) != 0;
    !nan_a && !nan_b && (a == b || ((a & (F64_EXP_MASK | F64_FRAC_MASK)) == 0 && (b & (
    F64_EXP_MASK | F64_FRAC_MASK)) == 0))
}

pub fn lt_bits(a: u64, b: u64) -> (r: bool)
    ensures
        r == f64_lt(a, b),
{
    let nan_a = (a & F64_EXP_MASK) == F64_EXP_MASK && (a & F64_FRAC_MASK) != 0;
    let nan_b = (b & F64_EXP_MASK) == F64_EXP_MASK && (b & F64_FRAC_MASK) != 0;
    if nan_a || nan_b {
        return false;
    }
    let mag_a = a & (F64_EXP_MASK | F64_FRAC_MASK);
    let mag_b = b & (F64_EXP_MASK | F64_FRAC_MASK);
    if mag_a == 0 && mag_b == 0 {
        return false;
    }
    let sign_a = a & F64_SIGN_MASK == F64_SIGN_MASK;
    let sign_b = b & F64_SIGN_MASK == F64_SIGN_MASK;
    if sign_a && sign_b {
        mag_b < mag_a
    } else if sign_a {
        true
    } else if sign_b {
        false
    } else {
        mag_a < mag_b
    }
}

pub fn le_bits(a: u64, b: u64) -> (r: bool)
    ensures
        r == f64_le(a, b),
{
    lt_bits(a, b) || eq_bits(a, b)
}

/// Negation: exactly a sign-bit flip.
pub open spec fn f64_neg(b: u64) -> u64 {
    b ^ F64_SIGN_MASK
}

pub fn neg_bits(b: u64) -> (r: u64)
    ensures
        r == f64_neg(b),
{
    b ^ F64_SIGN_MASK
}

/// Absolute value: exactly a cleared sign bit.
pub open spec fn f64_abs(b: u64) -> u64 {
    b & (F64_EXP_MASK | F64_FRAC_MASK)
}

pub fn abs_bits(b: u64) -> (r: u64)
    ensures
        r == f64_abs(b),
{
    b & (F64_EXP_MASK | F64_FRAC_MASK)
}

/// Minimum with IEEE minNum semantics: a NaN argument yields the other
/// argument; on a tie the left argument is returned.
pub open spec fn f64_min(a: u64, b: u64) -> u64 {
    if is_nan(a) {
        b
    } else if is_nan(b) {
        a
    } else if f64_lt(b, a) {
        b
    } else {
        a
    }
}

/// Maximum with IEEE maxNum semantics, mirroring `f64_min`.
pub open spec fn f64_max(a: u64, b: u64) -> u64 {
    if is_nan(a) {
        b
    } else if is_nan(b) {
        a
    } else if f64_lt(a, b) {
        b
    } else {
        a
    }
}

pub fn min_bits(a: u64, b: u64) -> (r: u64)
    ensures
        r == f64_min(a, b),
{
    if is_nan_bits(a) {
        b
    } else if is_nan_bits(b) {
        a
    } else if lt_bits(b, a) {
        b
    } else {
        a
    }
}

pub fn max_bits(a: u64, b: u64) -> (r: u64)
    ensures
        r == f64_max(a, b),
{
    if is_nan_bits(a) {
        b
    } else if is_nan_bits(b) {
        a
    } else if lt_bits(a, b) {
        b
    } else {
        a
    }
}

pub fn is_nan_bits(b: u64) -> (r: bool)
    ensures
        r == is_nan(b),
{
    (b & F64_EXP_MASK) == F64_EXP_MASK && (b & F64_FRAC_MASK) != 0
}

pub fn is_inf_bits(b: u64) -> (r: bool)
    ensures
        r == is_inf(b),
{
    (b & F64_EXP_MASK) == F64_EXP_MASK && (b & F64_FRAC_MASK) == 0
}

pub fn is_finite_bits(b: u64) -> (r: bool)
    ensures
        r == is_finite(b),
{
    (b & F64_EXP_MASK) != F64_EXP_MASK
}

pub fn is_zero_bits(b: u64) -> (r: bool)
    ensures
        r == is_zero(b),
{
    b & (F64_EXP_MASK | F64_FRAC_MASK) == 0
}


/// Saturating truncation of a binary64 value to `u64`, with the semantics of
/// Rust's float-to-integer `as` cast: NaN and negative values give 0, values
/// at or above `2^64` give `u64::MAX`, and anything else is truncated toward
/// zero.
pub open spec fn f64_to_u64(b: u64) -> u64 {
    let e = (b & F64_EXP_MASK) >> 52;
    let sig = (b & F64_FRAC_MASK) | 0x0010_0000_0000_0000u64;
    if is_nan(b) {
        0
    } else if sign_of(b) {
        0
    } else if e < 1023 {
        0
    } else if e >= 1087 {
        0xFFFF_FFFF_FFFF_FFFFu64
    } else if e >= 1075 {
        sig << (e - 1075)
    } else {
        sig >> (1075 - e)
    }
}

pub fn trunc_bits(b: u64) -> (r: u64)
    ensures
        r == f64_to_u64(b),
{
    let e = (b & F64_EXP_MASK) >> 52;
    let sig = (b & F64_FRAC_MASK) | 0x0010_0000_0000_0000u64;
    if is_nan_bits(b) {
        0
    } else if b & F64_SIGN_MASK == F64_SIGN_MASK {
        0
    } else if e < 1023 {
        0
    } else if e >= 1087 {
        0xFFFF_FFFF_FFFF_FFFFu64
    } else if e >= 1075 {
        sig << (e - 1075)
    } else {
        sig >> (1075 - e)
    }
}

/// The value is a mathematical integer: its fractional significand bits all
/// sit above the binary point.
pub open spec fn f64_is_int(b: u64) -> bool {
    let e = (b & F64_EXP_MASK) >> 52;
    &&& is_finite(b)
    &&& {
        ||| mag_of(b) == 0
        ||| e >= 1075
        ||| (e >= 1023 && (b & F64_FRAC_MASK) & (((1u64 << (1075 - e)) - 1) as u64) == 0)
    }
}

/// The value is an odd mathematical integer.
pub open spec fn f64_is_odd_int(b: u64) -> bool {
    let e = (b & F64_EXP_MASK) >> 52;
    let sig = (b & F64_FRAC_MASK) | 0x0010_0000_0000_0000u64;
    &&& f64_is_int(b)
    &&& mag_of(b) != 0
    &&& 1023 <= e <= 1075
    &&& (sig >> (1075 - e)) & 1 == 1
}

pub fn is_int_bits(b: u64) -> (r: bool)
    ensures
        r == f64_is_int(b),
{
    let e = (b & F64_EXP_MASK) >> 52;
    if !is_finite_bits(b) {
        return false;
    }
    if b & (F64_EXP_MASK | F64_FRAC_MASK) == 0 || e >= 1075 {
        return true;
    }
    if e < 1023 {
        return false;
    }
    let k = 1075 - e;
    proof {
        assert(1u64 << k >= 1) by (bit_vector)
            requires
                k <= 52u64,
        ;
    }
    (b & F64_FRAC_MASK) & ((1u64 << k) - 1) == 0
}

/// The absolute value keeps the exponent and magnitude and clears the sign.
proof fn lemma_abs_parts(x: u64)
    ensures
        !sign_of(f64_abs(x)),
        is_finite(f64_abs(x)) == is_finite(x),
        mag_of(f64_abs(x)) == mag_of(x),
{
    assert((x & (0x7FF0_0000_0000_0000u64 | 0x000F_FFFF_FFFF_FFFFu64)) & 0x8000_0000_0000_0000u64
        != 0x8000_0000_0000_0000u64 && (x & (0x7FF0_0000_0000_0000u64 | 0x000F_FFFF_FFFF_FFFFu64))
        & 0x7FF0_0000_0000_0000u64 == x & 0x7FF0_0000_0000_0000u64 && (x & (0x7FF0_0000_0000_0000u64
        | 0x000F_FFFF_FFFF_FFFFu64)) & (0x7FF0_0000_0000_0000u64 | 0x000F_FFFF_FFFF_FFFFu64) == x & (
    0x7FF0_0000_0000_0000u64 | 0x000F_FFFF_FFFF_FFFFu64)) by (bit_vector);
}

pub fn is_odd_int_bits(b: u64) -> (r: bool)
    ensures
        r == f64_is_odd_int(b),
{
    let e = (b & F64_EXP_MASK) >> 52;
    let sig = (b & F64_FRAC_MASK) | 0x0010_0000_0000_0000u64;
    is_int_bits(b) && b & (F64_EXP_MASK | F64_FRAC_MASK) != 0 && 1023 <= e && e <= 1075 && (sig
        >> (1075 - e)) & 1 == 1
}

/// IEEE-754 sum of the two values, rounded to nearest, ties to even.
pub uninterp spec fn f64_add(a: u64, b: u64) -> u64;

/// IEEE-754 difference of the two values, rounded to nearest, ties to even.
pub uninterp spec fn f64_sub(a: u64, b: u64) -> u64;

/// IEEE-754 product of the two values, rounded to nearest, ties to even.
pub uninterp spec fn f64_mul(a: u64, b: u64) -> u64;

/// IEEE-754 quotient of the two values, rounded to nearest, ties to even.
pub uninterp spec fn f64_div(a: u64, b: u64) -> u64;

/// C `fmod` of the two values, the remainder Rust's `%` computes.
pub uninterp spec fn f64_rem(a: u64, b: u64) -> u64;

/// The value rounded toward negative infinity to an integer.
pub uninterp spec fn f64_floor(b: u64) -> u64;

/// The value rounded toward positive infinity to an integer.
pub uninterp spec fn f64_ceil(b: u64) -> u64;

/// The binary64 value nearest to the unsigned integer, ties to even.
pub uninterp spec fn f64_of_u64(n: u64) -> u64;

/// Sine of a finite value.
pub uninterp spec fn sin_finite(b: u64) -> u64;

/// Cosine of a finite value.
pub uninterp spec fn cos_finite(b: u64) -> u64;

/// Natural logarithm of a finite, strictly positive value.
pub uninterp spec fn ln_pos(b: u64) -> u64;

/// `x` raised to `y`, for finite, strictly positive `x` and finite,
/// nonzero `y`.
pub uninterp spec fn pow_pos(x: u64, y: u64) -> u64;

/// Relies on `rustc_apfloat::ieee::Double`'s `+`: IEEE-754 binary64
/// addition, rounding to nearest, ties to even.
#[verifier::external_body]
pub fn add_bits(a: u64, b: u64) -> (r: u64)
    ensures
        r == f64_add(a, b),
{
    let x = rustc_apfloat::ieee::Double::from_bits(a as u128);
    let y = rustc_apfloat::ieee::Double::from_bits(b as u128);
    (x + y).value.to_bits() as u64
}

/// Relies on `rustc_apfloat::ieee::Double`'s `-`: IEEE-754 binary64
/// subtraction, rounding to nearest, ties to even.
#[verifier::external_body]
pub fn sub_bits(a: u64, b: u64) -> (r: u64)
    ensures
        r == f64_sub(a, b),
{
    let x = rustc_apfloat::ieee::Double::from_bits(a as u128);
    let y = rustc_apfloat::ieee::Double::from_bits(b as u128);
    (x - y).value.to_bits() as u64
}

/// Relies on `rustc_apfloat::ieee::Double`'s `*`: IEEE-754 binary64
/// multiplication, rounding to nearest, ties to even.
#[verifier::external_body]
pub fn mul_bits(a: u64, b: u64) -> (r: u64)
    ensures
        r == f64_mul(a, b),
{
    let x = rustc_apfloat::ieee::Double::from_bits(a as u128);
    let y = rustc_apfloat::ieee::Double::from_bits(b as u128);
    (x * y).value.to_bits() as u64
}

/// Relies on `rustc_apfloat::ieee::Double`'s `/`: IEEE-754 binary64
/// division, rounding to nearest, ties to even.
#[verifier::external_body]
pub fn div_bits(a: u64, b: u64) -> (r: u64)
    ensures
        r == f64_div(a, b),
{
    let x = rustc_apfloat::ieee::Double::from_bits(a as u128);
    let y = rustc_apfloat::ieee::Double::from_bits(b as u128);
    (x / y).value.to_bits() as u64
}

/// Relies on `rustc_apfloat::ieee::Double`'s `%` (`c_fmod`), which computes
/// the same remainder as Rust's `%` on floats.
#[verifier::external_body]
pub fn rem_bits(a: u64, b: u64) -> (r: u64)
    ensures
        r == f64_rem(a, b),
{
    let x = rustc_apfloat::ieee::Double::from_bits(a as u128);
    let y = rustc_apfloat::ieee::Double::from_bits(b as u128);
    (x % y).value.to_bits() as u64
}

/// Relies on `rustc_apfloat::ieee::Double::round_to_integral` rounding
/// toward negative infinity.
#[verifier::external_body]
pub fn floor_bits(b: u64) -> (r: u64)
    ensures
        r == f64_floor(b),
{
    let x = rustc_apfloat::ieee::Double::from_bits(b as u128);
    x.round_to_integral(rustc_apfloat::Round::TowardNegative).value.to_bits() as u64
}

/// Relies on `rustc_apfloat::ieee::Double::round_to_integral` rounding
/// toward positive infinity.
#[verifier::external_body]
pub fn ceil_bits(b: u64) -> (r: u64)
    ensures
        r == f64_ceil(b),
{
    let x = rustc_apfloat::ieee::Double::from_bits(b as u128);
    x.round_to_integral(rustc_apfloat::Round::TowardPositive).value.to_bits() as u64
}

/// Relies on `rustc_apfloat::ieee::Double::from_u128`: conversion of an
/// unsigned integer, rounding to nearest, ties to even.
#[verifier::external_body]
pub fn u64_to_bits(n: u64) -> (r: u64)
    ensures
        r == f64_of_u64(n),
{
    rustc_apfloat::ieee::Double::from_u128(n as u128).value.to_bits() as u64
}

/// Relies on `astro_float::BigFloat::sin` at 96-bit precision, reached
/// through the round-trippable decimal formatting and correctly rounding
/// parsing of `rustc_apfloat::ieee::Double`. For finite input the sine is
/// finite, so the fallback arm for an unparseable result is never taken.
#[verifier::external_body]
fn sin_wrapped(b: u64) -> (r: u64)
    requires
        is_finite(b),
    ensures
        r == sin_finite(b),
{
    let d = rustc_apfloat::ieee::Double::from_bits(b as u128);
    let mut cc = astro_float::Consts::new().expect("constants cache");
    let rm = astro_float::RoundingMode::None;
    let v = astro_float::BigFloat::parse(&d.to_string(), astro_float::Radix::Dec, 96, rm, &mut cc);
    let s = format!("{}", v.sin(96, rm, &mut cc));
    match rustc_apfloat::ieee::Double::from_str(&s) {
        Ok(p) => p.to_bits() as u64,
        Err(_) => F64_NAN,
    }
}

/// Relies on `astro_float::BigFloat::cos`, exactly as `sin_wrapped` relies
/// on `sin`.
#[verifier::external_body]
fn cos_wrapped(b: u64) -> (r: u64)
    requires
        is_finite(b),
    ensures
        r == cos_finite(b),
{
    let d = rustc_apfloat::ieee::Double::from_bits(b as u128);
    let mut cc = astro_float::Consts::new().expect("constants cache");
    let rm = astro_float::RoundingMode::None;
    let v = astro_float::BigFloat::parse(&d.to_string(), astro_float::Radix::Dec, 96, rm, &mut cc);
    let s = format!("{}", v.cos(96, rm, &mut cc));
    match rustc_apfloat::ieee::Double::from_str(&s) {
        Ok(p) => p.to_bits() as u64,
        Err(_) => F64_NAN,
    }
}

/// Relies on `astro_float::BigFloat::ln`, exactly as `sin_wrapped` relies
/// on `sin`; the logarithm of a finite positive value is finite.
#[verifier::external_body]
fn ln_wrapped(b: u64) -> (r: u64)
    requires
        is_finite(b),
        !sign_of(b),
        !is_zero(b),
    ensures
        r == ln_pos(b),
{
    let d = rustc_apfloat::ieee::Double::from_bits(b as u128);
    let mut cc = astro_float::Consts::new().expect("constants cache");
    let rm = astro_float::RoundingMode::None;
    let v = astro_float::BigFloat::parse(&d.to_string(), astro_float::Radix::Dec, 96, rm, &mut cc);
    let s = format!("{}", v.ln(96, rm, &mut cc));
    match rustc_apfloat::ieee::Double::from_str(&s) {
        Ok(p) => p.to_bits() as u64,
        Err(_) => F64_NAN,
    }
}

/// Relies on `astro_float::BigFloat::pow`, exactly as `sin_wrapped` relies
/// on `sin`. A result too large even for `astro-float` leaves its exponent
/// range and comes back as an infinity marker that `Double::from_str`
/// refuses; that fallback arm yields NaN.
#[verifier::external_body]
fn pow_wrapped(x: u64, y: u64) -> (r: u64)
    requires
        is_finite(x),
        !sign_of(x),
        !is_zero(x),
        is_finite(y),
        !is_zero(y),
    ensures
        r == pow_pos(x, y),
{
    let dx = rustc_apfloat::ieee::Double::from_bits(x as u128);
    let dy = rustc_apfloat::ieee::Double::from_bits(y as u128);
    let mut cc = astro_float::Consts::new().expect("constants cache");
    let rm = astro_float::RoundingMode::None;
    let bx = astro_float::BigFloat::parse(&dx.to_string(), astro_float::Radix::Dec, 96, rm, &mut cc);
    let by = astro_float::BigFloat::parse(&dy.to_string(), astro_float::Radix::Dec, 96, rm, &mut cc);
    let s = format!("{}", bx.pow(&by, 96, rm, &mut cc));
    match rustc_apfloat::ieee::Double::from_str(&s) {
        Ok(p) => p.to_bits() as u64,
        Err(_) => F64_NAN,
    }
}

/// Sine with the documented IEEE edge cases: NaN and the infinities give
/// NaN, every finite value goes to the underlying sine.
pub open spec fn f64_sin(b: u64) -> u64 {
    if is_finite(b) {
        sin_finite(b)
    } else {
        F64_NAN
    }
}

pub fn sin_bits(b: u64) -> (r: u64)
    ensures
        r == f64_sin(b),
{
    if is_finite_bits(b) {
        sin_wrapped(b)
    } else {
        F64_NAN
    }
}

/// Cosine, mirroring `f64_sin`.
pub open spec fn f64_cos(b: u64) -> u64 {
    if is_finite(b) {
        cos_finite(b)
    } else {
        F64_NAN
    }
}

pub fn cos_bits(b: u64) -> (r: u64)
    ensures
        r == f64_cos(b),
{
    if is_finite_bits(b) {
        cos_wrapped(b)
    } else {
        F64_NAN
    }
}

/// Natural logarithm with the documented IEEE edge cases: NaN of NaN or of
/// a negative value, negative infinity at the two zeros, and positive
/// infinity at positive infinity.
pub open spec fn f64_ln(b: u64) -> u64 {
    if is_nan(b) {
        F64_NAN
    } else if is_zero(b) {
        F64_NEG_INF
    } else if sign_of(b) {
        F64_NAN
    } else if is_inf(b) {
        F64_INF
    } else {
        ln_pos(b)
    }
}

pub fn ln_bits(b: u64) -> (r: u64)
    ensures
        r == f64_ln(b),
{
    if is_nan_bits(b) {
        F64_NAN
    } else if is_zero_bits(b) {
        F64_NEG_INF
    } else if b & F64_SIGN_MASK == F64_SIGN_MASK {
        F64_NAN
    } else if is_inf_bits(b) {
        F64_INF
    } else {
        ln_wrapped(b)
    }
}

/// `x` raised to `y` with the special cases IEEE 754 and C `pow` document:
/// an exponent of zero or a base of exactly one gives one whatever the
/// other operand; NaN otherwise propagates; infinite and zero operands and
/// negative bases follow the sign and odd-integer-exponent rules; what is
/// left, a positive finite base and finite nonzero exponent, goes to the
/// underlying power function.
pub open spec fn f64_powf(x: u64, y: u64) -> u64 {
    if is_zero(y) {
        F64_ONE
    } else if x == F64_ONE {
        F64_ONE
    } else if is_nan(x) || is_nan(y) {
        F64_NAN
    } else if is_inf(y) {
        if mag_of(x) == F64_ONE {
            F64_ONE
        } else if (mag_of(x) < F64_ONE) == !sign_of(y) {
            F64_ZERO
        } else {
            F64_INF
        }
    } else if is_inf(x) {
        if !sign_of(x) {
            if sign_of(y) {
                F64_ZERO
            } else {
                F64_INF
            }
        } else if f64_is_odd_int(y) {
            if sign_of(y) {
                F64_NEG_ZERO
            } else {
                F64_NEG_INF
            }
        } else if sign_of(y) {
            F64_ZERO
        } else {
            F64_INF
        }
    } else if is_zero(x) {
        if f64_is_odd_int(y) && sign_of(x) {
            if sign_of(y) {
                F64_NEG_INF
            } else {
                F64_NEG_ZERO
            }
        } else if sign_of(y) {
            F64_INF
        } else {
            F64_ZERO
        }
    } else if sign_of(x) {
        if f64_is_odd_int(y) {
            f64_neg(pow_pos(f64_abs(x), y))
        } else if f64_is_int(y) {
            pow_pos(f64_abs(x), y)
        } else {
            F64_NAN
        }
    } else {
        pow_pos(x, y)
    }
}

pub fn powf_bits(x: u64, y: u64) -> (r: u64)
    ensures
        r == f64_powf(x, y),
{
    if is_zero_bits(y) {
        F64_ONE
    } else if x == F64_ONE {
        F64_ONE
    } else if is_nan_bits(x) || is_nan_bits(y) {
        F64_NAN
    } else if is_inf_bits(y) {
        let mx = x & (F64_EXP_MASK | F64_FRAC_MASK);
        if mx == F64_ONE {
            F64_ONE
        } else if (mx < F64_ONE) == !(y & F64_SIGN_MASK == F64_SIGN_MASK) {
            F64_ZERO
        } else {
            F64_INF
        }
    } else if is_inf_bits(x) {
        let neg_y = y & F64_SIGN_MASK == F64_SIGN_MASK;
        if !(x & F64_SIGN_MASK == F64_SIGN_MASK) {
            if neg_y {
                F64_ZERO
            } else {
                F64_INF
            }
        } else if is_odd_int_bits(y) {
            if neg_y {
                F64_NEG_ZERO
            } else {
                F64_NEG_INF
            }
        } else if neg_y {
            F64_ZERO
        } else {
            F64_INF
        }
    } else if is_zero_bits(x) {
        let neg_y = y & F64_SIGN_MASK == F64_SIGN_MASK;
        if is_odd_int_bits(y) && x & F64_SIGN_MASK == F64_SIGN_MASK {
            if neg_y {
                F64_NEG_INF
            } else {
                F64_NEG_ZERO
            }
        } else if neg_y {
            F64_INF
        } else {
            F64_ZERO
        }
    } else if x & F64_SIGN_MASK == F64_SIGN_MASK {
        proof {
            lemma_abs_parts(x);
        }
        if is_odd_int_bits(y) {
            neg_bits(pow_wrapped(abs_bits(x), y))
        } else if is_int_bits(y) {
            pow_wrapped(abs_bits(x), y)
        } else {
            F64_NAN
        }
    } else {
        pow_wrapped(x, y)
    }
}

} // verus!

