//! The numeric half of the value model.
//!
//! A number is carried as the bit pattern of an IEEE-754 binary64 value,
//! held in a `u64`. Equality and ordering of such bit patterns follow the
//! IEEE rules and are implemented and verified here directly: two patterns
//! denote equal numbers when neither is a NaN and the patterns agree, or
//! both denote a zero; ordering compares sign and magnitude, and a NaN
//! compares with nothing. The four arithmetic operations are carried out
//! by the `rustc_apfloat` soft-float library behind trusted wrappers, and
//! their results are named by uninterpreted functions.

use vstd::prelude::*;
use rustc_apfloat::Float;

verus! {

/// Sign bit of an IEEE-754 binary64 pattern.
pub const SIGN_MASK: u64 = 0x8000_0000_0000_0000;

/// Everything but the sign bit.
pub const ABS_MASK: u64 = 0x7FFF_FFFF_FFFF_FFFF;

/// Exponent field, all ones for infinities and NaNs.
pub const EXP_MASK: u64 = 0x7FF0_0000_0000_0000;

/// The pattern denotes a NaN: exponent all ones and a nonzero fraction.
pub open spec fn num_is_nan(a: u64) -> bool {
    (a & ABS_MASK) > EXP_MASK
}

/// The pattern denotes a zero, of either sign.
pub open spec fn num_is_zero(a: u64) -> bool {
    (a & ABS_MASK) == 0
}

/// The sign bit is set.
pub open spec fn num_is_neg(a: u64) -> bool {
    (a & SIGN_MASK) == SIGN_MASK
}

/// IEEE equality of two binary64 bit patterns: no NaN is equal to
/// anything, the two zeros are equal to each other, and any other value
/// is equal exactly to its own pattern.
pub open spec fn num_eq(a: u64, b: u64) -> bool {
    &&& !num_is_nan(a)
    &&& !num_is_nan(b)
    &&& (a == b || (num_is_zero(a) && num_is_zero(b)))
}

/// IEEE ordering of two binary64 bit patterns: a NaN is ordered with
/// nothing; otherwise negative values sit below positive ones (the two
/// zeros being equal), same-sign values compare by magnitude.
pub open spec fn num_lt(a: u64, b: u64) -> bool {
    &&& !num_is_nan(a)
    &&& !num_is_nan(b)
    &&& if num_is_neg(a) && num_is_neg(b) {
            (b & ABS_MASK) < (a & ABS_MASK)
        } else if num_is_neg(a) && !num_is_neg(b) {
            !(num_is_zero(a) && num_is_zero(b))
        } else if !num_is_neg(a) && num_is_neg(b) {
            false
        } else {
            a < b
        }
}

/// Decides `num_eq` on two bit patterns.
pub fn num_eq_bits(a: u64, b: u64) -> (r: bool)
    ensures
        r == num_eq(a, b),
{
    let a_abs = a & ABS_MASK;
    let b_abs = b & ABS_MASK;
    a_abs <= EXP_MASK && b_abs <= EXP_MASK && (a == b || (a_abs == 0 && b_abs == 0))
}

/// Decides `num_lt` on two bit patterns.
pub fn num_lt_bits(a: u64, b: u64) -> (r: bool)
    ensures
        r == num_lt(a, b),
{
    let a_abs = a & ABS_MASK;
    let b_abs = b & ABS_MASK;
    if a_abs > EXP_MASK || b_abs > EXP_MASK {
        false
    } else if a & SIGN_MASK == SIGN_MASK {
        if b & SIGN_MASK == SIGN_MASK {
            b_abs < a_abs
        } else {
            !(a_abs == 0 && b_abs == 0)
        }
    } else {
        if b & SIGN_MASK == SIGN_MASK {
            false
        } else {
            a < b
        }
    }
}

/// The bit pattern of the IEEE binary64 sum of the numbers the two
/// argument patterns denote, rounded to nearest, ties to even.
pub uninterp spec fn num_add(a: u64, b: u64) -> u64;

/// The bit pattern of the IEEE binary64 difference.
pub uninterp spec fn num_sub(a: u64, b: u64) -> u64;

/// The bit pattern of the IEEE binary64 product.
pub uninterp spec fn num_mul(a: u64, b: u64) -> u64;

/// The bit pattern of the IEEE binary64 quotient.
pub uninterp spec fn num_div(a: u64, b: u64) -> u64;

/// Relies on rustc_apfloat: `Double::add_r` with round-to-nearest-even is
/// IEEE-754 binary64 addition, a function of the two bit patterns alone.
#[verifier::external_body]
pub fn num_add_bits(a: u64, b: u64) -> (r: u64)
    ensures
        r == num_add(a, b),
{
    let x = rustc_apfloat::ieee::Double::from_bits(a as u128);
    let y = rustc_apfloat::ieee::Double::from_bits(b as u128);
    x.add_r(y, rustc_apfloat::Round::NearestTiesToEven).value.to_bits() as u64
}

/// Relies on rustc_apfloat: `Double::sub_r` with round-to-nearest-even is
/// IEEE-754 binary64 subtraction, a function of the two bit patterns alone.
#[verifier::external_body]
pub fn num_sub_bits(a: u64, b: u64) -> (r: u64)
    ensures
        r == num_sub(a, b),
{
    let x = rustc_apfloat::ieee::Double::from_bits(a as u128);
    let y = rustc_apfloat::ieee::Double::from_bits(b as u128);
    x.sub_r(y, rustc_apfloat::Round::NearestTiesToEven).value.to_bits() as u64
}

/// Relies on rustc_apfloat: `Double::mul_r` with round-to-nearest-even is
/// IEEE-754 binary64 multiplication, a function of the two bit patterns alone.
#[verifier::external_body]
pub fn num_mul_bits(a: u64, b: u64) -> (r: u64)
    ensures
        r == num_mul(a, b),
{
    let x = rustc_apfloat::ieee::Double::from_bits(a as u128);
    let y = rustc_apfloat::ieee::Double::from_bits(b as u128);
    x.mul_r(y, rustc_apfloat::Round::NearestTiesToEven).value.to_bits() as u64
}

/// Relies on rustc_apfloat: `Double::div_r` with round-to-nearest-even is
/// IEEE-754 binary64 division, a function of the two bit patterns alone.
#[verifier::external_body]
pub fn num_div_bits(a: u64, b: u64) -> (r: u64)
    ensures
        r == num_div(a, b),
{
    let x = rustc_apfloat::ieee::Double::from_bits(a as u128);
    let y = rustc_apfloat::ieee::Double::from_bits(b as u128);
    x.div_r(y, rustc_apfloat::Round::NearestTiesToEven).value.to_bits() as u64
}

/// Negating a binary64 value flips exactly its sign bit, on every
/// operand class including NaNs.
pub fn num_neg_bits(a: u64) -> (r: u64)
    ensures
        r == (a ^ SIGN_MASK),
{
    a ^ SIGN_MASK
}

} // verus!
