//! Scalar layer: every number of this library is an IEEE-754 double-precision
//! value carried as its 64-bit pattern.  The rounding arithmetic itself is done
//! in software by an outside crate behind the trusted wrappers below; each
//! operation's result is named by an uninterpreted spec function of the operand
//! bit patterns, which is sound because software floating point is a pure,
//! machine-independent function of its inputs.  Negation and ordering are bit
//! operations that the IEEE-754 format fixes exactly, so they are implemented
//! and verified here rather than trusted.

use vstd::prelude::*;

use const_soft_float::soft_f64::SoftF64;
use rustc_apfloat::Float;
use rustc_apfloat::ieee::Double;

verus! {

/// Bit pattern of 0.0.
pub const ZERO_BITS: u64 = 0;

/// Bit pattern of 1.0.
pub const ONE_BITS: u64 = 0x3FF0000000000000;

/// Bit pattern of 0.001, the fixed tolerance used by the Newton classifier.
pub const EPS_BITS: u64 = 0x3F50624DD2F1A9FC;

/// The sign bit of a double-precision value.
pub const SIGN_MASK: u64 = 0x8000000000000000;

/// Everything but the sign bit: the magnitude of a double-precision value.
pub const MAG_MASK: u64 = 0x7FFFFFFFFFFFFFFF;

/// Magnitude of an infinity: exponent bits all set, fraction zero.
pub const INF_MAG: u64 = 0x7FF0000000000000;

/// The rounded double-precision sum of the values with bit patterns `a` and `b`.
pub uninterp spec fn add_bits(a: u64, b: u64) -> u64;

/// The rounded double-precision difference of the values with bit patterns `a` and `b`.
pub uninterp spec fn sub_bits(a: u64, b: u64) -> u64;

/// The rounded double-precision product of the values with bit patterns `a` and `b`.
pub uninterp spec fn mul_bits(a: u64, b: u64) -> u64;

/// The rounded double-precision quotient of the values with bit patterns `a` and `b`.
pub uninterp spec fn div_bits(a: u64, b: u64) -> u64;

/// The rounded double-precision square root of the value with bit pattern `a`.
pub uninterp spec fn sqrt_bits(a: u64) -> u64;

/// The double-precision value nearest to the unsigned integer `n`, as a bit pattern.
pub uninterp spec fn from_uint_bits(n: u64) -> u64;

/// A value is a NaN exactly when its magnitude exceeds that of an infinity.
pub open spec fn is_nan_bits(a: u64) -> bool {
    a & MAG_MASK > INF_MAG
}

/// IEEE-754 negation flips the sign bit and nothing else, for every value
/// including NaN.
pub open spec fn neg_bits(a: u64) -> u64 {
    a ^ SIGN_MASK
}

/// The quiet `<` of IEEE-754 on bit patterns: false if either side is NaN,
/// otherwise the sign-magnitude order, under which -0.0 and +0.0 are equal.
pub open spec fn lt_bits(a: u64, b: u64) -> bool {
    if is_nan_bits(a) || is_nan_bits(b) {
        false
    } else {
        let neg_a = a & SIGN_MASK != 0;
        let neg_b = b & SIGN_MASK != 0;
        let mag_a = a & MAG_MASK;
        let mag_b = b & MAG_MASK;
        if neg_a && neg_b {
            mag_b < mag_a
        } else if !neg_a && !neg_b {
            mag_a < mag_b
        } else if neg_a && !neg_b {
            mag_a != 0 || mag_b != 0
        } else {
            false
        }
    }
}

/// `a > b` is `b < a`.
pub open spec fn gt_bits(a: u64, b: u64) -> bool {
    lt_bits(b, a)
}

/// Relies on const_soft_float's SoftF64::add (compiler-builtins' software
/// float addition, round to nearest, ties to even) for the double-precision sum.
#[verifier::external_body]
pub(crate) fn fx_add(a: u64, b: u64) -> (r: u64)
    ensures
        r == add_bits(a, b),
{
    SoftF64::from_bits(a).add(SoftF64::from_bits(b)).to_bits()
}

/// Relies on const_soft_float's SoftF64::sub (software float subtraction,
/// computed per IEEE-754 as addition of the negated operand, round to nearest,
/// ties to even) for the double-precision difference.
#[verifier::external_body]
pub(crate) fn fx_sub(a: u64, b: u64) -> (r: u64)
    ensures
        r == sub_bits(a, b),
{
    SoftF64::from_bits(a).sub(SoftF64::from_bits(b)).to_bits()
}

/// Relies on const_soft_float's SoftF64::mul (compiler-builtins' software
/// float multiplication, round to nearest, ties to even) for the
/// double-precision product.
#[verifier::external_body]
pub(crate) fn fx_mul(a: u64, b: u64) -> (r: u64)
    ensures
        r == mul_bits(a, b),
{
    SoftF64::from_bits(a).mul(SoftF64::from_bits(b)).to_bits()
}

/// Relies on const_soft_float's SoftF64::div (compiler-builtins' software
/// float division, round to nearest, ties to even) for the double-precision
/// quotient; division by zero yields an infinity or NaN per IEEE-754, it does
/// not fail.
#[verifier::external_body]
pub(crate) fn fx_div(a: u64, b: u64) -> (r: u64)
    ensures
        r == div_bits(a, b),
{
    SoftF64::from_bits(a).div(SoftF64::from_bits(b)).to_bits()
}

/// Relies on const_soft_float's SoftF64::sqrt (the correctly rounded bit-by-bit
/// square root ported from fdlibm) for the double-precision square root.
#[verifier::external_body]
pub(crate) fn fx_sqrt(a: u64) -> (r: u64)
    ensures
        r == sqrt_bits(a),
{
    SoftF64::from_bits(a).sqrt().to_bits()
}

/// Relies on rustc_apfloat's Double::from_u128 (software conversion, round to
/// nearest, ties to even) for the double-precision value nearest to an
/// unsigned integer.
#[verifier::external_body]
pub(crate) fn fx_from_uint(n: u64) -> (r: u64)
    ensures
        r == from_uint_bits(n),
{
    Double::from_u128(n as u128).value.to_bits() as u64
}

/// Executable quiet `<` on bit patterns, verified against `lt_bits`.
pub fn flt_lt(a: u64, b: u64) -> (r: bool)
    ensures
        r == lt_bits(a, b),
{
    if a & MAG_MASK > INF_MAG || b & MAG_MASK > INF_MAG {
        false
    } else {
        let neg_a: bool = a & SIGN_MASK != 0;
        let neg_b: bool = b & SIGN_MASK != 0;
        let mag_a: u64 = a & MAG_MASK;
        let mag_b: u64 = b & MAG_MASK;
        if neg_a && neg_b {
            mag_b < mag_a
        } else if !neg_a && !neg_b {
            mag_a < mag_b
        } else if neg_a && !neg_b {
            mag_a != 0 || mag_b != 0
        } else {
            false
        }
    }
}

/// Executable quiet `>` on bit patterns, verified against `gt_bits`.
pub fn flt_gt(a: u64, b: u64) -> (r: bool)
    ensures
        r == gt_bits(a, b),
{
    flt_lt(b, a)
}

/// Executable negation: flip the sign bit.
pub fn flt_neg(a: u64) -> (r: u64)
    ensures
        r == neg_bits(a),
{
    a ^ SIGN_MASK
}

} // verus!
