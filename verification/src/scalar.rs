//! IEEE-754 binary32 scalars, carried as raw bit patterns.
//!
//! The verifier does not reason about floating-point types, so every scalar in
//! this crate is the `u32` bit pattern of an IEEE-754 single-precision value.
//! Classification (zero, sign, NaN) and comparisons against zero are plain
//! integer logic on the pattern, written and verified here. The arithmetic
//! operations and roundings are carried out by `rustc_apfloat`, a software
//! implementation of IEEE-754 whose results are a function of the operand bits
//! alone; those calls stand behind trusted wrappers whose contracts name the
//! results and state only documented IEEE-754 facts (NaN propagation, the sign
//! of a product or quotient).

use vstd::prelude::*;
use rustc_apfloat::Float;
use rustc_apfloat::Round;
use rustc_apfloat::ieee::Single;

verus! {

/// All bits of the pattern except the sign bit.
pub open spec fn abs_bits(b: u32) -> u32 {
    b & 0x7fff_ffff
}

/// The pattern encodes a NaN: exponent all ones, significand nonzero.
pub open spec fn is_nan_bits(b: u32) -> bool {
    abs_bits(b) > 0x7f80_0000
}

/// The pattern encodes a zero, of either sign.
pub open spec fn is_zero_bits(b: u32) -> bool {
    abs_bits(b) == 0
}

/// The sign bit is set (negative zero, subnormal, normal, infinity or NaN).
pub open spec fn sign_bits(b: u32) -> bool {
    b >= 0x8000_0000
}

/// IEEE-754 comparison `v == +0`: both zeros are equal to zero, NaN is not.
pub open spec fn eq_zero_bits(b: u32) -> bool {
    is_zero_bits(b)
}

/// IEEE-754 comparison `v >= +0`: non-NaN, and non-negative or a zero.
pub open spec fn ge_zero_bits(b: u32) -> bool {
    !is_nan_bits(b) && (!sign_bits(b) || is_zero_bits(b))
}

/// IEEE-754 comparison `v <= +0`: non-NaN, and negative or a zero.
pub open spec fn le_zero_bits(b: u32) -> bool {
    !is_nan_bits(b) && (sign_bits(b) || is_zero_bits(b))
}

/// IEEE-754 comparison `v > +0`: non-NaN, positive and not a zero.
pub open spec fn gt_zero_bits(b: u32) -> bool {
    !is_nan_bits(b) && !sign_bits(b) && !is_zero_bits(b)
}

/// Whether the pattern encodes a NaN.
pub fn is_nan(b: u32) -> (r: bool)
    ensures
        r == is_nan_bits(b),
{
    (b & 0x7fff_ffff) > 0x7f80_0000
}

/// IEEE-754 comparison of the encoded value with `+0` for equality.
pub fn eq_zero(b: u32) -> (r: bool)
    ensures
        r == eq_zero_bits(b),
{
    (b & 0x7fff_ffff) == 0
}

/// IEEE-754 comparison `v >= +0` of the encoded value.
pub fn ge_zero(b: u32) -> (r: bool)
    ensures
        r == ge_zero_bits(b),
{
    proof {
        assert((b & 0x7fff_ffff == 0) == (b == 0 || b == 0x8000_0000u32)) by (bit_vector);
    }
    !is_nan(b) && (b < 0x8000_0000 || b == 0x8000_0000)
}

/// IEEE-754 comparison `v <= +0` of the encoded value.
pub fn le_zero(b: u32) -> (r: bool)
    ensures
        r == le_zero_bits(b),
{
    proof {
        assert((b & 0x7fff_ffff == 0) == (b == 0 || b == 0x8000_0000u32)) by (bit_vector);
    }
    !is_nan(b) && (b >= 0x8000_0000 || b == 0)
}

/// IEEE-754 comparison `v > +0` of the encoded value.
pub fn gt_zero(b: u32) -> (r: bool)
    ensures
        r == gt_zero_bits(b),
{
    proof {
        assert((b & 0x7fff_ffff == 0) == (b == 0 || b == 0x8000_0000u32)) by (bit_vector);
    }
    !is_nan(b) && b < 0x8000_0000 && b != 0
}

/// The IEEE-754 binary32 sum of the two encoded values, rounded to nearest,
/// ties to even.
pub uninterp spec fn add_bits(a: u32, b: u32) -> u32;

/// The IEEE-754 binary32 difference of the two encoded values, rounded to
/// nearest, ties to even.
pub uninterp spec fn sub_bits(a: u32, b: u32) -> u32;

/// The IEEE-754 binary32 product of the two encoded values, rounded to
/// nearest, ties to even.
pub uninterp spec fn mul_bits(a: u32, b: u32) -> u32;

/// The IEEE-754 binary32 quotient of the two encoded values, rounded to
/// nearest, ties to even.
pub uninterp spec fn div_bits(a: u32, b: u32) -> u32;

/// The IEEE-754 binary32 value nearest to the integer, ties to even; the
/// semantics of Rust's `as` cast from `i32`.
pub uninterp spec fn of_i32_bits(v: i32) -> u32;

/// The encoded value rounded to the nearest integer, ties away from zero,
/// saturated to `i64`, with NaN taken to 0; the semantics of Rust's
/// `v.round() as i64`.
pub uninterp spec fn round_bits(b: u32) -> i64;

/// Relies on `rustc_apfloat::ieee::Single::add_r`: IEEE-754 binary32 addition
/// with rounding to nearest, ties to even, a function of the operand bits
/// alone.
#[verifier::external_body]
pub(crate) fn fadd(a: u32, b: u32) -> (r: u32)
    ensures
        r == add_bits(a, b),
{
    let x = Single::from_bits(a as u128);
    let y = Single::from_bits(b as u128);
    x.add_r(y, Round::NearestTiesToEven).value.to_bits() as u32
}

/// Relies on `rustc_apfloat::ieee::Single::sub_r`: IEEE-754 binary32
/// subtraction with rounding to nearest, ties to even, a function of the
/// operand bits alone.
#[verifier::external_body]
pub(crate) fn fsub(a: u32, b: u32) -> (r: u32)
    ensures
        r == sub_bits(a, b),
{
    let x = Single::from_bits(a as u128);
    let y = Single::from_bits(b as u128);
    x.sub_r(y, Round::NearestTiesToEven).value.to_bits() as u32
}

/// Relies on `rustc_apfloat::ieee::Single::mul_r`: IEEE-754 binary32
/// multiplication with rounding to nearest, ties to even, a function of the
/// operand bits alone. IEEE-754 propagates NaN operands and gives every
/// non-NaN product the exclusive or of the operand signs.
#[verifier::external_body]
pub(crate) fn fmul(a: u32, b: u32) -> (r: u32)
    ensures
        r == mul_bits(a, b),
        is_nan_bits(a) || is_nan_bits(b) ==> is_nan_bits(r),
        !is_nan_bits(r) ==> sign_bits(r) == (sign_bits(a) != sign_bits(b)),
{
    let x = Single::from_bits(a as u128);
    let y = Single::from_bits(b as u128);
    x.mul_r(y, Round::NearestTiesToEven).value.to_bits() as u32
}

/// Relies on `rustc_apfloat::ieee::Single::div_r`: IEEE-754 binary32 division
/// with rounding to nearest, ties to even, a function of the operand bits
/// alone. IEEE-754 propagates NaN operands and gives every non-NaN quotient
/// the exclusive or of the operand signs.
#[verifier::external_body]
pub(crate) fn fdiv(a: u32, b: u32) -> (r: u32)
    ensures
        r == div_bits(a, b),
        is_nan_bits(a) || is_nan_bits(b) ==> is_nan_bits(r),
        !is_nan_bits(r) ==> sign_bits(r) == (sign_bits(a) != sign_bits(b)),
{
    let x = Single::from_bits(a as u128);
    let y = Single::from_bits(b as u128);
    x.div_r(y, Round::NearestTiesToEven).value.to_bits() as u32
}

/// Relies on `rustc_apfloat::ieee::Single::from_i128_r`: conversion of an
/// integer to IEEE-754 binary32, rounding to nearest, ties to even — the
/// semantics of Rust's `as` cast from `i32`. Every `i32` is far below the
/// largest finite binary32 value, so the result is finite; it is a zero
/// exactly when the integer is zero, and it keeps the integer's sign.
/// Integers of magnitude at most 2^24 convert exactly (binary32 carries 24
/// significand bits), and rounding such an integral value returns it.
#[verifier::external_body]
pub(crate) fn f_of_i32(v: i32) -> (r: u32)
    ensures
        r == of_i32_bits(v),
        !is_nan_bits(r),
        is_zero_bits(r) <==> v == 0,
        sign_bits(r) == (v < 0),
        -0x100_0000 <= v <= 0x100_0000 ==> round_bits(r) == v as i64,
{
    Single::from_i128_r(v as i128, Round::NearestTiesToEven).value.to_bits() as u32
}

/// Relies on `rustc_apfloat::ieee::Single::to_i128_r`: rounds the encoded
/// value to the nearest integer, ties away from zero, returning 0 for NaN and
/// the nearest representable bound for values outside the `i64` range — the
/// semantics of Rust's `v.round() as i64`.
#[verifier::external_body]
pub(crate) fn fround(b: u32) -> (r: i64)
    ensures
        r == round_bits(b),
{
    let x = Single::from_bits(b as u128);
    let mut exact = false;
    let v = x.to_i128_r(64, Round::NearestTiesToAway, &mut exact).value;
    v as i64
}

} // verus!
