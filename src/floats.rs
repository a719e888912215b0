//! 64-bit floating-point values, held as their IEEE-754 bit patterns.
//!
//! The library never computes on floats itself: arithmetic, conversion and
//! formatting are done by arrow's kernels, and their results are named here.
//! A NaN that arithmetic produces carries a bit pattern that depends on the
//! machine; the library replaces every such NaN by one canonical NaN.
//! Ordering is IEEE-754 `totalOrder`, which arrow's comparison kernels use.
use vstd::prelude::*;

verus! {

/// The bit pattern of `0.0`.
pub const FLOAT_ZERO: u64 = 0;

/// The bit pattern of the largest finite float.
pub const FLOAT_MAX: u64 = 0x7fef_ffff_ffff_ffff;

/// The bit pattern of the smallest (most negative) finite float.
pub const FLOAT_MIN: u64 = 0xffef_ffff_ffff_ffff;

pub const SIGN_BIT: u64 = 0x8000_0000_0000_0000;

/// Maps a bit pattern to an unsigned key whose order is IEEE-754 `totalOrder`:
/// negative values have all bits flipped, the others only the sign bit.
pub open spec fn total_order_key(b: u64) -> u64 {
    if b >= SIGN_BIT {
        (0xffff_ffff_ffff_ffffu64 - b) as u64
    } else {
        (b + SIGN_BIT) as u64
    }
}

pub fn order_key(b: u64) -> (r: u64)
    ensures
        r == total_order_key(b),
{
    if b >= SIGN_BIT {
        0xffff_ffff_ffff_ffffu64 - b
    } else {
        b + SIGN_BIT
    }
}

/// The negation of a float flips its sign bit.
pub open spec fn float_neg(b: u64) -> u64 {
    if b >= SIGN_BIT {
        (b - SIGN_BIT) as u64
    } else {
        (b + SIGN_BIT) as u64
    }
}

pub fn negate(b: u64) -> (r: u64)
    ensures
        r == float_neg(b),
{
    if b >= SIGN_BIT {
        b - SIGN_BIT
    } else {
        b + SIGN_BIT
    }
}

/// The bits are a NaN: all exponent bits set and a non-zero mantissa.
pub open spec fn is_nan_bits(b: u64) -> bool {
    (b >> 52u64) & 0x7ffu64 == 0x7ffu64 && b & 0xf_ffff_ffff_ffffu64 != 0
}

/// The one NaN that the library's float arithmetic returns.
pub const CANONICAL_NAN: u64 = 0x7ff8_0000_0000_0000;

/// A float with every NaN replaced by `CANONICAL_NAN`.
pub open spec fn canonical(b: u64) -> u64 {
    if is_nan_bits(b) {
        CANONICAL_NAN
    } else {
        b
    }
}

fn canonicalize(b: u64) -> (r: u64)
    ensures
        r == canonical(b),
{
    if (b >> 52u64) & 0x7ffu64 == 0x7ffu64 && b & 0xf_ffff_ffff_ffffu64 != 0 {
        CANONICAL_NAN
    } else {
        b
    }
}

pub uninterp spec fn float_add_of(a: u64, b: u64) -> u64;

pub uninterp spec fn float_sub_of(a: u64, b: u64) -> u64;

pub uninterp spec fn float_mul_of(a: u64, b: u64) -> u64;

pub uninterp spec fn float_div_of(a: u64, b: u64) -> u64;

pub uninterp spec fn float_rem_of(a: u64, b: u64) -> u64;

pub uninterp spec fn float_from_u64_of(n: u64) -> u64;

pub uninterp spec fn float_text_of(b: u64) -> Seq<char>;

/// Relies on arrow's `numeric::add`: on Float64 operands it adds the two values and
/// never fails. Which NaN bit pattern a NaN result carries depends on the
/// machine, so only its being NaN is stated.
#[verifier::external_body]
fn arrow_add(a: u64, b: u64) -> (r: u64)
    ensures
        is_nan_bits(r) == is_nan_bits(float_add_of(a, b)),
        !is_nan_bits(r) ==> r == float_add_of(a, b),
{
    let l = arrow::array::Float64Array::new(arrow::buffer::ScalarBuffer::new(arrow::buffer::Buffer::from_vec(vec![a]), 0, 1), None);
    let r = arrow::array::Float64Array::new(arrow::buffer::ScalarBuffer::new(arrow::buffer::Buffer::from_vec(vec![b]), 0, 1), None);
    let out = arrow::compute::kernels::numeric::add(&l, &r).unwrap();
    out.to_data().buffers()[0].typed_data::<u64>()[0]
}

/// Relies on arrow's `numeric::sub`: on Float64 operands it subtracts and
/// never fails. Which NaN bit pattern a NaN result carries depends on the
/// machine, so only its being NaN is stated.
#[verifier::external_body]
fn arrow_sub(a: u64, b: u64) -> (r: u64)
    ensures
        is_nan_bits(r) == is_nan_bits(float_sub_of(a, b)),
        !is_nan_bits(r) ==> r == float_sub_of(a, b),
{
    let l = arrow::array::Float64Array::new(arrow::buffer::ScalarBuffer::new(arrow::buffer::Buffer::from_vec(vec![a]), 0, 1), None);
    let r = arrow::array::Float64Array::new(arrow::buffer::ScalarBuffer::new(arrow::buffer::Buffer::from_vec(vec![b]), 0, 1), None);
    let out = arrow::compute::kernels::numeric::sub(&l, &r).unwrap();
    out.to_data().buffers()[0].typed_data::<u64>()[0]
}

/// Relies on arrow's `numeric::mul`: on Float64 operands it multiplies and
/// never fails. Which NaN bit pattern a NaN result carries depends on the
/// machine, so only its being NaN is stated.
#[verifier::external_body]
fn arrow_mul(a: u64, b: u64) -> (r: u64)
    ensures
        is_nan_bits(r) == is_nan_bits(float_mul_of(a, b)),
        !is_nan_bits(r) ==> r == float_mul_of(a, b),
{
    let l = arrow::array::Float64Array::new(arrow::buffer::ScalarBuffer::new(arrow::buffer::Buffer::from_vec(vec![a]), 0, 1), None);
    let r = arrow::array::Float64Array::new(arrow::buffer::ScalarBuffer::new(arrow::buffer::Buffer::from_vec(vec![b]), 0, 1), None);
    let out = arrow::compute::kernels::numeric::mul(&l, &r).unwrap();
    out.to_data().buffers()[0].typed_data::<u64>()[0]
}

/// Relies on arrow's `numeric::div`: on Float64 operands it divides (a zero divisor gives an infinity or NaN) and
/// never fails. Which NaN bit pattern a NaN result carries depends on the
/// machine, so only its being NaN is stated.
#[verifier::external_body]
fn arrow_div(a: u64, b: u64) -> (r: u64)
    ensures
        is_nan_bits(r) == is_nan_bits(float_div_of(a, b)),
        !is_nan_bits(r) ==> r == float_div_of(a, b),
{
    let l = arrow::array::Float64Array::new(arrow::buffer::ScalarBuffer::new(arrow::buffer::Buffer::from_vec(vec![a]), 0, 1), None);
    let r = arrow::array::Float64Array::new(arrow::buffer::ScalarBuffer::new(arrow::buffer::Buffer::from_vec(vec![b]), 0, 1), None);
    let out = arrow::compute::kernels::numeric::div(&l, &r).unwrap();
    out.to_data().buffers()[0].typed_data::<u64>()[0]
}

/// Relies on arrow's `numeric::rem`: on Float64 operands it takes the remainder and
/// never fails. Which NaN bit pattern a NaN result carries depends on the
/// machine, so only its being NaN is stated.
#[verifier::external_body]
fn arrow_rem(a: u64, b: u64) -> (r: u64)
    ensures
        is_nan_bits(r) == is_nan_bits(float_rem_of(a, b)),
        !is_nan_bits(r) ==> r == float_rem_of(a, b),
{
    let l = arrow::array::Float64Array::new(arrow::buffer::ScalarBuffer::new(arrow::buffer::Buffer::from_vec(vec![a]), 0, 1), None);
    let r = arrow::array::Float64Array::new(arrow::buffer::ScalarBuffer::new(arrow::buffer::Buffer::from_vec(vec![b]), 0, 1), None);
    let out = arrow::compute::kernels::numeric::rem(&l, &r).unwrap();
    out.to_data().buffers()[0].typed_data::<u64>()[0]
}

/// `a + b` in floating point, with a NaN result made canonical.
pub(crate) fn float_add(a: u64, b: u64) -> (r: u64)
    ensures
        r == canonical(float_add_of(a, b)),
{
    canonicalize(arrow_add(a, b))
}

/// `a - b` in floating point, with a NaN result made canonical.
pub(crate) fn float_sub(a: u64, b: u64) -> (r: u64)
    ensures
        r == canonical(float_sub_of(a, b)),
{
    canonicalize(arrow_sub(a, b))
}

/// `a * b` in floating point, with a NaN result made canonical.
pub(crate) fn float_mul(a: u64, b: u64) -> (r: u64)
    ensures
        r == canonical(float_mul_of(a, b)),
{
    canonicalize(arrow_mul(a, b))
}

/// `a / b` in floating point, with a NaN result made canonical.
pub(crate) fn float_div(a: u64, b: u64) -> (r: u64)
    ensures
        r == canonical(float_div_of(a, b)),
{
    canonicalize(arrow_div(a, b))
}

/// `a % b` in floating point, with a NaN result made canonical.
pub(crate) fn float_rem(a: u64, b: u64) -> (r: u64)
    ensures
        r == canonical(float_rem_of(a, b)),
{
    canonicalize(arrow_rem(a, b))
}

/// Relies on arrow's `cast` from UInt64 to Float64: the nearest float to `n`;
/// this cast never fails.
#[verifier::external_body]
pub(crate) fn float_from_u64(n: u64) -> (r: u64)
    ensures
        r == float_from_u64_of(n),
{
    let a = arrow::array::UInt64Array::from(vec![n]);
    let out = arrow::compute::cast(&a, &arrow::datatypes::DataType::Float64).unwrap();
    out.to_data().buffers()[0].typed_data::<u64>()[0]
}

/// Relies on arrow's `array_value_to_string`: the text of a float value; it
/// does not fail on a Float64 array.
#[verifier::external_body]
pub(crate) fn float_text(b: u64) -> (r: String)
    ensures
        r@ == float_text_of(b),
{
    let a = arrow::array::Float64Array::new(arrow::buffer::ScalarBuffer::new(arrow::buffer::Buffer::from_vec(vec![b]), 0, 1), None);
    arrow::util::display::array_value_to_string(&a, 0).unwrap()
}

/// The nearest float to a signed integer: conversion rounds symmetrically, so
/// a negative value converts as the negation of its magnitude.
pub open spec fn float_from_i64(v: i64) -> u64 {
    if v < 0 {
        float_neg(float_from_u64_of((-(v as int)) as u64))
    } else {
        float_from_u64_of(v as u64)
    }
}

pub fn float_from_int(v: i64) -> (r: u64)
    ensures
        r == float_from_i64(v),
{
    if v < 0 {
        let m: u64 = if v == i64::MIN {
            0x8000_0000_0000_0000u64
        } else {
            (-v) as u64
        };
        negate(float_from_u64(m))
    } else {
        float_from_u64(v as u64)
    }
}

} // verus!
