//! IEEE-754 binary32 scalars, carried as their `u32` bit patterns.
//!
//! The verifier does not reason about floating-point values, so every scalar
//! in this crate is handled through its bit pattern. Comparisons are defined
//! exactly over the encoding: a value that is not NaN orders by its magnitude
//! bits, negated when the sign bit is set, and the two zeros compare equal.
//! Addition is rounded arithmetic and is performed by an outside software
//! implementation of IEEE-754 behind a trusted wrapper.

use vstd::prelude::*;
use rustc_apfloat::Float;

verus! {

/// Mask of the exponent field.
pub const EXPONENT_MASK: u32 = 0x7f80_0000;
/// Mask of the fraction field.
pub const FRACTION_MASK: u32 = 0x007f_ffff;
/// Mask of the sign bit.
pub const SIGN_MASK: u32 = 0x8000_0000;
/// Mask of everything but the sign bit.
pub const MAGNITUDE_MASK: u32 = 0x7fff_ffff;
/// Bit pattern of +0.0.
pub const ZERO_BITS: u32 = 0x0000_0000;
/// Bit pattern of 1.0.
pub const ONE_BITS: u32 = 0x3f80_0000;
/// Bit pattern of 6.0.
pub const SIX_BITS: u32 = 0x40c0_0000;

/// A bit pattern encodes NaN when the exponent field is all ones and the
/// fraction field is not zero.
pub open spec fn spec_is_nan(b: u32) -> bool {
    (b & EXPONENT_MASK) == EXPONENT_MASK && (b & FRACTION_MASK) != 0
}

/// Whether the sign bit is set (negative values and -0.0).
pub open spec fn spec_sign(b: u32) -> bool {
    (b & SIGN_MASK) != 0
}

/// The bit pattern with the sign bit cleared.
pub open spec fn spec_magnitude(b: u32) -> u32 {
    b & MAGNITUDE_MASK
}

/// An order key for the encoded value: for bit patterns that are not NaN,
/// the encoded values order exactly as their keys, and the keys of +0.0 and
/// -0.0 are both 0.
pub open spec fn spec_key(b: u32) -> int {
    if spec_sign(b) {
        -(spec_magnitude(b) as int)
    } else {
        spec_magnitude(b) as int
    }
}

/// The strict `>` comparison of two scalars; false when either is NaN.
pub open spec fn spec_gt(a: u32, b: u32) -> bool {
    !spec_is_nan(a) && !spec_is_nan(b) && spec_key(a) > spec_key(b)
}

/// The `<=` comparison of two scalars; false when either is NaN.
pub open spec fn spec_le(a: u32, b: u32) -> bool {
    !spec_is_nan(a) && !spec_is_nan(b) && spec_key(a) <= spec_key(b)
}

/// One scalar through relu: unchanged when strictly greater than zero,
/// +0.0 otherwise (also for NaN and -0.0).
pub open spec fn spec_relu(b: u32) -> u32 {
    if spec_gt(b, ZERO_BITS) {
        b
    } else {
        ZERO_BITS
    }
}

/// One scalar through relu, then clamped from above at `upper`.
pub open spec fn spec_relu_threshold(b: u32, upper: u32) -> u32 {
    if spec_gt(spec_relu(b), upper) {
        upper
    } else {
        spec_relu(b)
    }
}

/// Whether the scalar is NaN.
pub fn is_nan_bits(b: u32) -> (r: bool)
    ensures
        r == spec_is_nan(b),
{
    (b & EXPONENT_MASK) == EXPONENT_MASK && (b & FRACTION_MASK) != 0
}

/// The strict `>` comparison of two scalars, false when either is NaN,
/// computed on the bit patterns.
pub fn gt_bits(a: u32, b: u32) -> (r: bool)
    ensures
        r == spec_gt(a, b),
{
    if is_nan_bits(a) || is_nan_bits(b) {
        false
    } else {
        let a_neg = (a & SIGN_MASK) != 0;
        let b_neg = (b & SIGN_MASK) != 0;
        let a_mag = a & MAGNITUDE_MASK;
        let b_mag = b & MAGNITUDE_MASK;
        if a_neg {
            if b_neg {
                b_mag > a_mag
            } else {
                false
            }
        } else {
            if b_neg {
                a_mag > 0 || b_mag > 0
            } else {
                a_mag > b_mag
            }
        }
    }
}

/// One scalar through relu.
pub fn relu_value(b: u32) -> (r: u32)
    ensures
        r == spec_relu(b),
{
    if gt_bits(b, ZERO_BITS) {
        b
    } else {
        ZERO_BITS
    }
}

/// One scalar through relu, then clamped from above at `upper`.
pub fn relu_threshold_value(b: u32, upper: u32) -> (r: u32)
    ensures
        r == spec_relu_threshold(b, upper),
{
    let lowered = relu_value(b);
    if gt_bits(lowered, upper) {
        upper
    } else {
        lowered
    }
}

/// The named constants encode ordinary values: none of them is NaN, none is
/// negative, and their order keys are their magnitude bits.
pub proof fn lemma_constant_facts()
    ensures
        !spec_is_nan(ZERO_BITS) && !spec_sign(ZERO_BITS) && spec_key(ZERO_BITS) == 0,
        !spec_is_nan(ONE_BITS) && !spec_sign(ONE_BITS) && spec_key(ONE_BITS) == 0x3f80_0000,
        !spec_is_nan(SIX_BITS) && !spec_sign(SIX_BITS) && spec_key(SIX_BITS) == 0x40c0_0000,
{
    assert((0u32 & 0x7f80_0000u32) == 0u32 && (0u32 & 0x8000_0000u32) == 0u32 && (0u32
        & 0x7fff_ffffu32) == 0u32) by (bit_vector);
    assert((0x3f80_0000u32 & 0x7f80_0000u32) == 0x3f80_0000u32 && (0x3f80_0000u32
        & 0x8000_0000u32) == 0u32 && (0x3f80_0000u32 & 0x7fff_ffffu32) == 0x3f80_0000u32)
        by (bit_vector);
    assert((0x40c0_0000u32 & 0x7f80_0000u32) == 0x4080_0000u32 && (0x40c0_0000u32
        & 0x8000_0000u32) == 0u32 && (0x40c0_0000u32 & 0x7fff_ffffu32) == 0x40c0_0000u32)
        by (bit_vector);
}

/// After relu a scalar is not NaN and sits at or above +0.0.
pub proof fn lemma_relu_nonneg(b: u32)
    ensures
        spec_le(ZERO_BITS, spec_relu(b)),
{
    lemma_constant_facts();
}

/// Relu followed by a clamp at a non-NaN, non-negative upper bound lands in
/// the closed interval from +0.0 to that bound.
pub proof fn lemma_relu_threshold_in_range(b: u32, upper: u32)
    requires
        !spec_is_nan(upper),
        spec_key(upper) >= 0,
    ensures
        spec_le(ZERO_BITS, spec_relu_threshold(b, upper)),
        spec_le(spec_relu_threshold(b, upper), upper),
{
    lemma_constant_facts();
    lemma_relu_nonneg(b);
}

/// What the outside IEEE-754 adder returns for two scalars: the bit pattern
/// of their rounded sum (round to nearest, ties to even).
pub uninterp spec fn add_bits(a: u32, b: u32) -> u32;

/// Relies on rustc_apfloat's `Single` type: its `+` operator is IEEE-754
/// binary32 addition, rounding to nearest with ties to even, and its result
/// depends on the two operands alone; when neither operand is NaN the
/// rounded sum is the same in either order.
#[verifier::external_body]
pub(crate) fn sum_bits(a: u32, b: u32) -> (r: u32)
    ensures
        r == add_bits(a, b),
        !spec_is_nan(a) && !spec_is_nan(b) ==> r == add_bits(b, a),
{
    let x = rustc_apfloat::ieee::Single::from_bits(a as u128);
    let y = rustc_apfloat::ieee::Single::from_bits(b as u128);
    (x + y).value.to_bits() as u32
}

} // verus!
