//! Scalar floating-point operations over IEEE 754 binary64 bit patterns.
//!
//! A `u64` in this crate stands for the bits of one binary64 value.  The
//! basic operations (add, subtract, multiply, divide, square root, compare)
//! are correctly rounded under IEEE 754, so their result bits are a function
//! of the operand bits alone; each gets an uninterpreted name and a trusted
//! wrapper whose body performs the one operation through a deterministic
//! software implementation of binary64 arithmetic, rounding to nearest-even
//! (the hardware default).  Negation and absolute value only touch the sign
//! bit and are done directly on the bits by verified code.

use rustc_apfloat::ieee::Double;
use vstd::prelude::*;

verus! {

/// Bits of positive zero.
pub const POS_ZERO: u64 = 0;

/// The sign bit of a binary64 value.
pub const SIGN_MASK: u64 = 0x8000_0000_0000_0000;

/// Everything but the sign bit of a binary64 value.
pub const ABS_MASK: u64 = 0x7FFF_FFFF_FFFF_FFFF;

/// Bits of positive infinity; every positive finite value has bits
/// strictly between `POS_ZERO` and this.
pub const POS_INFINITY: u64 = 0x7FF0_0000_0000_0000;

/// Bits of the curvature threshold below which the conjugate-gradient
/// solver treats a search direction as numerically degenerate (1.0e-15).
pub const BREAKDOWN_LIMIT: u64 = 0x3CD2_03AF_9EE7_5616;

/// Every entry of `s` is the bit pattern of positive zero.
pub open spec fn all_zero(s: Seq<u64>) -> bool {
    forall|i: int| 0 <= i < s.len() ==> s[i] == POS_ZERO
}

/// A vector of `n` positive zeros.
pub open spec fn zero_seq(n: nat) -> Seq<u64> {
    Seq::new(n, |i: int| POS_ZERO)
}

pub uninterp spec fn fadd_bits(a: u64, b: u64) -> u64;

pub uninterp spec fn fsub_bits(a: u64, b: u64) -> u64;

pub uninterp spec fn fmul_bits(a: u64, b: u64) -> u64;

pub uninterp spec fn fdiv_bits(a: u64, b: u64) -> u64;

pub uninterp spec fn fsqrt_bits(a: u64) -> u64;

pub uninterp spec fn flt_bits(a: u64, b: u64) -> bool;

/// Relies on `rustc_apfloat::ieee::Double`'s `+` (`add_r`, ties-to-even):
/// correctly rounded binary64 addition, a pure function of the operand
/// bits; the sum of two positive zeros is positive zero.
#[verifier::external_body]
pub(crate) fn fadd(a: u64, b: u64) -> (r: u64)
    ensures
        r == fadd_bits(a, b),
        a == POS_ZERO && b == POS_ZERO ==> r == POS_ZERO,
{
    let x = <Double as rustc_apfloat::Float>::from_bits(a as u128);
    let y = <Double as rustc_apfloat::Float>::from_bits(b as u128);
    rustc_apfloat::Float::to_bits((x + y).value) as u64
}

/// Relies on `rustc_apfloat::ieee::Double`'s `-` (`sub_r`, ties-to-even):
/// correctly rounded binary64 subtraction, a pure function of the operand
/// bits; the difference of two positive zeros is positive zero under
/// round-to-nearest.
#[verifier::external_body]
pub(crate) fn fsub(a: u64, b: u64) -> (r: u64)
    ensures
        r == fsub_bits(a, b),
        a == POS_ZERO && b == POS_ZERO ==> r == POS_ZERO,
{
    let x = <Double as rustc_apfloat::Float>::from_bits(a as u128);
    let y = <Double as rustc_apfloat::Float>::from_bits(b as u128);
    rustc_apfloat::Float::to_bits((x - y).value) as u64
}

/// Relies on `rustc_apfloat::ieee::Double`'s `*` (`mul_r`, ties-to-even):
/// correctly rounded binary64 multiplication, a pure function of the
/// operand bits; the product of two positive zeros is positive zero.
#[verifier::external_body]
pub(crate) fn fmul(a: u64, b: u64) -> (r: u64)
    ensures
        r == fmul_bits(a, b),
        a == POS_ZERO && b == POS_ZERO ==> r == POS_ZERO,
{
    let x = <Double as rustc_apfloat::Float>::from_bits(a as u128);
    let y = <Double as rustc_apfloat::Float>::from_bits(b as u128);
    rustc_apfloat::Float::to_bits((x * y).value) as u64
}

/// Relies on `rustc_apfloat::ieee::Double`'s `/` (`div_r`, ties-to-even):
/// correctly rounded binary64 division, a pure function of the operand
/// bits.
#[verifier::external_body]
pub(crate) fn fdiv(a: u64, b: u64) -> (r: u64)
    ensures
        r == fdiv_bits(a, b),
{
    let x = <Double as rustc_apfloat::Float>::from_bits(a as u128);
    let y = <Double as rustc_apfloat::Float>::from_bits(b as u128);
    rustc_apfloat::Float::to_bits((x / y).value) as u64
}

/// Relies on `libm::sqrt`: a correctly rounded binary64 square root as
/// IEEE 754 requires, a pure function of the operand bits; the square root
/// of positive zero is positive zero.  `bytemuck::cast` carries the bits
/// into and out of the call unchanged.
#[verifier::external_body]
pub(crate) fn fsqrt(a: u64) -> (r: u64)
    ensures
        r == fsqrt_bits(a),
        a == POS_ZERO ==> r == POS_ZERO,
{
    libm::sqrt(bytemuck::cast(a)).to_bits()
}

/// Relies on `rustc_apfloat::ieee::Double`'s `<` (`partial_cmp`): the IEEE
/// 754 quiet ordered less-than, determined by the operand bits alone (false
/// on any NaN operand); positive zero is less than every positive finite
/// nonzero value.
#[verifier::external_body]
pub(crate) fn flt(a: u64, b: u64) -> (r: bool)
    ensures
        r == flt_bits(a, b),
        a == POS_ZERO && POS_ZERO < b < POS_INFINITY ==> r == true,
{
    let x = <Double as rustc_apfloat::Float>::from_bits(a as u128);
    let y = <Double as rustc_apfloat::Float>::from_bits(b as u128);
    x < y
}

} // verus!
