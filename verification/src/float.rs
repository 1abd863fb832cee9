//! Bit-level arithmetic on IEEE-754 doubles.
//!
//! The machine stores a float value as its 64-bit pattern. The arithmetic
//! itself is done by the `rustc_apfloat` soft-float library, which computes
//! IEEE-754 binary64 operations (round to nearest, ties to even) purely on
//! bit patterns; the results are named here and never re-stated.

use vstd::prelude::*;
use rustc_apfloat::Float;

verus! {

/// The bit pattern of the IEEE-754 sum of two doubles given as bit patterns.
pub uninterp spec fn f64_add(a: u64, b: u64) -> u64;

/// The bit pattern of the IEEE-754 product of two doubles given as bit patterns.
pub uninterp spec fn f64_mul(a: u64, b: u64) -> u64;

/// The bit pattern of the IEEE-754 quotient of two doubles given as bit patterns.
pub uninterp spec fn f64_div(a: u64, b: u64) -> u64;

/// Relies on `rustc_apfloat::ieee::Double::add_r`: IEEE-754 binary64
/// addition, rounding to nearest even, a function of the two bit patterns
/// alone.
#[verifier::external_body]
pub fn f64_bits_add(a: u64, b: u64) -> (r: u64)
    ensures
        r == f64_add(a, b),
{
    let x = rustc_apfloat::ieee::Double::from_bits(a as u128);
    let y = rustc_apfloat::ieee::Double::from_bits(b as u128);
    x.add_r(y, rustc_apfloat::Round::NearestTiesToEven).value.to_bits() as u64
}

/// Relies on `rustc_apfloat::ieee::Double::mul_r`: IEEE-754 binary64
/// multiplication, rounding to nearest even, a function of the two bit
/// patterns alone.
#[verifier::external_body]
pub fn f64_bits_mul(a: u64, b: u64) -> (r: u64)
    ensures
        r == f64_mul(a, b),
{
    let x = rustc_apfloat::ieee::Double::from_bits(a as u128);
    let y = rustc_apfloat::ieee::Double::from_bits(b as u128);
    x.mul_r(y, rustc_apfloat::Round::NearestTiesToEven).value.to_bits() as u64
}

/// Relies on `rustc_apfloat::ieee::Double::div_r`: IEEE-754 binary64
/// division, rounding to nearest even, a function of the two bit patterns
/// alone.
#[verifier::external_body]
pub fn f64_bits_div(a: u64, b: u64) -> (r: u64)
    ensures
        r == f64_div(a, b),
{
    let x = rustc_apfloat::ieee::Double::from_bits(a as u128);
    let y = rustc_apfloat::ieee::Double::from_bits(b as u128);
    x.div_r(y, rustc_apfloat::Round::NearestTiesToEven).value.to_bits() as u64
}

/// The sign bit of an IEEE-754 binary64 bit pattern.
pub const F64_SIGN_BIT: u64 = 0x8000_0000_0000_0000;

/// IEEE-754 negation flips the sign bit of the pattern and nothing else.
pub fn f64_bits_neg(a: u64) -> (r: u64)
    ensures
        r == a ^ F64_SIGN_BIT,
{
    a ^ F64_SIGN_BIT
}

} // verus!
