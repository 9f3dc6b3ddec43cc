//! Trigonometry over Q16.16 fixed-point values, done by the `cordic` crate on
//! `fixed::types::I48F16` numbers (16 fractional bits, matching our scale).
//!
//! The exact values of cosine, sine and arctangent take pages to state, so
//! each is given a name (`cos_units`, `sin_units`, `atan2_units`): a pure
//! function of its arguments, computed by the outside crate. Only coarse
//! magnitude bounds are stated beside the names; callers use them to rule out
//! overflow, never to pin the transcendental value.

use vstd::prelude::*;
use crate::geom::{ONE, TWO_PI_FP, MAX_COORD_FP};

verus! {

pub uninterp spec fn cos_units(a: int) -> int;

pub uninterp spec fn sin_units(a: int) -> int;

pub uninterp spec fn atan2_units(y: int, x: int) -> int;

/// Relies on cordic::cos on I48F16: the cosine of an angle given in Q16.16
/// radians, again in Q16.16. The CORDIC rotation keeps the magnitude of the
/// result near 1.0; `2 * ONE` is a safe outer bound.
#[verifier::external_body]
pub fn cos_fp(a: i64) -> (r: i64)
    requires
        0 <= a < TWO_PI_FP,
    ensures
        r == cos_units(a as int),
        -2 * ONE <= r <= 2 * ONE,
{
    cordic::cos(fixed::types::I48F16::from_bits(a)).to_bits()
}

/// Relies on cordic::sin on I48F16: the sine of an angle given in Q16.16
/// radians, again in Q16.16, with magnitude near 1.0 and surely within 2.0.
#[verifier::external_body]
pub fn sin_fp(a: i64) -> (r: i64)
    requires
        0 <= a < TWO_PI_FP,
    ensures
        r == sin_units(a as int),
        -2 * ONE <= r <= 2 * ONE,
{
    cordic::sin(fixed::types::I48F16::from_bits(a)).to_bits()
}

/// Relies on cordic::atan2 on I48F16: the quadrant-corrected arctangent of
/// `y / x`, in Q16.16 radians. Its branches return plain or pi-shifted
/// arctangents, so the magnitude stays below 4.0 radians (under a full turn).
#[verifier::external_body]
pub fn atan2_fp(y: i64, x: i64) -> (r: i64)
    requires
        -MAX_COORD_FP <= y <= MAX_COORD_FP,
        -MAX_COORD_FP <= x <= MAX_COORD_FP,
    ensures
        r == atan2_units(y as int, x as int),
        -4 * ONE <= r <= 4 * ONE,
{
    cordic::atan2(
        fixed::types::I48F16::from_bits(y),
        fixed::types::I48F16::from_bits(x),
    ).to_bits()
}

} // verus!
