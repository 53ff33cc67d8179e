//! Unsigned fixed-point numbers with 18 decimal places, held by their inner value.
//!
//! A value `x` stands for `x / 10^18`. The arithmetic is the one of
//! `sp_arithmetic::FixedU128`, called through the wrappers below.
use sp_arithmetic::traits::{CheckedDiv, Saturating};
use sp_arithmetic::{FixedPointNumber, FixedU128};
use vstd::prelude::*;

verus! {

/// The inner value of one (`10^18`).
pub const FIXED_ONE: u128 = 1_000_000_000_000_000_000u128;

/// Floor of `a * b / c` when it fits in a `u128`.
pub open spec fn mul_div_floor(a: u128, b: u128, c: u128) -> Option<u128> {
    if c == 0 {
        None
    } else if (a as int) * (b as int) / (c as int) <= u128::MAX as int {
        Some(((a as int) * (b as int) / (c as int)) as u128)
    } else {
        None
    }
}

/// Checked fixed-point division of inner values `a / b`, rounding down.
pub open spec fn spec_fixed_checked_div(a: u128, b: u128) -> Option<u128> {
    mul_div_floor(a, FIXED_ONE, b)
}

/// Saturating fixed-point product of inner values, rounding down.
pub open spec fn spec_fixed_saturating_mul(a: u128, b: u128) -> u128 {
    match mul_div_floor(a, b, FIXED_ONE) {
        Some(v) => v,
        None => u128::MAX,
    }
}

/// Saturating product of a fixed-point number and an integer, rounding down.
pub open spec fn spec_fixed_saturating_mul_int(a: u128, n: u128) -> u128 {
    spec_fixed_saturating_mul(a, n)
}

/// Saturating sum of inner values.
pub open spec fn spec_fixed_saturating_add(a: u128, b: u128) -> u128 {
    if a + b > u128::MAX { u128::MAX } else { (a + b) as u128 }
}

/// `FixedU128::checked_div` (through `CheckedDiv`): `None` when `b` is zero or the
/// quotient does not fit, otherwise the quotient rounded down.
#[verifier::external_body]
pub(crate) fn fixed_checked_div(a: u128, b: u128) -> (r: Option<u128>)
    ensures
        r == spec_fixed_checked_div(a, b),
{
    match FixedU128::from_inner(a).checked_div(&FixedU128::from_inner(b)) {
        Some(q) => Some(q.into_inner()),
        None => None,
    }
}

/// `FixedU128::saturating_mul` (through `Saturating`): the product rounded down,
/// or the largest value when it does not fit.
#[verifier::external_body]
pub(crate) fn fixed_saturating_mul(a: u128, b: u128) -> (r: u128)
    ensures
        r == spec_fixed_saturating_mul(a, b),
{
    FixedU128::from_inner(a).saturating_mul(FixedU128::from_inner(b)).into_inner()
}

/// `FixedPointNumber::saturating_mul_int` of `FixedU128` on a `u128`: the product
/// rounded down, or `u128::MAX` when it does not fit.
#[verifier::external_body]
pub(crate) fn fixed_saturating_mul_int(a: u128, n: u128) -> (r: u128)
    ensures
        r == spec_fixed_saturating_mul_int(a, n),
{
    FixedU128::from_inner(a).saturating_mul_int(n)
}

/// The saturating sum of two fixed-point numbers, as `FixedU128` computes it:
/// the saturating sum of their inner values.
pub(crate) fn fixed_saturating_add(a: u128, b: u128) -> (r: u128)
    ensures
        r == spec_fixed_saturating_add(a, b),
{
    a.saturating_add(b)
}

} // verus!
