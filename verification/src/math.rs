//! Fixed-point rates with 18 fractional decimal digits, and the checked
//! multiply-divide primitives the ledger's arithmetic is built on.
//!
//! Every operation is checked: an intermediate product that does not fit in a
//! `u128` yields `None` instead of wrapping, so callers can treat overflow as
//! a fatal arithmetic fault.

use vstd::prelude::*;

verus! {

/// Number of atomic units in 1.0 of a rate.
pub const SCALE: u128 = 1_000_000_000_000_000_000;

/// A non-negative fixed-point rate: the rational `atomics / SCALE`.
#[derive(Clone, Copy, Debug, PartialEq, Eq, Structural)]
pub struct Dec {
    pub atomics: u128,
}

impl Dec {
    /// The rate 0.
    pub fn zero() -> (r: Dec)
        ensures
            r.atomics == 0,
    {
        Dec { atomics: 0 }
    }

    /// The rate 1.
    pub fn one() -> (r: Dec)
        ensures
            r.atomics == SCALE,
    {
        Dec { atomics: SCALE }
    }

    pub fn is_zero(&self) -> (r: bool)
        ensures
            r == (self.atomics == 0),
    {
        self.atomics == 0
    }
}

/// floor(a * b / d); `None` exactly when the product `a * b` does not fit in
/// a `u128`.
pub fn mul_div_floor(a: u128, b: u128, d: u128) -> (r: Option<u128>)
    requires
        d > 0,
    ensures
        a * b <= u128::MAX ==> r == Some((((a as int) * (b as int)) / (d as int)) as u128),
        a * b > u128::MAX ==> r is None,
{
    proof {
        vstd::arithmetic::div_mod::lemma_div_nonincreasing((a as int) * (b as int), d as int);
    }
    match a.checked_mul(b) {
        Some(p) => Some(p / d),
        None => None,
    }
}

/// The rate `n / d` rounded down to an atomic unit; `None` exactly when the
/// intermediate `n * SCALE` does not fit in a `u128`.
pub fn dec_from_ratio(n: u128, d: u128) -> (r: Option<Dec>)
    requires
        d > 0,
    ensures
        n * SCALE <= u128::MAX ==> r == Some(Dec {
            atomics: (((n as int) * (SCALE as int)) / (d as int)) as u128,
        }),
        n * SCALE > u128::MAX ==> r is None,
{
    match mul_div_floor(n, SCALE, d) {
        Some(q) => Some(Dec { atomics: q }),
        None => None,
    }
}

/// floor(amount * rate), the underlying-asset value of `amount` derivative
/// units at `rate`; `None` exactly when `amount * rate.atomics` overflows.
pub fn mul_floor(amount: u128, rate: Dec) -> (r: Option<u128>)
    ensures
        amount * rate.atomics <= u128::MAX ==> r == Some(
            (((amount as int) * (rate.atomics as int)) / (SCALE as int)) as u128,
        ),
        amount * rate.atomics > u128::MAX ==> r is None,
{
    mul_div_floor(amount, rate.atomics, SCALE)
}

/// floor(numerator / denominator), the derivative units bought by `numerator`
/// underlying units at rate `denominator`; `None` when the rate is zero or
/// when the intermediate `numerator * SCALE` overflows.
pub fn decimal_division(numerator: u128, denominator: Dec) -> (r: Option<u128>)
    ensures
        denominator.atomics == 0 ==> r is None,
        denominator.atomics > 0 && numerator * SCALE <= u128::MAX ==> r == Some(
            (((numerator as int) * (SCALE as int)) / (denominator.atomics as int)) as u128,
        ),
        denominator.atomics > 0 && numerator * SCALE > u128::MAX ==> r is None,
{
    if denominator.atomics == 0 {
        None
    } else {
        mul_div_floor(numerator, SCALE, denominator.atomics)
    }
}

/// floor(a * b) on rates; `None` exactly when `a.atomics * b.atomics`
/// overflows.
pub fn dec_mul_floor(a: Dec, b: Dec) -> (r: Option<Dec>)
    ensures
        a.atomics * b.atomics <= u128::MAX ==> r == Some(Dec {
            atomics: (((a.atomics as int) * (b.atomics as int)) / (SCALE as int)) as u128,
        }),
        a.atomics * b.atomics > u128::MAX ==> r is None,
{
    match mul_div_floor(a.atomics, b.atomics, SCALE) {
        Some(q) => Some(Dec { atomics: q }),
        None => None,
    }
}

} // verus!
