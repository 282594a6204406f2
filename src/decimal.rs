//! Fixed-point decimals with eighteen fractional digits, held as their atomic
//! integer count.

use vstd::prelude::*;

verus! {

/// Atomic units in one whole unit.
pub const DECIMAL_FRACTIONAL: u128 = 1_000_000_000_000_000_000;

pub open spec fn fractional() -> int {
    1_000_000_000_000_000_000
}

pub open spec fn max_atomics() -> int {
    u128::MAX as int
}

/// `n * 10^18 / d`, rounded down.
pub open spec fn ratio_atomics(n: int, d: int) -> int {
    n * fractional() / d
}

/// The product of two decimals given by their atomics, rounded down.
pub open spec fn mul_atomics(a: int, b: int) -> int {
    a * b / fractional()
}

/// A non-negative fixed-point number: `atomics / 10^18`.
#[derive(Clone, Copy, Debug, PartialEq, Eq, PartialOrd, Ord, Hash, Structural)]
pub struct Decimal {
    pub atomics: u128,
}

/// Relies on cosmwasm_std::Decimal::checked_from_ratio: `n * 10^18 / d` rounded
/// down, an error when `d` is zero or the result does not fit in 128 bits.
#[verifier::external_body]
fn cw_checked_from_ratio(n: u128, d: u128) -> (r: Option<u128>)
    ensures
        d == 0 ==> r.is_none(),
        d != 0 ==> (r.is_some() <==> ratio_atomics(n as int, d as int) <= max_atomics()),
        r.is_some() ==> r.unwrap() == ratio_atomics(n as int, d as int),
{
    match cosmwasm_std::Decimal::checked_from_ratio(n, d) {
        Ok(v) => Some(v.atomics().u128()),
        Err(_) => None,
    }
}

/// Relies on cosmwasm_std::Decimal::checked_mul: the product rounded down, an
/// error when it does not fit in 128 bits.
#[verifier::external_body]
fn cw_checked_mul(a: u128, b: u128) -> (r: Option<u128>)
    ensures
        r.is_some() <==> mul_atomics(a as int, b as int) <= max_atomics(),
        r.is_some() ==> r.unwrap() == mul_atomics(a as int, b as int),
{
    match cosmwasm_std::Decimal::raw(a).checked_mul(cosmwasm_std::Decimal::raw(b)) {
        Ok(v) => Some(v.atomics().u128()),
        Err(_) => None,
    }
}

impl Default for Decimal {
    /// Zero.
    fn default() -> (r: Decimal)
        ensures
            r.atomics == 0,
    {
        Decimal { atomics: 0 }
    }
}

impl Decimal {
    pub open spec fn value(self) -> int {
        self.atomics as int
    }

    pub fn zero() -> (r: Decimal)
        ensures
            r.value() == 0,
    {
        Decimal { atomics: 0 }
    }

    pub fn one() -> (r: Decimal)
        ensures
            r.value() == fractional(),
    {
        Decimal { atomics: DECIMAL_FRACTIONAL }
    }

    pub fn raw(atomics: u128) -> (r: Decimal)
        ensures
            r.atomics == atomics,
    {
        Decimal { atomics }
    }

    /// `numerator / denominator`, or `None` when the denominator is zero or the
    /// quotient is out of range.
    pub fn checked_from_ratio(numerator: u128, denominator: u128) -> (r: Option<Decimal>)
        ensures
            r.is_some() <==> denominator != 0 && ratio_atomics(numerator as int, denominator as int)
                <= max_atomics(),
            r.is_some() ==> r.unwrap().value() == ratio_atomics(numerator as int, denominator as int),
    {
        match cw_checked_from_ratio(numerator, denominator) {
            Some(a) => Some(Decimal { atomics: a }),
            None => None,
        }
    }

    /// The product, or `None` when it is out of range.
    pub fn checked_mul(self, other: Decimal) -> (r: Option<Decimal>)
        ensures
            r.is_some() <==> mul_atomics(self.value(), other.value()) <= max_atomics(),
            r.is_some() ==> r.unwrap().value() == mul_atomics(self.value(), other.value()),
    {
        match cw_checked_mul(self.atomics, other.atomics) {
            Some(a) => Some(Decimal { atomics: a }),
            None => None,
        }
    }

    /// The sum, or `None` when it is out of range.
    pub fn checked_add(self, other: Decimal) -> (r: Option<Decimal>)
        ensures
            r.is_some() <==> self.value() + other.value() <= max_atomics(),
            r.is_some() ==> r.unwrap().value() == self.value() + other.value(),
    {
        match self.atomics.checked_add(other.atomics) {
            Some(a) => Some(Decimal { atomics: a }),
            None => None,
        }
    }

    pub fn ge(&self, other: &Decimal) -> (r: bool)
        ensures
            r == (self.value() >= other.value()),
    {
        self.atomics >= other.atomics
    }
}

} // verus!
