//! The monetary scalar: a fixed-point value counted in thousandths
//! (mils) of the currency unit, so that `1.000` unit is `1000` mils.

use vstd::prelude::*;

verus! {

/// A signed fixed-point monetary value, counted in mils
/// (thousandths of the currency unit).
#[derive(Debug, Clone, Copy, PartialEq, Eq)]
pub struct Money {
    pub mils: i64,
}

impl Money {
    /// The mathematical value of this amount, in mils.
    pub open spec fn view(self) -> int {
        self.mils as int
    }

    /// Wraps a raw mil count.
    pub fn from_mils(mils: i64) -> (r: Money)
        ensures
            r@ == mils as int,
    {
        Money { mils }
    }

    /// Reads the raw mil count back out; the conversion is lossless.
    pub fn as_mils(self) -> (r: i64)
        ensures
            r as int == self@,
    {
        self.mils
    }
}

/// The value `v` pushed back into the range an `i64` can hold: values
/// past an end of the range come to rest on that end.
pub open spec fn clamp_to_i64(v: int) -> int {
    if v > i64::MAX as int {
        i64::MAX as int
    } else if v < i64::MIN as int {
        i64::MIN as int
    } else {
        v
    }
}

/// Adds a non-negative amount to a balance, saturating at the top of
/// the representable range.
pub fn saturating_add_amount(balance: i64, amount: i64) -> (r: i64)
    requires
        amount >= 0,
    ensures
        r as int == clamp_to_i64(balance + amount),
{
    if balance <= i64::MAX - amount {
        balance + amount
    } else {
        i64::MAX
    }
}

/// Subtracts a non-negative amount from a balance, saturating at the
/// bottom of the representable range.
pub fn saturating_sub_amount(balance: i64, amount: i64) -> (r: i64)
    requires
        amount >= 0,
    ensures
        r as int == clamp_to_i64(balance - amount),
{
    if balance >= i64::MIN + amount {
        balance - amount
    } else {
        i64::MIN
    }
}

} // verus!
