//! A validated monetary magnitude: non-negative by construction,
//! immutable afterwards.

use vstd::prelude::*;

use crate::money::Money;

verus! {

/// A non-negative monetary amount.
#[derive(PartialEq, Debug, Copy, Clone)]
pub struct Amount(Money);

/// Why a raw value was rejected as an amount.
#[derive(Eq, PartialEq, Debug, Copy, Clone)]
pub enum Error {
    IsNegative,
}

impl View for Amount {
    type V = int;

    closed spec fn view(&self) -> int {
        self.0@
    }
}

impl Amount {
    /// Holds of every `Amount` that can be constructed: the value is
    /// non-negative and fits the fixed-point representation.
    #[verifier::type_invariant]
    pub open spec fn in_range(self) -> bool {
        0 <= self@ <= i64::MAX
    }

    /// Validates a raw value: negative values are rejected with
    /// `Error::IsNegative`; any other value is accepted unchanged.
    pub fn new(amount: Money) -> (r: Result<Amount, Error>)
        ensures
            (r matches Ok(a) ==> a@ == amount@ && amount@ >= 0),
            (r matches Err(e) ==> e == Error::IsNegative && amount@ < 0),
    {
        if amount.as_mils() < 0 {
            Err(Error::IsNegative)
        } else {
            Ok(Amount(amount))
        }
    }
}

/// A validated amount converts back to exactly the raw value it was
/// constructed from: what `Amount::new` accepts, `Money::from` returns
/// unchanged.
pub proof fn lemma_amount_round_trip(value: Money, a: Amount)
    requires
        a@ == value@,
    ensures
        <Money as vstd::std_specs::convert::FromSpec<Amount>>::from_spec(a) == value,
{
}

impl From<Amount> for Money {
    /// Converting back to the raw value is lossless and total.
    fn from(amount: Amount) -> (r: Money) {
        amount.0
    }
}

impl vstd::std_specs::convert::FromSpecImpl<Amount> for Money {
    open spec fn obeys_from_spec() -> bool {
        true
    }

    open spec fn from_spec(v: Amount) -> Money {
        Money { mils: v@ as i64 }
    }
}

} // verus!
