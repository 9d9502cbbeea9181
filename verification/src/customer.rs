//! A validated customer name: the stored string is the trimmed input,
//! and it is never empty.

use vstd::prelude::*;

use crate::text::{spec_trim, trim_to_string};

verus! {

/// A customer name; the wrapped string is already trimmed and non-empty.
#[derive(Eq, PartialEq, Debug, Clone)]
pub struct Customer(String);

/// Why a raw string was rejected as a customer name.
#[derive(Eq, PartialEq, Debug, Copy, Clone)]
pub enum Error {
    IsEmpty,
}

impl View for Customer {
    type V = Seq<char>;

    closed spec fn view(&self) -> Seq<char> {
        self.0@
    }
}

impl Customer {
    /// Validates a raw name: the input is trimmed once, here; an input
    /// that trims to nothing is rejected with `Error::IsEmpty`.
    pub fn new(customer: String) -> (r: Result<Customer, Error>)
        ensures
            (r matches Ok(c) ==> c@ == spec_trim(customer@) && spec_trim(customer@).len() > 0),
            (r matches Err(e) ==> e == Error::IsEmpty && spec_trim(customer@).len() == 0),
    {
        let trimmed = trim_to_string(customer.as_str());
        if trimmed.as_str().is_empty() {
            Err(Error::IsEmpty)
        } else {
            Ok(Customer(trimmed))
        }
    }

    /// The human-readable form: exactly the stored, already-trimmed name.
    pub fn name(&self) -> (r: String)
        ensures
            r@ == self@,
    {
        self.0.clone()
    }
}

} // verus!
