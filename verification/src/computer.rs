//! The account-computation collaborator: opening, depositing and
//! withdrawing, separated from how a session communicates.

use vstd::prelude::*;

use crate::account::{CreditAccount, RatedAccount};
use crate::amount::Amount;
use crate::customer::Customer;
use crate::money::clamp_to_i64;

verus! {

/// Computes the next account state for each teller operation. Every
/// implementation must transform balances exactly as the account
/// transitions do.
pub trait Computer: Sized {
    /// Opens a fresh account for the customer: balance zero, in credit.
    fn get_account(&self, customer: Customer) -> (r: RatedAccount)
        ensures
            r.spec_balance() == 0,
            r.spec_account().customer == customer,
            r.is_in_credit(),
            r.wf(),
    ;

    /// Adds the amount to the account's balance and re-rates it.
    fn deposit(&self, amount: Amount, account: RatedAccount) -> (r: RatedAccount)
        ensures
            r.spec_balance() == clamp_to_i64(account.spec_balance() + amount@),
            r.spec_account().customer == account.spec_account().customer,
            r.wf(),
    ;

    /// Subtracts the amount from the account's balance and re-rates it;
    /// the result may be overdrawn.
    fn withdraw(&self, amount: Amount, account: CreditAccount) -> (r: RatedAccount)
        ensures
            r.spec_balance() == clamp_to_i64(account.0.balance@ - amount@),
            r.spec_account().customer == account.0.customer,
            r.wf(),
    ;
}

/// The in-process implementation: the account transitions themselves.
pub struct LiveComputer();

impl Computer for LiveComputer {
    fn get_account(&self, customer: Customer) -> (r: RatedAccount) {
        RatedAccount::new(customer)
    }

    fn deposit(&self, amount: Amount, account: RatedAccount) -> (r: RatedAccount) {
        account.deposit(amount)
    }

    fn withdraw(&self, amount: Amount, account: CreditAccount) -> (r: RatedAccount) {
        account.withdraw(amount)
    }
}

} // verus!
