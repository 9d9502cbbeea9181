//! The balance-holding account and its two-variant rating. A raw
//! `Account` carries a balance of either sign; `rate_account` is the
//! one classifier, so a rating always agrees with the balance's sign.
//! Withdrawal is exposed only on accounts already rated in credit,
//! though it may drive the balance negative.

use vstd::prelude::*;

use crate::amount::Amount;
use crate::customer::Customer;
use crate::money::{clamp_to_i64, saturating_add_amount, saturating_sub_amount, Money};

verus! {

/// The raw entity: an owner and a balance of unconstrained sign.
#[derive(Debug, PartialEq)]
pub struct Account {
    pub customer: Customer,
    pub balance: Money,
}

/// An account whose balance was non-negative when it was rated.
#[derive(Debug, PartialEq)]
pub struct CreditAccount(pub Account);

/// An account together with the classification of its balance's sign:
/// strictly negative is `Overdrawn`, zero or more is `InCredit`.
#[derive(Debug, PartialEq)]
pub enum RatedAccount {
    Overdrawn(Account),
    InCredit(CreditAccount),
}

impl RatedAccount {
    /// The wrapped account, whichever the rating.
    pub open spec fn spec_account(self) -> Account {
        match self {
            RatedAccount::Overdrawn(account) => account,
            RatedAccount::InCredit(credit) => credit.0,
        }
    }

    /// The wrapped balance, in mils.
    pub open spec fn spec_balance(self) -> int {
        self.spec_account().balance@
    }

    /// Whether the rating is `InCredit`.
    pub open spec fn is_in_credit(self) -> bool {
        self matches RatedAccount::InCredit(_)
    }

    /// The rating agrees with the sign of the balance. Every function
    /// that hands out a `RatedAccount` establishes this.
    pub open spec fn wf(self) -> bool {
        self.is_in_credit() <==> self.spec_balance() >= 0
    }

    /// Reads the balance through the account view, whichever the rating.
    pub fn balance(&self) -> (r: Money)
        ensures
            r@ == self.spec_balance(),
    {
        match self {
            RatedAccount::Overdrawn(account) => account.balance,
            RatedAccount::InCredit(CreditAccount(account)) => account.balance,
        }
    }
}

impl From<RatedAccount> for Account {
    /// Erases the rating; both variants unwrap to the same shape.
    fn from(rated_account: RatedAccount) -> (r: Account) {
        match rated_account {
            RatedAccount::Overdrawn(account) => account,
            RatedAccount::InCredit(CreditAccount(account)) => account,
        }
    }
}

impl vstd::std_specs::convert::FromSpecImpl<RatedAccount> for Account {
    open spec fn obeys_from_spec() -> bool {
        true
    }

    open spec fn from_spec(v: RatedAccount) -> Account {
        v.spec_account()
    }
}

impl RatedAccount {
    /// Classifies a raw account: a balance of zero or more is rated
    /// `InCredit`, a strictly negative one `Overdrawn`.
    pub fn rate_account(account: Account) -> (r: Self)
        ensures
            r.spec_account() == account,
            r.wf(),
    {
        if account.balance.as_mils() >= 0 {
            RatedAccount::InCredit(CreditAccount(account))
        } else {
            RatedAccount::Overdrawn(account)
        }
    }

    /// Opens a fresh account: balance zero, rated `InCredit`.
    pub fn new(customer: Customer) -> (r: Self)
        ensures
            r.spec_balance() == 0,
            r.spec_account().customer == customer,
            r.is_in_credit(),
            r.wf(),
    {
        let account = Account { customer, balance: Money::from_mils(0) };
        RatedAccount::rate_account(account)
    }

    /// Adds the amount to the balance (saturating at the top of the
    /// representable range) and re-rates the result. Both variants
    /// accept deposits, and a deposit never fails.
    pub fn deposit(self, amount: Amount) -> (r: Self)
        ensures
            r.spec_balance() == clamp_to_i64(self.spec_balance() + amount@),
            r.spec_account().customer == self.spec_account().customer,
            r.wf(),
    {
        proof {
            use_type_invariant(&amount);
        }
        let account = Account::from(self);
        let new_balance = saturating_add_amount(
            account.balance.as_mils(),
            Money::from(amount).as_mils(),
        );
        RatedAccount::rate_account(
            Account { customer: account.customer, balance: Money::from_mils(new_balance) },
        )
    }
}

impl CreditAccount {
    /// Subtracts the amount from the balance (saturating at the bottom
    /// of the representable range) and re-rates the result. The balance
    /// may go negative: overdrawing is a valid transition, not an error.
    pub fn withdraw(self, amount: Amount) -> (r: RatedAccount)
        ensures
            r.spec_balance() == clamp_to_i64(self.0.balance@ - amount@),
            r.spec_account().customer == self.0.customer,
            r.wf(),
    {
        proof {
            use_type_invariant(&amount);
        }
        let new_balance = saturating_sub_amount(
            self.0.balance.as_mils(),
            Money::from(amount).as_mils(),
        );
        RatedAccount::rate_account(
            Account { customer: self.0.customer, balance: Money::from_mils(new_balance) },
        )
    }
}

} // verus!
