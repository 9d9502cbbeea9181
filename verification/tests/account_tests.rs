use bank_teller::account::{Account, CreditAccount, RatedAccount};
use bank_teller::amount::Amount;
use bank_teller::customer::Customer;
use bank_teller::Money;

fn is_in_credit(account: &RatedAccount) -> bool {
    match account {
        RatedAccount::InCredit(_) => true,
        _ => false,
    }
}

#[test]
fn account_opens_with_balance_of_zero_and_in_credit() {
    let customer = Customer::new("sagwa".into()).unwrap();
    let account = RatedAccount::new(customer);
    let expected_account = RatedAccount::InCredit(CreditAccount(Account {
        customer: Customer::new("sagwa".into()).unwrap(),
        balance: Money::from_mils(0),
    }));
    assert_eq!(expected_account, account);
}

#[test]
fn going_negative_causes_account_be_overdrawn() {
    let customer = Customer::new("sagwa".into()).unwrap();
    let account = RatedAccount::new(customer);
    match account {
        RatedAccount::Overdrawn(_) => panic!(),
        RatedAccount::InCredit(credit_account) => {
            let new_account =
                credit_account.withdraw(Amount::new(Money::from_mils(100_000)).unwrap());
            assert!(!is_in_credit(&new_account));
        }
    }
}

#[test]
fn depositting_into_an_overdrawn_account_to_make_the_new_balance_zero_causes_it_go_in_credit() {
    let account = RatedAccount::rate_account(Account {
        customer: Customer::new("sagwa".into()).unwrap(),
        balance: Money::from_mils(-100_000),
    });

    assert!(!is_in_credit(&account));
    assert!(is_in_credit(
        &account.deposit(Amount::new(Money::from_mils(100_000)).unwrap())
    ))
}

#[test]
fn depositting_into_an_overdrawn_account_to_make_the_new_balance_positive_causes_it_go_in_credit() {
    let account = RatedAccount::rate_account(Account {
        customer: Customer::new("sagwa".into()).unwrap(),
        balance: Money::from_mils(-100_000),
    });

    assert!(!is_in_credit(&account));
    assert!(is_in_credit(
        &account.deposit(Amount::new(Money::from_mils(200_000)).unwrap())
    ))
}

#[test]
fn depositting_into_an_overdrawn_account_to_make_the_new_balance_still_negative_causes_it_to_stay_overdrawn(
) {
    let account = RatedAccount::rate_account(Account {
        customer: Customer::new("sagwa".into()).unwrap(),
        balance: Money::from_mils(-100_000),
    });

    assert!(!is_in_credit(&account));
    assert!(!is_in_credit(
        &account.deposit(Amount::new(Money::from_mils(25_500)).unwrap())
    ))
}

#[test]
fn withdrawing_less_than_balance_keeps_account_in_credit() {
    let account = RatedAccount::rate_account(Account {
        customer: Customer::new("sagwa".into()).unwrap(),
        balance: Money::from_mils(100_000),
    });

    match account {
        RatedAccount::Overdrawn(_) => panic!(),
        RatedAccount::InCredit(credit_account) => {
            let new_account =
                credit_account.withdraw(Amount::new(Money::from_mils(25_000)).unwrap());
            assert!(is_in_credit(&new_account));
        }
    }
}

#[test]
fn withdrawing_the_same_as_the_balance_keeps_account_in_credit() {
    let account = RatedAccount::rate_account(Account {
        customer: Customer::new("sagwa".into()).unwrap(),
        balance: Money::from_mils(100_000),
    });

    match account {
        RatedAccount::Overdrawn(_) => panic!(),
        RatedAccount::InCredit(credit_account) => {
            let new_account =
                credit_account.withdraw(Amount::new(Money::from_mils(100_000)).unwrap());
            assert!(is_in_credit(&new_account));
        }
    }
}

#[test]
fn withdrawing_more_than_the_balance_causes_account_to_be_overdrawn() {
    let account = RatedAccount::rate_account(Account {
        customer: Customer::new("sagwa".into()).unwrap(),
        balance: Money::from_mils(100_000),
    });

    match account {
        RatedAccount::Overdrawn(_) => panic!(),
        RatedAccount::InCredit(credit_account) => {
            let new_account =
                credit_account.withdraw(Amount::new(Money::from_mils(110_000)).unwrap());
            assert!(!is_in_credit(&new_account));
        }
    }
}

#[test]
fn deposit_exact_balances() {
    let account = RatedAccount::rate_account(Account {
        customer: Customer::new("sagwa".into()).unwrap(),
        balance: Money::from_mils(-100_000),
    });
    let after = account.deposit(Amount::new(Money::from_mils(25_500)).unwrap());
    let raw = Account::from(after);
    assert_eq!(Money::from_mils(-74_500), raw.balance);
    assert_eq!(Customer::new("sagwa".into()).unwrap(), raw.customer);
}

#[test]
fn withdraw_exact_balances() {
    let account = RatedAccount::rate_account(Account {
        customer: Customer::new("sagwa".into()).unwrap(),
        balance: Money::from_mils(100_000),
    });
    match account {
        RatedAccount::Overdrawn(_) => panic!(),
        RatedAccount::InCredit(credit_account) => {
            let after = credit_account.withdraw(Amount::new(Money::from_mils(110_000)).unwrap());
            assert_eq!(Money::from_mils(-10_000), Account::from(after).balance);
        }
    }
}

#[test]
fn deposit_saturates_at_the_top_of_the_range() {
    let account = RatedAccount::rate_account(Account {
        customer: Customer::new("sagwa".into()).unwrap(),
        balance: Money::from_mils(1),
    });
    let after = account.deposit(Amount::new(Money::from_mils(i64::MAX)).unwrap());
    assert_eq!(Money::from_mils(i64::MAX), Account::from(after).balance);
}
