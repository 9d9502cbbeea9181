use bank_teller::amount::{Amount, Error};
use bank_teller::Money;

#[test]
pub fn does_not_allow_negative_numbers() {
    let numbers: Vec<Money> = vec![
        Money::from_mils(-100_000),
        Money::from_mils(-23_230),
        Money::from_mils(-44_210),
        Money::from_mils(-1),
    ];
    for number in numbers {
        let amount_result = Amount::new(number);
        assert_eq!(Err(Error::IsNegative), amount_result);
    }
}

#[test]
pub fn does_allow_positive_numbers() {
    let numbers: Vec<Money> = vec![
        Money::from_mils(0),
        Money::from_mils(100_000),
        Money::from_mils(23_230),
        Money::from_mils(44_210),
        Money::from_mils(1),
    ];
    for number in numbers {
        let amount_result = Amount::new(number);
        assert_eq!(Ok(number), amount_result.map(|a| a.into()));
    }
}

#[test]
pub fn mils_round_trip_through_the_wrapper() {
    let raw = Money::from_mils(42_001);
    assert_eq!(42_001, raw.as_mils());
    let amount = Amount::new(raw).unwrap();
    let back: Money = amount.into();
    assert_eq!(raw, back);
}
