use bank_teller::parse::parse_money;
use bank_teller::render::render_money;
use bank_teller::Money;

#[test]
fn parses_plain_decimal_forms() {
    assert_eq!(Some(Money::from_mils(22_330)), parse_money("22.33"));
    assert_eq!(Some(Money::from_mils(123_120)), parse_money("123.12"));
    assert_eq!(Some(Money::from_mils(-10_000)), parse_money("-10"));
    assert_eq!(Some(Money::from_mils(5_000)), parse_money("+5"));
    assert_eq!(Some(Money::from_mils(1_000)), parse_money("1."));
    assert_eq!(Some(Money::from_mils(500)), parse_money(".5"));
    assert_eq!(Some(Money::from_mils(0)), parse_money("0.000"));
    assert_eq!(Some(Money::from_mils(0)), parse_money("-0"));
    assert_eq!(Some(Money::from_mils(1)), parse_money("0.001"));
    assert_eq!(Some(Money::from_mils(100_000)), parse_money("0100"));
}

#[test]
fn rejects_text_that_denotes_no_amount() {
    assert_eq!(None, parse_money("xyz"));
    assert_eq!(None, parse_money(""));
    assert_eq!(None, parse_money("."));
    assert_eq!(None, parse_money("-"));
    assert_eq!(None, parse_money("-."));
    assert_eq!(None, parse_money("1.2.3"));
    assert_eq!(None, parse_money("1.2345"));
    assert_eq!(None, parse_money("12a"));
    assert_eq!(None, parse_money(" 5"));
}

#[test]
fn rejects_values_past_the_representable_range() {
    assert_eq!(
        Some(Money::from_mils(i64::MAX)),
        parse_money("9223372036854775.807")
    );
    assert_eq!(None, parse_money("9223372036854775.808"));
    assert_eq!(None, parse_money("99999999999999999999999999"));
}

#[test]
fn renders_like_a_plain_numeric_value() {
    assert_eq!("0", render_money(Money::from_mils(0)).as_str());
    assert_eq!("100", render_money(Money::from_mils(100_000)).as_str());
    assert_eq!("-74.5", render_money(Money::from_mils(-74_500)).as_str());
    assert_eq!("22.33", render_money(Money::from_mils(22_330)).as_str());
    assert_eq!("0.001", render_money(Money::from_mils(1)).as_str());
    assert_eq!("-10", render_money(Money::from_mils(-10_000)).as_str());
    assert_eq!("75", render_money(Money::from_mils(75_000)).as_str());
    assert_eq!("0.25", render_money(Money::from_mils(250)).as_str());
}

#[test]
fn parse_and_render_round_trip() {
    for text in ["12.5", "0", "-3.25", "1000000", "0.001"] {
        let value = parse_money(text).unwrap();
        assert_eq!(text, render_money(value).as_str());
    }
}
