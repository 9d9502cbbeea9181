use bank_teller::customer::{Customer, Error};

#[test]
fn does_not_allow_empty_strings() {
    let customer_result = Customer::new("".into());
    assert_eq!(Err(Error::IsEmpty), customer_result);
}

#[test]
fn does_not_allow_all_whitespace() {
    let whitespace_examples = vec![" ".into(), "    ".into(), "\n".into()];
    for example in whitespace_examples {
        let customer_result = Customer::new(example);
        assert_eq!(Err(Error::IsEmpty), customer_result);
    }
}

#[test]
fn trims_leading_and_trailing_whitespace() {
    let whitespace_examples: Vec<String> =
        vec![" abc ".into(), "  \tjohn doe\n  ".into(), "crab\n".into()];

    for example in whitespace_examples {
        let customer_result = Customer::new(example.clone());
        assert_eq!(
            Ok(example.trim().to_owned()),
            customer_result.map(|c| c.name())
        );
    }
}

#[test]
fn keeps_inner_whitespace_and_unicode_spacing() {
    let customer = Customer::new("  john   doe  ".into()).unwrap();
    assert_eq!("john   doe".to_owned(), customer.name());
    assert_eq!(Err(Error::IsEmpty), Customer::new("\u{2003}\u{00a0}".into()));
}
