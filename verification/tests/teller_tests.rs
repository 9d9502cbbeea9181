use bank_teller::account::{Account, RatedAccount};
use bank_teller::amount::Amount;
use bank_teller::computer::LiveComputer;
use bank_teller::customer::Customer;
use bank_teller::parse::parse_money;
use bank_teller::teller::{Event, Message, Phase, Read, Step, Teller};
use bank_teller::Money;

fn collect_output(outputs: &mut Vec<String>, say: &[Message]) {
    for m in say {
        if m.line {
            outputs.push(format!("{}\n", m.text));
        } else {
            outputs.push(m.text.clone());
        }
    }
}

fn fresh_teller() -> Teller<LiveComputer> {
    Teller {
        computer: LiveComputer(),
    }
}

#[test]
fn can_get_customer_name() {
    let teller = fresh_teller();
    let mut outputs: Vec<String> = Vec::new();
    let step = teller.begin();
    collect_output(&mut outputs, &step.say);

    let step = teller.on_event(step.phase, Event::Line("Mochi".to_owned()));
    let account = match step.phase {
        Phase::AwaitCommand(account) => account,
        _ => panic!(),
    };

    let expected_customer = Customer::new("Mochi".to_owned()).unwrap();
    let actual_customer = Account::from(account).customer;
    assert_eq!(expected_customer, actual_customer);
    assert_eq!(vec!["Enter name: ".to_owned()], outputs);
}

#[test]
fn retries_customer_name_until_a_valid_one_is_given() {
    let teller = fresh_teller();
    let mut outputs: Vec<String> = Vec::new();
    let mut step = teller.begin();
    collect_output(&mut outputs, &step.say);

    for line in ["  ", "", "Mochi"] {
        step = teller.on_event(step.phase, Event::Line(line.to_owned()));
        if matches!(step.phase, Phase::AwaitName) {
            collect_output(&mut outputs, &step.say);
        }
    }

    let account = match step.phase {
        Phase::AwaitCommand(account) => account,
        _ => panic!(),
    };
    let expected_customer = Customer::new("Mochi".to_owned()).unwrap();
    let actual_customer = Account::from(account).customer;
    assert_eq!(expected_customer, actual_customer);
    assert_eq!(
        vec![
            "Enter name: ".to_owned(),
            "Customer name may not be empty.\n".to_owned(),
            "Enter name: ".to_owned(),
            "Customer name may not be empty.\n".to_owned(),
            "Enter name: ".to_owned(),
        ],
        outputs
    );
}

#[test]
fn can_get_amount() {
    let expected_amount = Amount::new(Money::from_mils(123_120)).unwrap();
    let actual_amount = Amount::new(parse_money("123.12").unwrap()).unwrap();
    assert_eq!(expected_amount, actual_amount);
}

#[test]
fn retries_amount_until_a_vali_one_is_given() {
    let teller = fresh_teller();
    let account = RatedAccount::new(Customer::new("Mochi".to_owned()).unwrap());
    let mut outputs: Vec<String> = Vec::new();

    let mut step = teller.on_event(Phase::AwaitCommand(account), Event::Key(Some('d')));
    collect_output(&mut outputs, &step.say);

    for line in ["xyz", "-10", "22.33"] {
        step = teller.on_event(step.phase, Event::Line(line.to_owned()));
        if matches!(step.phase, Phase::AwaitDeposit(_)) {
            collect_output(&mut outputs, &step.say);
        }
    }

    let account = match step.phase {
        Phase::AwaitCommand(account) => account,
        _ => panic!(),
    };
    assert_eq!(Money::from_mils(22_330), Account::from(account).balance);
    assert_eq!(
        vec![
            "Enter amount: ".to_owned(),
            "Invalid number.\n".to_owned(),
            "Enter amount: ".to_owned(),
            "Number cannot be negative.\n".to_owned(),
            "Enter amount: ".to_owned(),
        ],
        outputs
    );
}

#[test]
fn withdrawing_on_an_overdrawn_account_warns_and_changes_nothing() {
    let teller = fresh_teller();
    let account = RatedAccount::rate_account(Account {
        customer: Customer::new("Mochi".to_owned()).unwrap(),
        balance: Money::from_mils(-5_000),
    });
    let mut outputs: Vec<String> = Vec::new();

    let step = teller.on_event(Phase::AwaitCommand(account), Event::Key(Some('w')));
    collect_output(&mut outputs, &step.say);

    assert!(matches!(step.read, Read::Key));
    let account = match step.phase {
        Phase::AwaitCommand(account) => account,
        _ => panic!(),
    };
    assert_eq!(Money::from_mils(-5_000), Account::from(account).balance);
    assert_eq!(
        vec![
            "Account is already overdrawn.\n".to_owned(),
            "Current balance is: -5\n".to_owned(),
            "(d)eposit, (w)ithdraw, or (q)uit: ".to_owned(),
        ],
        outputs
    );
}

#[test]
fn unrecognized_commands_are_rejected() {
    let teller = fresh_teller();
    let account = RatedAccount::new(Customer::new("Mochi".to_owned()).unwrap());
    let mut outputs: Vec<String> = Vec::new();

    let step = teller.on_event(Phase::AwaitCommand(account), Event::Key(Some('x')));
    collect_output(&mut outputs, &step.say);
    assert_eq!(
        vec![
            "Invalid command.\n".to_owned(),
            "Current balance is: 0\n".to_owned(),
            "(d)eposit, (w)ithdraw, or (q)uit: ".to_owned(),
        ],
        outputs
    );

    let account = match step.phase {
        Phase::AwaitCommand(account) => account,
        _ => panic!(),
    };
    let step = teller.on_event(Phase::AwaitCommand(account), Event::Key(None));
    assert!(matches!(step.say.first(), Some(m) if m.text == "Invalid command."));
}

fn drive_session(inputs: &[&str]) -> (Vec<String>, Step) {
    let teller = fresh_teller();
    let mut outputs: Vec<String> = Vec::new();
    let mut step = teller.begin();
    collect_output(&mut outputs, &step.say);
    let mut remaining = inputs.iter();
    loop {
        let event = match step.read {
            Read::Line => Event::Line(remaining.next().expect("input exhausted").to_string()),
            Read::Key => Event::Key(remaining.next().expect("input exhausted").chars().next()),
            Read::Stop => break,
        };
        step = teller.on_event(step.phase, event);
        collect_output(&mut outputs, &step.say);
    }
    assert!(remaining.next().is_none(), "unconsumed input");
    (outputs, step)
}

#[test]
fn a_full_session_prints_the_exact_transcript() {
    let (outputs, step) = drive_session(&["Mochi", "d", "100", "w", "25.5", "q"]);
    let account = match step.phase {
        Phase::Ended(account) => account,
        _ => panic!(),
    };
    assert_eq!(Money::from_mils(74_500), Account::from(account).balance);
    assert_eq!(
        vec![
            "Enter name: ".to_owned(),
            "Current balance is: 0\n".to_owned(),
            "(d)eposit, (w)ithdraw, or (q)uit: ".to_owned(),
            "Enter amount: ".to_owned(),
            "Current balance is: 100\n".to_owned(),
            "(d)eposit, (w)ithdraw, or (q)uit: ".to_owned(),
            "Enter amount: ".to_owned(),
            "Current balance is: 74.5\n".to_owned(),
            "(d)eposit, (w)ithdraw, or (q)uit: ".to_owned(),
        ],
        outputs
    );
}

#[test]
fn overdraft_and_recovery_follow_the_rated_transitions() {
    let (outputs, step) = drive_session(&["sagwa", "w", "110", "w", "d", "110", "q"]);
    let account = match step.phase {
        Phase::Ended(account) => account,
        _ => panic!(),
    };
    assert!(matches!(account, RatedAccount::InCredit(_)));
    assert_eq!(Money::from_mils(0), Account::from(account).balance);
    assert!(outputs.contains(&"Account is already overdrawn.\n".to_owned()));
    assert!(outputs.contains(&"Current balance is: -110\n".to_owned()));
}
