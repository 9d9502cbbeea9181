//! The teller session as a state machine. Each phase waits for one
//! piece of input; feeding it in yields the next phase, the exact
//! messages to emit, and which kind of input to obtain next. A thin
//! unverified driver performs the reads and writes; every decision and
//! every byte of output text is fixed here.

use vstd::prelude::*;
use vstd::string::StringExecFns;

use crate::account::{CreditAccount, RatedAccount};
use crate::amount::Amount;
use crate::computer::Computer;
use crate::customer::Customer;
use crate::money::{clamp_to_i64, Money};
use crate::parse::{parse_money, spec_parse_money};
use crate::render::{render_money, spec_render_money};
use crate::text::{spec_trim, trim_to_string};

verus! {

/// The name prompt.
pub open spec fn name_prompt() -> Seq<char> {
    "Enter name: "@
}

/// The complaint about an empty customer name.
pub open spec fn name_error() -> Seq<char> {
    "Customer name may not be empty."@
}

/// The amount prompt.
pub open spec fn amount_prompt() -> Seq<char> {
    "Enter amount: "@
}

/// The complaint about unreadable amount text.
pub open spec fn invalid_number() -> Seq<char> {
    "Invalid number."@
}

/// The complaint about a negative amount.
pub open spec fn negative_number() -> Seq<char> {
    "Number cannot be negative."@
}

/// The command prompt.
pub open spec fn command_prompt() -> Seq<char> {
    "(d)eposit, (w)ithdraw, or (q)uit: "@
}

/// The warning for a withdrawal attempt on an overdrawn account.
pub open spec fn overdrawn_warning() -> Seq<char> {
    "Account is already overdrawn."@
}

/// The complaint about an unrecognized command.
pub open spec fn invalid_command() -> Seq<char> {
    "Invalid command."@
}

/// The balance display for a balance of `b` mils.
pub open spec fn balance_line(b: int) -> Seq<char> {
    "Current balance is: "@ + spec_render_money(b)
}

/// One message to emit; `line` says whether a newline follows it.
pub struct Message {
    pub text: String,
    pub line: bool,
}

impl View for Message {
    type V = (Seq<char>, bool);

    open spec fn view(&self) -> (Seq<char>, bool) {
        (self.text@, self.line)
    }
}

/// Where a session stands: what kind of input it is waiting for, and
/// the account state it holds once the customer is known.
pub enum Phase {
    AwaitName,
    AwaitCommand(RatedAccount),
    AwaitDeposit(RatedAccount),
    AwaitWithdraw(CreditAccount),
    Ended(RatedAccount),
}

/// One piece of obtained input: a full line, or a line's first
/// character (absent when the line was empty).
pub enum Event {
    Line(String),
    Key(Option<char>),
}

/// What the driver must obtain next.
pub enum Read {
    Line,
    Key,
    Stop,
}

/// The outcome of feeding one event in: the next phase, the messages
/// to emit in order, and the next kind of input to obtain.
pub struct Step {
    pub phase: Phase,
    pub say: Vec<Message>,
    pub read: Read,
}

/// The messages are exactly the command screen: the balance display,
/// then the command prompt.
pub open spec fn is_command_screen(say: Seq<Message>, b: int) -> bool {
    &&& say.len() == 2
    &&& say[0]@ == (balance_line(b), true)
    &&& say[1]@ == (command_prompt(), false)
}

/// The messages are exactly one error line `err`, then the amount
/// prompt again.
pub open spec fn is_amount_retry(say: Seq<Message>, err: Seq<char>) -> bool {
    &&& say.len() == 2
    &&& say[0]@ == (err, true)
    &&& say[1]@ == (amount_prompt(), false)
}

/// The messages are exactly the one prompt `p`.
pub open spec fn is_one_prompt(say: Seq<Message>, p: Seq<char>) -> bool {
    say.len() == 1 && say[0]@ == (p, false)
}

fn push_msg(say: &mut Vec<Message>, text: &str, line: bool)
    ensures
        final(say)@.len() == old(say)@.len() + 1,
        forall|i: int| 0 <= i < old(say)@.len() ==> final(say)@[i] == old(say)@[i],
        final(say)@[old(say)@.len() as int]@ == (text@, line),
{
    say.push(Message { text: text.to_owned(), line });
}

fn push_command_screen(say: &mut Vec<Message>, balance: Money)
    ensures
        final(say)@.len() == old(say)@.len() + 2,
        forall|i: int| 0 <= i < old(say)@.len() ==> final(say)@[i] == old(say)@[i],
        final(say)@[old(say)@.len() as int]@ == (balance_line(balance@), true),
        final(say)@[old(say)@.len() as int + 1]@ == (command_prompt(), false),
{
    let mut text = "Current balance is: ".to_owned();
    let rendered = render_money(balance);
    text.append(rendered.as_str());
    say.push(Message { text, line: true });
    push_msg(say, "(d)eposit, (w)ithdraw, or (q)uit: ", false);
}

/// The step that shows the account and asks for the next command.
fn command_screen(account: RatedAccount) -> (r: Step)
    ensures
        (r.phase matches Phase::AwaitCommand(a) && a == account),
        r.read is Key,
        is_command_screen(r.say@, account.spec_balance()),
{
    let balance = account.balance();
    let mut say: Vec<Message> = Vec::new();
    push_command_screen(&mut say, balance);
    Step { phase: Phase::AwaitCommand(account), say, read: Read::Key }
}

/// The step that complains with `error` and asks for an amount again.
fn amount_retry(phase: Phase, error: &str) -> (r: Step)
    ensures
        r.phase == phase,
        r.read is Line,
        is_amount_retry(r.say@, error@),
{
    let mut say: Vec<Message> = Vec::new();
    push_msg(&mut say, error, true);
    push_msg(&mut say, "Enter amount: ", false);
    Step { phase, say, read: Read::Line }
}

/// Drives a single session over a `Computer`. The unverified loop
/// around it owns the I/O; this type owns every decision.
pub struct Teller<P: Computer> {
    pub computer: P,
}

impl<P: Computer> Teller<P> {
    /// The opening of a session: prompt for the customer's name.
    pub fn begin(&self) -> (r: Step)
        ensures
            r.phase is AwaitName,
            r.read is Line,
            is_one_prompt(r.say@, name_prompt()),
    {
        let mut say: Vec<Message> = Vec::new();
        push_msg(&mut say, "Enter name: ", false);
        Step { phase: Phase::AwaitName, say, read: Read::Line }
    }

    /// Feeds one piece of input into the session. Each clause below
    /// fixes, for one phase and one shape of input, the next phase, the
    /// exact messages, and the next read; an event of the kind a phase
    /// does not wait for changes nothing and asks again.
    pub fn on_event(&self, phase: Phase, event: Event) -> (r: Step)
        ensures
            phase matches Phase::AwaitName ==> event matches Event::Line(l)
                ==> spec_trim(l@).len() == 0 ==> (r.phase is AwaitName && r.read is Line
                && r.say@.len() == 2 && r.say@[0]@ == (name_error(), true) && r.say@[1]@ == (
            name_prompt(), false)),
            phase matches Phase::AwaitName ==> event matches Event::Line(l)
                ==> spec_trim(l@).len() > 0 ==> (r.read is Key && (r.phase matches
            Phase::AwaitCommand(a) && a.spec_balance() == 0 && a.is_in_credit() && a.wf()
                && a.spec_account().customer@ == spec_trim(l@)) && is_command_screen(r.say@, 0)),
            phase matches Phase::AwaitCommand(a) ==> event matches Event::Key(k) ==> k == Some('q')
                ==> ((r.phase matches Phase::Ended(a2) && a2 == a) && r.read is Stop
                && r.say@.len() == 0),
            phase matches Phase::AwaitCommand(a) ==> event matches Event::Key(k) ==> k == Some('d')
                ==> ((r.phase matches Phase::AwaitDeposit(a2) && a2 == a) && r.read is Line
                && is_one_prompt(r.say@, amount_prompt())),
            phase matches Phase::AwaitCommand(RatedAccount::InCredit(ca)) ==> event matches
                Event::Key(k) ==> k == Some('w') ==> ((r.phase matches Phase::AwaitWithdraw(ca2)
                && ca2 == ca) && r.read is Line && is_one_prompt(r.say@, amount_prompt())),
            phase matches Phase::AwaitCommand(RatedAccount::Overdrawn(acct)) ==> event matches
                Event::Key(k) ==> k == Some('w') ==> ((r.phase matches Phase::AwaitCommand(a2)
                && a2 == RatedAccount::Overdrawn(acct)) && r.read is Key && r.say@.len() == 3
                && r.say@[0]@ == (overdrawn_warning(), true) && r.say@[1]@ == (balance_line(
            acct.balance@), true) && r.say@[2]@ == (command_prompt(), false)),
            phase matches Phase::AwaitCommand(a) ==> event matches Event::Key(k) ==> (k
                != Some('q') && k != Some('d') && k != Some('w')) ==> ((r.phase matches
            Phase::AwaitCommand(a2) && a2 == a) && r.read is Key && r.say@.len() == 3
                && r.say@[0]@ == (invalid_command(), true) && r.say@[1]@ == (balance_line(
            a.spec_balance()), true) && r.say@[2]@ == (command_prompt(), false)),
            phase matches Phase::AwaitDeposit(a) ==> event matches Event::Line(l)
                ==> spec_parse_money(spec_trim(l@)) is None ==> ((r.phase matches
            Phase::AwaitDeposit(a2) && a2 == a) && r.read is Line && is_amount_retry(
                r.say@,
                invalid_number(),
            )),
            phase matches Phase::AwaitDeposit(a) ==> event matches Event::Line(l)
                ==> spec_parse_money(spec_trim(l@)) matches Some(v) ==> v < 0 ==> ((r.phase matches
            Phase::AwaitDeposit(a2) && a2 == a) && r.read is Line && is_amount_retry(
                r.say@,
                negative_number(),
            )),
            phase matches Phase::AwaitDeposit(a) ==> event matches Event::Line(l)
                ==> spec_parse_money(spec_trim(l@)) matches Some(v) ==> v >= 0 ==> (r.read is Key
                && (r.phase matches Phase::AwaitCommand(a2) && a2.spec_balance() == clamp_to_i64(
                a.spec_balance() + v,
            ) && a2.spec_account().customer == a.spec_account().customer && a2.wf())
                && is_command_screen(r.say@, clamp_to_i64(a.spec_balance() + v))),
            phase matches Phase::AwaitWithdraw(ca) ==> event matches Event::Line(l)
                ==> spec_parse_money(spec_trim(l@)) is None ==> ((r.phase matches
            Phase::AwaitWithdraw(ca2) && ca2 == ca) && r.read is Line && is_amount_retry(
                r.say@,
                invalid_number(),
            )),
            phase matches Phase::AwaitWithdraw(ca) ==> event matches Event::Line(l)
                ==> spec_parse_money(spec_trim(l@)) matches Some(v) ==> v < 0 ==> ((r.phase
                matches Phase::AwaitWithdraw(ca2) && ca2 == ca) && r.read is Line
                && is_amount_retry(r.say@, negative_number())),
            phase matches Phase::AwaitWithdraw(ca) ==> event matches Event::Line(l)
                ==> spec_parse_money(spec_trim(l@)) matches Some(v) ==> v >= 0 ==> (r.read is Key
                && (r.phase matches Phase::AwaitCommand(a2) && a2.spec_balance() == clamp_to_i64(
                ca.0.balance@ - v,
            ) && a2.spec_account().customer == ca.0.customer && a2.wf()) && is_command_screen(
                r.say@,
                clamp_to_i64(ca.0.balance@ - v),
            )),
            phase matches Phase::AwaitName ==> event matches Event::Key(k2) ==> (r.phase
                is AwaitName && r.read is Line && r.say@.len() == 0),
            phase matches Phase::AwaitCommand(a) ==> event matches Event::Line(l2) ==> ((r.phase
                matches Phase::AwaitCommand(a2) && a2 == a) && r.read is Key && r.say@.len() == 0),
            phase matches Phase::AwaitDeposit(a) ==> event matches Event::Key(k2) ==> ((r.phase
                matches Phase::AwaitDeposit(a2) && a2 == a) && r.read is Line && r.say@.len()
                == 0),
            phase matches Phase::AwaitWithdraw(ca) ==> event matches Event::Key(k2) ==> ((r.phase
                matches Phase::AwaitWithdraw(ca2) && ca2 == ca) && r.read is Line && r.say@.len()
                == 0),
            phase matches Phase::Ended(a) ==> ((r.phase matches Phase::Ended(a2) && a2 == a)
                && r.read is Stop && r.say@.len() == 0),
    {
        match phase {
            Phase::AwaitName => match event {
                Event::Line(l) => match Customer::new(l) {
                    Ok(customer) => {
                        let account = self.computer.get_account(customer);
                        command_screen(account)
                    },
                    Err(_) => {
                        let mut say: Vec<Message> = Vec::new();
                        push_msg(&mut say, "Customer name may not be empty.", true);
                        push_msg(&mut say, "Enter name: ", false);
                        Step { phase: Phase::AwaitName, say, read: Read::Line }
                    },
                },
                Event::Key(_) => Step {
                    phase: Phase::AwaitName,
                    say: Vec::new(),
                    read: Read::Line,
                },
            },
            Phase::AwaitCommand(account) => match event {
                Event::Key(key) => match key {
                    Some('q') => Step {
                        phase: Phase::Ended(account),
                        say: Vec::new(),
                        read: Read::Stop,
                    },
                    Some('d') => {
                        let mut say: Vec<Message> = Vec::new();
                        push_msg(&mut say, "Enter amount: ", false);
                        Step { phase: Phase::AwaitDeposit(account), say, read: Read::Line }
                    },
                    Some('w') => match account {
                        RatedAccount::Overdrawn(acct) => {
                            let balance = acct.balance;
                            let mut say: Vec<Message> = Vec::new();
                            push_msg(&mut say, "Account is already overdrawn.", true);
                            push_command_screen(&mut say, balance);
                            Step {
                                phase: Phase::AwaitCommand(RatedAccount::Overdrawn(acct)),
                                say,
                                read: Read::Key,
                            }
                        },
                        RatedAccount::InCredit(credit) => {
                            let mut say: Vec<Message> = Vec::new();
                            push_msg(&mut say, "Enter amount: ", false);
                            Step { phase: Phase::AwaitWithdraw(credit), say, read: Read::Line }
                        },
                    },
                    _ => {
                        let balance = account.balance();
                        let mut say: Vec<Message> = Vec::new();
                        push_msg(&mut say, "Invalid command.", true);
                        push_command_screen(&mut say, balance);
                        Step { phase: Phase::AwaitCommand(account), say, read: Read::Key }
                    },
                },
                Event::Line(_) => Step {
                    phase: Phase::AwaitCommand(account),
                    say: Vec::new(),
                    read: Read::Key,
                },
            },
            Phase::AwaitDeposit(account) => match event {
                Event::Line(l) => {
                    let trimmed = trim_to_string(l.as_str());
                    match parse_money(trimmed.as_str()) {
                        None => amount_retry(Phase::AwaitDeposit(account), "Invalid number."),
                        Some(value) => match Amount::new(value) {
                            Err(_) => amount_retry(
                                Phase::AwaitDeposit(account),
                                "Number cannot be negative.",
                            ),
                            Ok(amount) => {
                                let next = self.computer.deposit(amount, account);
                                command_screen(next)
                            },
                        },
                    }
                },
                Event::Key(_) => Step {
                    phase: Phase::AwaitDeposit(account),
                    say: Vec::new(),
                    read: Read::Line,
                },
            },
            Phase::AwaitWithdraw(credit) => match event {
                Event::Line(l) => {
                    let trimmed = trim_to_string(l.as_str());
                    match parse_money(trimmed.as_str()) {
                        None => amount_retry(Phase::AwaitWithdraw(credit), "Invalid number."),
                        Some(value) => match Amount::new(value) {
                            Err(_) => amount_retry(
                                Phase::AwaitWithdraw(credit),
                                "Number cannot be negative.",
                            ),
                            Ok(amount) => {
                                let next = self.computer.withdraw(amount, credit);
                                command_screen(next)
                            },
                        },
                    }
                },
                Event::Key(_) => Step {
                    phase: Phase::AwaitWithdraw(credit),
                    say: Vec::new(),
                    read: Read::Line,
                },
            },
            Phase::Ended(account) => Step {
                phase: Phase::Ended(account),
                say: Vec::new(),
                read: Read::Stop,
            },
        }
    }
}

} // verus!
