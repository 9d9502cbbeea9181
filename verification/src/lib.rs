//! A small bank-teller library: validated monetary amounts, validated
//! customer names, a sign-rated account with deposit and withdraw
//! transitions, and the decision logic of an interactive teller session.

pub mod account;
pub mod amount;
pub mod communicate;
pub mod computer;
pub mod customer;
pub mod money;
pub mod parse;
pub mod render;
pub mod teller;
pub mod text;

pub use money::Money;
