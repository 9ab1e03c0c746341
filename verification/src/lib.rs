//! An escrow for token swaps. A maker deposits tokens of one mint into a
//! vault and names what they want of another mint in return. A taker settles
//! the offer in one step, or the maker cancels it and takes the deposit back.
//!
//! `ledger` holds the state: wallets, open offers, and what there is of each
//! asset in all. `instructions` holds `make`, `take` and `refund`, which find
//! an offer by its maker and seed. `rules` says what each of them comes to,
//! `laws` what follows from that. `address` and `derive` give every offer its
//! addresses.

pub mod address;
pub mod derive;
pub mod error;
pub mod instructions;
pub mod laws;
pub mod ledger;
pub mod rules;
pub mod state;
mod tally;
pub mod view;

pub use crate::instructions::{make, read, refund, take, vault};
