//! A two-party token escrow: a maker deposits one asset into a vault owned by
//! a program-derived address and names the price in another asset; later a
//! taker pays the price and receives the deposit, or the maker cancels and
//! recovers it.
//!
//! The crate decides and the caller performs. Each instruction ([`make`],
//! [`take`], [`refund`]) validates the accounts it was handed with the checks
//! of [`helpers`], then returns the ordered list of [`step::Step`]s that
//! carry it out. [`model`] says what
//! each step does to a ledger, [`ledger::Ledger`] is an in-memory ledger
//! that performs the steps accordingly, and [`laws`] states what the
//! instructions achieve on it.
pub mod pubkey;
pub mod bytes;
pub mod account;
pub mod token;
pub mod state;
pub mod step;
pub mod helpers;
pub mod make;
pub mod refund;
pub mod take;
pub mod dispatch;
pub mod model;
pub mod laws;
pub mod ledger;
