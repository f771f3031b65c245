//! A commitment wallet: users deposit credits, stake part of their balance on
//! a personal goal, and later resolve the goal as completed (the stake comes
//! back and counts as earned) or missed (the stake is forfeited to a shared
//! charity pool).
//!
//! [`account::Account`] holds the transitions on one user's account, from
//! plain values to plain values. [`ledger::ResolveWallet`] keeps all accounts
//! and goals and is verified against the mathematical model in [`model`];
//! the laws that hold of every run of the model are proved in [`laws`].
//! Amounts are 256-bit numbers ([`amount::Amount`]).

pub mod amount;
pub mod model;
pub mod account;
pub mod ledger;
pub mod laws;
