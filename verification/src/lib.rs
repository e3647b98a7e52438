//! A staking ledger for a fixed-supply token.
//!
//! A token is issued once, with its whole supply. Holders stake it into the
//! vault of the token's pool, take it back, and the pool's authority may take
//! from any staker's balance without asking. The funds themselves live in a
//! token ledger outside this crate: every operation here decides what the
//! records become and which fund movement goes with it, and hands that
//! movement to the caller.
//!
//! - [`adr_token`]: the five operations on the records a caller has loaded.
//! - [`ledger`]: a ledger that keeps the records itself and changes them
//!   only once the fund movement is confirmed.
//! - [`records`], [`rules`], [`laws`]: what the ledger keeps, what each
//!   operation does to it, and what holds of every run of operations.
//! - [`accounts`], [`state`], [`token`], [`identity`], [`error`]: the values
//!   that go in and out.

pub mod accounts;
pub mod adr_token;
pub mod error;
pub mod identity;
pub mod laws;
pub mod ledger;
pub mod records;
pub mod rules;
pub mod state;
pub mod token;
