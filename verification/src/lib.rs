//! Data model of a plain-text, double-entry accounting ledger: amounts,
//! accounts, lots held at cost, postings and their balancing weights, the
//! booking of reductions against held lots, the balancing of transactions and
//! the chronological ordering of directives.
//!
//! Every executable function carries a contract that Verus proves; the few
//! calls into other crates are isolated in small trusted wrappers whose doc
//! comments say what is taken on trust.

pub mod account;
pub mod amount;
pub mod balance;
pub mod booking;
pub mod currency;
pub mod date;
pub mod decimal;
pub mod directives;
pub mod error;
pub mod flags;
pub mod ledger;
pub mod metadata;
pub mod position;
pub mod posting;
pub mod text;
pub mod transaction;
