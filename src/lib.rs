//! Spendability of ledger outputs, balances by unlock time, and the
//! per-key decisions of consolidating every spendable output of a key
//! into one output for a recipient.

pub mod aggregate;
pub mod consolidate;
pub mod error;
pub mod output;
pub mod render;
pub mod sums;
