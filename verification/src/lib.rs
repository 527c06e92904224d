//! A shared-pot ledger: an append-only, numbered transaction log with a
//! derived per-participant balance aggregate, a split-to-payout award table,
//! and the storage contract that every persistence backend must satisfy.
//!
//! Money is carried as a whole number of cents; award percentages as tenths
//! of a percent. Each backend keeps the aggregate provably equal to the fold
//! of its transaction log.

pub mod awards;
mod clock;
pub mod contract;
pub mod kv;
pub mod laws;
pub mod ledger;
pub mod memory;
pub mod money;
pub mod tables;

pub use ledger::Balance;
pub use ledger::StorageError;
pub use ledger::Transaction;
