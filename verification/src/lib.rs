//! An indexer for a protocol of assets and contracts that rides on the
//! transactions of a chain of unspent outputs. A transaction carries a
//! message in an unspendable output: a transfer of assets, the creation
//! of a contract, or a call of a contract. The library keeps, for each
//! output, what it holds, and for each contract, what it has issued and
//! what it holds as collateral; it checks every message against the
//! rules of its contract and records what it came to.
//!
//! Indexing is a function of the store and the transaction: `updater`
//! states it over the views of the store, and proves of it that assets
//! are conserved, that pools never lose on a swap, that a failed
//! message leaves the contracts untouched, and that the debt of
//! collateral accounts stays covered.

pub mod api;
pub mod flaw;
pub mod math;
pub mod store;
pub mod sums;
pub mod transaction;
pub mod types;
pub mod updater;
pub mod vec_map;
