//! A deterministic "open a cookie" action for an account-based ledger.
//!
//! `engine` derives a fortune identifier and a rarity tier from a clock value,
//! a caller identity, an archetype and a counter. `program` holds the
//! persisted records and the two instruction handlers that fill them.
//! `ledger` is the store of those records: one stats singleton and at most
//! one cookie per (identity, counter), counted exactly once.

pub mod engine;
pub mod ledger;
pub mod program;
