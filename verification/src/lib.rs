//! Core of a privacy-preserving RPC aggregation proxy.
//!
//! Client queries are grouped into batches that meet a k-anonymity size
//! floor, cross-checked against a tamper-evident on-chain batch ledger,
//! and executed with per-query failure isolation and a deterministic
//! result digest.

pub mod codec;
pub mod crosscheck;
pub mod enums;
pub mod error;
pub mod executor;
pub mod ledger;
pub mod poller;
pub mod records;
pub mod text;
pub mod types;
