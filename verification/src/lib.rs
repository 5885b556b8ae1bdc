//! Core of an offline indexer for a delegated proof-of-stake validator.
//!
//! The crate holds the verified logic of the indexer: decimal amount
//! normalization over arbitrary-precision integers, the staking-transaction
//! classifier, per-delegator stake totals, reward and annualised-yield
//! derivation, and the decision state machines that drive epoch-boundary
//! discovery, RPC retry, and pagination. All network and database traffic
//! stays outside, in the binary that links this library; the functions here
//! take plain values and return plain values under explicit contracts.

pub mod amount;
pub mod bigint;
pub mod classify;
pub mod config;
pub mod discovery;
pub mod fetcher;
pub mod gateway;
pub mod model;
pub mod totals;
pub mod rewards;
pub mod processor;
pub mod stakemap;
pub mod strutil;
