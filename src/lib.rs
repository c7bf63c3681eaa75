//! A block-at-a-time indexer for an inscription-based token protocol.
//!
//! For each block, the raw operations extracted from its transactions are
//! resolved into typed messages and executed against a ledger of token
//! deployments, balances and inscribed transfers, in block order. Every
//! executable step is specified by a spec function over the ledger's state,
//! so that indexing is a deterministic function of its input.
pub mod chain;
pub mod ledger;
pub mod message;
pub mod context;
pub mod resolve;
pub mod manager;
pub mod laws;
pub mod api;
pub mod payload;
