//! Building blocks for a content-addressed ledger store: a fixed-size
//! identifier type, a proof-store capability, and a generic key/value
//! storage capability, each with an in-memory backend for testing.

pub mod key;
pub mod proof_store;
pub mod storage;
