//! Ledger-synchronization core: a two-tier durable key-value store with typed
//! codec access, a Merkle-accumulator node store built on it, and the paginated
//! block-fetch / collect pipeline that keeps a node's chain in step with its
//! peers.

pub mod accumulator;
pub mod codec;
pub mod errors;
pub mod hash;
pub mod storage;
pub mod sync;
