//! A verified block-synchronization core for a peer-to-peer ledger node.
//!
//! The library models the bookkeeping of a sync engine: the chain tip it is
//! anchored to, how many hashes it has requested so far, the set of heights
//! already downloaded, and the pool of in-flight fetch operations. All
//! network and storage traffic stays outside; the engine is driven by
//! handing it the plain values those collaborators produce.

pub mod chunks;
pub mod engine;
pub mod heights;
pub mod ids;
pub mod laws;
