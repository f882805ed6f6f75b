//! HybridKV: a Redis-wire-compatible in-memory key/value cache core.
//!
//! The crate holds the three verified pieces of the cache: the streaming
//! RESP2 wire codec, the key/value engine with lazy TTL expiry, and the
//! fixed binary tiering records exchanged with an external kernel-resident
//! cache tier.  Socket handling and task plumbing live outside the library.

pub mod dispatch;
pub mod engine;
pub mod error;
pub mod iobuf;
pub mod metrics;
pub mod resp;
pub mod tiering;
pub mod types;
