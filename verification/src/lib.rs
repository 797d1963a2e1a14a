//! Immutable-snapshot columnar storage core: per-column statistics, block and
//! segment metadata, a block writer that persists batches and aggregates their
//! statistics, and a pruner that uses those statistics to skip block reads.

pub mod block;
pub mod cache;
pub mod error;
pub mod fanout;
pub mod filter;
pub mod io;
pub mod locations;
pub mod meta;
pub mod plan;
pub mod pruner;
pub mod stats;
pub mod storage;
pub mod value;
pub mod writer;

pub use error::EngineError;
