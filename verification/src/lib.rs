//! On-demand synthetic-dataset generation: partitioning a byte budget across
//! shard workers, synthesizing records with reproducible per-record randomness,
//! encoding them to JSON or CSV, and framing the resulting byte stream.
//!
//! The concurrent plumbing (HTTP transport, worker threads, the bounded
//! channel between producers and the consumer) lives outside this crate; this
//! crate holds the logic those pieces drive, with contracts on every function.

pub mod dict;
pub mod encode;
pub mod format;
pub mod pipeline;
pub mod progress;
pub mod random;
pub mod record;
pub mod shard;
pub mod size;
pub mod text;
