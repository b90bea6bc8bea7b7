//! Throughput-oriented XOR fold hashes, and the helpers of the benchmark
//! tooling that measures them: host descriptions, metadata files and the
//! Markdown pages of collected results.
//!
//! `fold` holds the hashes; every kernel there is proved equal to one
//! definition of the hash, whatever its accumulator layout.

pub mod cli;
pub mod environment;
pub mod fold;
pub mod report;
pub mod scope;
pub mod text;
