//! Exact-match deduplication of sequencing reads.
//!
//! A read, or a pair of mates, is reduced to a canonical form (optionally
//! under reverse-complement symmetry), truncated to a prefix, and hashed to a
//! 64-bit fingerprint. The cluster registry keeps one cluster per fingerprint,
//! in first-seen order, and reports which reads were seen first.

pub mod clusters;
pub mod dedup;
pub mod fastx;
pub mod fingerprint;
pub mod laws;
pub mod paired;
pub mod registry;
pub mod report;
pub mod sink;
pub mod strand;
