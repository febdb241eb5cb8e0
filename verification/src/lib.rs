//! Verified core of an Apache Iceberg client: planning which manifests and files a table scan
//! reads, and deciding how a rewrite of files changes the manifests of a table.
//!
//! The library performs no I/O. Where a decision needs something from storage, a function hands
//! out what is to be loaded or written and takes the outcome as an argument later on.
pub mod error;
pub mod metadata;
pub mod scan;
pub mod seqs;
pub mod transaction;

pub use vstd::hash_map::StringHashMap;
pub use vstd::hash_set::StringHashSet;
