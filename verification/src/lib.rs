//! Client-side core of an embedded vector database: validation and
//! normalization of index descriptors, the merge-insert (upsert) builder and
//! its reconciliation semantics, and a small HTTP transport client with a
//! pluggable sender.

pub mod error;
pub mod index;
pub mod mem_table;
pub mod merge;
pub mod remote;
pub mod strings;
pub mod table;
