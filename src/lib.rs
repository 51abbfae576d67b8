//! Project-scoped full-text file indexer: the verified core.
//!
//! The modules hold the rules of the indexer as functions on plain values:
//! content hashing, query sanitizing, the two-phase search merge, the
//! database health classification, project-root detection, the batching
//! discipline of an indexing run, the atomic-swap decisions and the
//! command-line grammar.

pub mod constants;
pub mod text;
pub mod number;
pub mod hash;
pub mod query;
pub mod search;
pub mod health;
pub mod db;
pub mod schema;
pub mod indexer;
pub mod swap;
pub mod cli;
pub mod error;
pub mod doctor;
pub mod init;
pub mod release;
