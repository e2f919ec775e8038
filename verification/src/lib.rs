//! Verified core of Iceberg table transactions: managing snapshot references
//! and rewriting data files.

mod clock;
pub mod data_file;
pub mod error;
pub mod ids;
pub mod lineage;
pub mod manage_snapshots;
pub mod manifest;
pub mod metadata;
pub mod producer;
pub mod ref_laws;
pub mod refs;
pub mod rewrite;
pub mod rewrite_laws;
pub mod rewrite_operation;
pub mod snapshot;
pub mod text;
pub mod update;
pub mod validator;
