//! The records that the store holds.

pub mod harness;
pub mod ingest;
pub mod knowledge;
pub mod operation;
