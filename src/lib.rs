//! Incremental replication of a ledger's verified block log into a flat
//! relational table: resume planning, windowing and row flattening.
pub mod block;
pub mod migrate;
pub mod resume;
pub mod window;
