//! An Iceberg-style table-format core: a versioned metadata model for tables
//! (schema, partitioning, snapshots), a strict parser from a JSON metadata
//! document into that model, a partition-transform framework, and a
//! compare-and-swap commit protocol for mutating table state.

pub mod json;
pub mod properties;
pub mod metadata;
pub mod parser;
pub mod partition;
pub mod query;
pub mod records;
pub mod scan;
pub mod schema;
pub mod snapshot;
pub mod table;
pub mod transform;
pub mod updates;
pub mod types;
