//! A foreign-data-wrapper core for a columnar analytics store.
//!
//! The library holds the verified logic of the bridge: the type-mapping
//! table between the remote store's column types and the engine's tagged
//! value cells, the predicate deparser that renders a query string, the
//! scan engine that iterates a buffered columnar result row by row, and
//! the modify engine that builds insert batches and mutation statements.
//! Network transport and the host engine's plumbing stay outside; they
//! hand the library plain values and take plain values back.

pub mod block;
pub mod cells;
pub mod fdw;
pub mod qual;
pub mod row;
pub mod text;
