//! Incremental mirror of a source-hosting organization's activity, with a
//! derived daily metrics table.
//!
//! The crate models the local store as in-memory tables of plain rows and
//! verifies the decisions the synchronization engine makes: idempotent
//! upserts, checkpoint advancement, pagination cutoff, reconciliation of
//! vanished items, and the dirty-window recomputation of daily metrics.
//! Network and database I/O live outside the library and exchange plain
//! values with it.

pub mod goals;
pub mod ingest;
pub mod metrics;
pub mod orchestrator;
pub mod rows;
pub mod store;
pub mod strutil;
pub mod sweep;
pub mod table;
pub mod time;
