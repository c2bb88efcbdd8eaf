//! Rows of `sync_logs`.

use vstd::prelude::*;

use crate::time::Timestamp;

verus! {

/// The `sync_logs` row.
#[derive(Debug)]
pub struct Model {
    /// Primary key.
    pub id: u128,
    /// Task type: `"EXTERNAL_FEED"` or `"VAULT_SYNC"`.
    pub job_type: String,
    /// Id of the `external_sources` or `vault_sync_tasks` row this execution belongs to.
    pub job_id: u128,
    /// Denormalized task name at execution time.
    pub job_name: String,
    /// Outcome: `"SUCCESS"`, `"FAILED"`, or `"PARTIAL"`.
    pub status: String,
    /// Total IP/CIDR records parsed and sent.
    pub items_processed: i32,
    /// Number of 5,000-record batch HTTP calls made.
    pub chunks_sent: i32,
    /// Total processing time in milliseconds.
    pub duration_ms: i32,
    /// Error details on failure.
    pub error_message: Option<String>,
    /// Start timestamp of execution.
    pub timestamp: Timestamp,
}

} // verus!
