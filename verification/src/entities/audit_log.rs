//! Rows of `audit_logs`.

use vstd::prelude::*;

use crate::time::Timestamp;

verus! {

/// The `audit_logs` row.
#[derive(Debug)]
pub struct Model {
    /// Primary key.
    pub id: u128,
    /// Performing API key id. `NULL` once the key is deleted (`ON DELETE SET NULL`).
    pub api_key_id: Option<u128>,
    /// Denormalized actor name, so the trail survives key deletion.
    pub api_key_name: String,
    /// Denormalized actor key prefix.
    pub api_key_prefix: String,
    /// Resolved client IP.
    pub client_ip: String,
    /// Action name (e.g. `SOURCE_CREATE`, `SOURCE_TRIGGER`, `TASK_UPDATE`, `KEY_ROTATE`).
    pub action: String,
    /// Human-readable target name.
    pub target_resource: Option<String>,
    /// Additional payload context.
    pub details: Option<String>,
    /// Event timestamp.
    pub timestamp: Timestamp,
}

} // verus!
