//! Rows of `vault_sync_tasks`.

use vstd::prelude::*;

use crate::time::Timestamp;

verus! {

/// The `vault_sync_tasks` row.
#[derive(Debug)]
pub struct Model {
    /// Primary key.
    pub id: u128,
    /// Human-readable task name (e.g. `Sync_Paris_To_Lyon`).
    pub name: String,
    /// Source vault endpoint id.
    pub source_vault_id: u128,
    /// Group name to query on the source vault.
    pub source_group_name: String,
    /// Default target group name on receiving vaults.
    pub target_group_name: String,
    /// Cron expression for periodic delta polling.
    pub cron_schedule: String,
    /// High-water mark timestamp used for `since=` delta queries.
    pub last_sync_at: Option<Timestamp>,
    /// Sync mode. Strictly `"upsert"`.
    pub mode: String,
    /// Enable/disable task execution.
    pub is_active: bool,
    /// Key holding lifecycle authority over the task (RBAC §3).
    pub owner_key_id: Option<u128>,
    /// Creation timestamp.
    pub created_at: Timestamp,
    /// Last update timestamp.
    pub updated_at: Timestamp,
}

} // verus!
