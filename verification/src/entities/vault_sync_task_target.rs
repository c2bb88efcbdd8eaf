//! Rows of `vault_sync_task_targets`.

use vstd::prelude::*;

verus! {

/// The `vault_sync_task_targets` row.
#[derive(Debug)]
pub struct Model {
    /// Inter-vault sync task id. Part of the composite primary key.
    pub vault_sync_task_id: u128,
    /// Target receiving vault endpoint id. Part of the composite primary key.
    pub target_vault_id: u128,
    /// Group name override for this specific receiving vault. `None` falls back to
    /// `vault_sync_tasks.target_group_name`.
    pub target_group_name: Option<String>,
}

} // verus!
