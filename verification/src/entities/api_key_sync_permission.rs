//! Rows of `api_key_sync_permissions`.

use vstd::prelude::*;

use crate::time::Timestamp;

verus! {

/// The `api_key_sync_permissions` row.
#[derive(Debug)]
pub struct Model {
    /// Primary key.
    pub id: u128,
    /// Target API key.
    pub api_key_id: u128,
    /// Resource category: `"external_source"`, `"sync_task"`, or `"vault_endpoint"`.
    pub resource_type: String,
    /// Id of the specific resource.
    pub resource_id: u128,
    /// Permission to manually trigger the resource's `/trigger` endpoint.
    pub can_sync: bool,
    /// Resource management half of the RBAC R2 conjunction (requires `can_manage_keys` too).
    pub can_manage: bool,
    /// Permission to view this resource's execution logs.
    pub can_view_logs: bool,
    /// Assignment timestamp.
    pub created_at: Timestamp,
}

impl Clone for Model {
    /// The same row again.
    fn clone(&self) -> (r: Self)
        ensures
            r == *self,
    {
        Model {
            id: self.id,
            api_key_id: self.api_key_id,
            resource_type: self.resource_type.clone(),
            resource_id: self.resource_id,
            can_sync: self.can_sync,
            can_manage: self.can_manage,
            can_view_logs: self.can_view_logs,
            created_at: self.created_at,
        }
    }
}

} // verus!
