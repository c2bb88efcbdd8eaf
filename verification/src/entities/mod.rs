//! The rows that the service keeps, as plain values.

pub mod api_key;
pub mod api_key_sync_permission;
pub mod audit_log;
pub mod external_source;
pub mod external_source_vault_target;
pub mod sync_log;
pub mod vault_endpoint;
pub mod vault_sync_task;
pub mod vault_sync_task_target;
