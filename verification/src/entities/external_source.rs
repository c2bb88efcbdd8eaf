//! Rows of `external_sources`.

use vstd::prelude::*;

use crate::time::Timestamp;

verus! {

/// The `external_sources` row.
#[derive(Debug)]
pub struct Model {
    /// Primary key.
    pub id: u128,
    /// Human-readable name (e.g. `Spamhaus_DROP`).
    pub name: String,
    /// HTTP/HTTPS URL of the raw feed.
    pub source_url: String,
    /// Parser algorithm: `"REGEX_LINE"` or `"JSON_PATH"`.
    pub parser_type: String,
    /// JSON configuration for the parser (JSONPath pointer, custom headers, user agent).
    pub parser_config_json: Option<String>,
    /// Cron expression for periodic execution.
    pub cron_schedule: String,
    /// Default group name in target vaults where parsed IPs land.
    pub target_group_name: String,
    /// Ingestion mode: `"upsert"` or `"full_replace"`.
    pub mode: String,
    /// Enable/disable automatic scheduling.
    pub is_active: bool,
    /// Timestamp of the last execution.
    pub last_run_at: Option<Timestamp>,
    /// Key holding lifecycle authority over this source (RBAC §3).
    pub owner_key_id: Option<u128>,
    /// Creation timestamp.
    pub created_at: Timestamp,
    /// Last update timestamp.
    pub updated_at: Timestamp,
}

} // verus!
