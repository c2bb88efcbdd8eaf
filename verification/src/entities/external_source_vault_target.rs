//! Rows of `external_source_vault_targets`.

use vstd::prelude::*;

verus! {

/// The `external_source_vault_targets` row.
#[derive(Debug)]
pub struct Model {
    /// Source feed id. Part of the composite primary key.
    pub external_source_id: u128,
    /// Target vault endpoint id. Part of the composite primary key.
    pub vault_endpoint_id: u128,
    /// Group name override for this specific vault endpoint. `None` falls back to
    /// `external_sources.target_group_name`.
    pub target_group_name: Option<String>,
}

} // verus!
