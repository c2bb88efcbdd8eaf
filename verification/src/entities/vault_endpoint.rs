//! Rows of `vault_endpoints`.

use vstd::prelude::*;

use crate::time::Timestamp;

verus! {

/// The `vault_endpoints` row.
#[derive(Debug)]
pub struct Model {
    /// Primary key.
    pub id: u128,
    /// Human-readable endpoint name (e.g. `Vault-Paris-DMZ`).
    pub name: String,
    /// Base HTTP/HTTPS URL of the distant vault.
    pub target_url: String,
    /// Plaintext `X-API-Key` sent to the remote vault.
    pub api_key: String,
    /// HMAC signing secret used to compute `X-Signature-256` for remote calls. Sealed at rest.
    pub signing_secret: String,
    /// Optional human-readable description.
    pub description: Option<String>,
    /// Key holding lifecycle authority over this endpoint (RBAC §3).
    pub owner_key_id: Option<u128>,
    /// Creation timestamp.
    pub created_at: Timestamp,
    /// Last update timestamp.
    pub updated_at: Timestamp,
}

} // verus!
