//! Rows of `api_keys`.

use vstd::prelude::*;

use crate::time::Timestamp;

verus! {

/// The `api_keys` row.
#[derive(Debug)]
pub struct Model {
    /// Primary key.
    pub id: u128,
    /// Human-readable key description.
    pub name: String,
    /// SHA-256 hash of the secret API key.
    pub key_hash: String,
    /// Per-key HMAC-SHA256 secret, sealed via `SecretCipher` at rest.
    pub signing_secret: Option<String>,
    /// First 8 characters of the key, for display and fast lookup.
    pub prefix: String,
    /// Bypasses all permission checks. Bootstrap-only; never settable through the API.
    pub is_master: bool,
    /// Global privilege to manage API keys. Master-only grant.
    pub can_manage_keys: bool,
    /// Global privilege to create external sources. Master-only grant.
    pub can_manage_sources: bool,
    /// Global privilege to register vault endpoints and inter-vault sync tasks. Master-only grant.
    pub can_manage_vaults: bool,
    /// Parent key creator id. Lineage only; confers no authority (RBAC R3).
    pub parent_key_id: Option<u128>,
    /// Comma-separated CIDR ranges permitted to use this key. Empty/`None` means unrestricted.
    pub bound_ips: Option<String>,
    /// Creation timestamp.
    pub created_at: Timestamp,
    /// Last update timestamp.
    pub updated_at: Timestamp,
}

impl Clone for Model {
    /// The same row again.
    fn clone(&self) -> (r: Self)
        ensures
            r == *self,
    {
        Model {
            id: self.id,
            name: self.name.clone(),
            key_hash: self.key_hash.clone(),
            signing_secret: match &self.signing_secret {
                Some(s) => Some(s.clone()),
                None => None,
            },
            prefix: self.prefix.clone(),
            is_master: self.is_master,
            can_manage_keys: self.can_manage_keys,
            can_manage_sources: self.can_manage_sources,
            can_manage_vaults: self.can_manage_vaults,
            parent_key_id: self.parent_key_id,
            bound_ips: match &self.bound_ips {
                Some(s) => Some(s.clone()),
                None => None,
            },
            created_at: self.created_at,
            updated_at: self.updated_at,
        }
    }
}

} // verus!
