//! Shared plumbing of the handlers. Decides nothing about who is calling.

use sha2::{Digest, Sha256};
use vstd::prelude::*;
use vstd::utf8::*;

use crate::crypto;
use crate::crypto::{generate_signing_secret, hex_encode};
use crate::entities::{api_key, api_key_sync_permission, audit_log};
use crate::net;
use crate::net::IpAddress;
use crate::text;
use crate::time::Timestamp;

verus! {

/// Resource type of external feed sources in permission rows.
pub const RESOURCE_EXTERNAL_SOURCE: &'static str = "external_source";

/// Resource type of inter-vault sync tasks in permission rows.
pub const RESOURCE_SYNC_TASK: &'static str = "sync_task";

/// Resource type of vault endpoints in permission rows.
pub const RESOURCE_VAULT_ENDPOINT: &'static str = "vault_endpoint";

/// What SHA-256 of `bytes` is.
pub uninterp spec fn sha256(bytes: Seq<u8>) -> Seq<u8>;

/// Calls `Sha256::digest`. The digest is a function of the bytes alone and has 32 bytes.
#[verifier::external_body]
fn sha256_digest(bytes: &[u8]) -> (digest: Vec<u8>)
    ensures
        digest@ == sha256(bytes@),
        digest@.len() == 32,
{
    Sha256::digest(bytes).to_vec()
}

/// The stored form of a plaintext key.
pub open spec fn hashed(plaintext: Seq<char>) -> Seq<char> {
    crypto::hex_text(sha256(encode_utf8(plaintext)))
}

/// Generates a fresh plaintext key of 64 hexadecimal characters.
pub fn generate_random_key() -> (r: String)
    ensures
        crypto::is_generated(r@),
{
    generate_signing_secret()
}

/// Hashes a plaintext key for storage and lookup.
pub fn hash_key(plaintext: &str) -> (r: String)
    ensures
        r@ == hashed(plaintext@),
        r@.len() == 64,
{
    let digest = sha256_digest(plaintext.as_bytes());
    hex_encode(digest.as_slice())
}

/// The first eight characters of a plaintext key, for display.
pub fn key_prefix(plaintext: &str) -> (r: String)
    ensures
        r@ == text::shortened(plaintext@, 8),
{
    text::first_chars(plaintext, 8)
}

/// The permission row that gives the creator of a resource full rights on it.
pub fn grant_full_permission(
    id: u128,
    api_key_id: u128,
    resource_type: &str,
    resource_id: u128,
    now: Timestamp,
) -> (row: api_key_sync_permission::Model)
    ensures
        row.id == id,
        row.api_key_id == api_key_id,
        row.resource_type@ == resource_type@,
        row.resource_id == resource_id,
        row.can_sync,
        row.can_manage,
        row.can_view_logs,
        row.created_at == now,
{
    api_key_sync_permission::Model {
        id,
        api_key_id,
        resource_type: resource_type.to_owned(),
        resource_id,
        can_sync: true,
        can_manage: true,
        can_view_logs: true,
        created_at: now,
    }
}

/// Whether a permission row is that of a key on a resource.
pub open spec fn is_permission_on(
    row: api_key_sync_permission::Model,
    api_key_id: u128,
    resource_type: Seq<char>,
    resource_id: u128,
) -> bool {
    row.api_key_id == api_key_id && row.resource_type@ == resource_type && row.resource_id
        == resource_id
}

/// The first of `rows` that is the permission of a key on a resource.
pub open spec fn permission_on(
    rows: Seq<api_key_sync_permission::Model>,
    api_key_id: u128,
    resource_type: Seq<char>,
    resource_id: u128,
) -> Option<api_key_sync_permission::Model>
    decreases rows.len(),
{
    if rows.len() == 0 {
        None
    } else {
        match permission_on(rows.drop_last(), api_key_id, resource_type, resource_id) {
            Some(row) => Some(row),
            None => if is_permission_on(rows.last(), api_key_id, resource_type, resource_id) {
                Some(rows.last())
            } else {
                None
            },
        }
    }
}

proof fn lemma_permission_on_stays(
    rows: Seq<api_key_sync_permission::Model>,
    n: int,
    api_key_id: u128,
    resource_type: Seq<char>,
    resource_id: u128,
)
    requires
        0 <= n <= rows.len(),
        permission_on(rows.take(n), api_key_id, resource_type, resource_id) is Some,
    ensures
        permission_on(rows, api_key_id, resource_type, resource_id) == permission_on(
            rows.take(n),
            api_key_id,
            resource_type,
            resource_id,
        ),
    decreases rows.len(),
{
    if n == rows.len() {
        assert(rows.take(n) =~= rows);
    } else {
        assert(rows.drop_last().take(n) =~= rows.take(n));
        lemma_permission_on_stays(rows.drop_last(), n, api_key_id, resource_type, resource_id);
    }
}

/// Finds the permission row of a key on a resource. Absence of one is a refusal, never an implicit
/// grant.
pub fn find_permission<'a>(
    rows: &'a Vec<api_key_sync_permission::Model>,
    api_key_id: u128,
    resource_type: &str,
    resource_id: u128,
) -> (r: Option<&'a api_key_sync_permission::Model>)
    ensures
        match permission_on(rows@, api_key_id, resource_type@, resource_id) {
            Some(row) => r is Some && *r->Some_0 == row,
            None => r is None,
        },
{
    let mut i: usize = 0;
    while i < rows.len()
        invariant
            i <= rows@.len(),
            permission_on(rows@.take(i as int), api_key_id, resource_type@, resource_id) is None,
        decreases rows@.len() - i,
    {
        assert(rows@.take(i + 1).drop_last() =~= rows@.take(i as int));
        let row = &rows[i];
        if row.api_key_id == api_key_id && row.resource_id == resource_id && text::same_text(
            row.resource_type.as_str(),
            resource_type,
        ) {
            proof {
                lemma_permission_on_stays(
                    rows@,
                    i + 1,
                    api_key_id,
                    resource_type@,
                    resource_id,
                );
            }
            return Some(row);
        }
        i += 1;
    }
    assert(rows@.take(rows@.len() as int) =~= rows@);
    None
}

/// The audit row of an action. Every audited action has a key and a client address: an
/// unattributed row cannot be made.
pub fn create_audit_log(
    id: u128,
    key: &api_key::Model,
    client_ip: IpAddress,
    action: &str,
    target_resource: Option<String>,
    details: Option<String>,
    now: Timestamp,
) -> (row: audit_log::Model)
    ensures
        row.id == id,
        row.api_key_id == Some(key.id),
        row.api_key_name == key.name,
        row.api_key_prefix == key.prefix,
        row.client_ip@ == net::address_text(client_ip),
        row.action@ == action@,
        row.target_resource == target_resource,
        row.details == details,
        row.timestamp == now,
{
    audit_log::Model {
        id,
        api_key_id: Some(key.id),
        api_key_name: key.name.clone(),
        api_key_prefix: key.prefix.clone(),
        client_ip: net::address_string(client_ip),
        action: action.to_owned(),
        target_resource,
        details,
        timestamp: now,
    }
}

/// The new value if there is one, else the value that was there.
pub open spec fn or_kept<T>(new: Option<T>, kept: T) -> T {
    match new {
        Some(value) => value,
        None => kept,
    }
}

/// The new value if there is one, else the value that was there.
pub fn or_keep<T>(new: Option<T>, kept: T) -> (r: T)
    ensures
        r == or_kept(new, kept),
{
    match new {
        Some(value) => value,
        None => kept,
    }
}

/// The new optional value if there is one, else what was there. An optional value is never taken
/// away.
pub open spec fn or_kept_optional<T>(new: Option<T>, kept: Option<T>) -> Option<T> {
    match new {
        Some(value) => Some(value),
        None => kept,
    }
}

/// The new optional value if there is one, else what was there.
pub fn or_keep_optional<T>(new: Option<T>, kept: Option<T>) -> (r: Option<T>)
    ensures
        r == or_kept_optional(new, kept),
{
    match new {
        Some(value) => Some(value),
        None => kept,
    }
}

/// A change that names a value sets it, and one that names none leaves what was there.
pub proof fn law_only_named_values_change<T>(value: T, kept: T, optional: Option<T>)
    ensures
        or_kept(Some(value), kept) == value,
        or_kept(None, kept) == kept,
        or_kept_optional(Some(value), optional) == Some(value),
        or_kept_optional(None, optional) == optional,
{
}

/// A permission is found exactly where the key has a row on the resource, and what is found is such a
/// row.
pub proof fn law_permissions_are_found(
    rows: Seq<api_key_sync_permission::Model>,
    api_key_id: u128,
    resource_type: Seq<char>,
    resource_id: u128,
)
    ensures
        permission_on(rows, api_key_id, resource_type, resource_id) is Some <==> exists|i: int|
            0 <= i < rows.len() && (#[trigger] rows[i]).api_key_id == api_key_id
                && rows[i].resource_type@ == resource_type && rows[i].resource_id == resource_id,
        permission_on(rows, api_key_id, resource_type, resource_id) matches Some(row) ==> {
            &&& rows.contains(row)
            &&& row.api_key_id == api_key_id
            &&& row.resource_type@ == resource_type
            &&& row.resource_id == resource_id
        },
    decreases rows.len(),
{
    if rows.len() > 0 {
        let shorter = rows.drop_last();
        law_permissions_are_found(shorter, api_key_id, resource_type, resource_id);
        let found = permission_on(shorter, api_key_id, resource_type, resource_id);
        if found is Some {
            let i = shorter.index_of(found->0);
            assert(rows[i] == shorter[i]);
        } else if is_permission_on(rows.last(), api_key_id, resource_type, resource_id) {
            assert(rows[rows.len() - 1] == rows.last());
        } else {
            assert forall|i: int| 0 <= i < rows.len() implies !((#[trigger] rows[i]).api_key_id
                == api_key_id && rows[i].resource_type@ == resource_type && rows[i].resource_id
                == resource_id) by {
                if i < shorter.len() {
                    assert(shorter[i] == rows[i]);
                }
            }
        }
    }
}

/// What is stored of a key is the digest of its plaintext, in hexadecimal.
pub proof fn law_keys_are_stored_as_their_digest(plaintext: Seq<char>)
    ensures
        crypto::is_hex_text(hashed(plaintext)),
        crypto::hex_bytes(hashed(plaintext)) == sha256(encode_utf8(plaintext)),
{
    crypto::law_hex_round_trip(sha256(encode_utf8(plaintext)));
}

} // verus!
