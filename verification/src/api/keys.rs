//! API keys: identity, creation and change, rotation, deletion with a key's whole subtree, and the
//! delegation of permissions.

use vstd::prelude::*;
use vstd::utf8::*;

use crate::api::guards;
use crate::api::guards::{
    guard_delegated_grant, guard_manage_keys, guard_master_immutable, guard_revocation,
    guard_rotation_allowed, guard_scope_elevation,
};
use crate::api::support;
use crate::api::support::{
    generate_random_key, hash_key, key_prefix, or_keep, or_keep_optional, RESOURCE_EXTERNAL_SOURCE,
    RESOURCE_SYNC_TASK, RESOURCE_VAULT_ENDPOINT,
};
use crate::crypto;
use crate::crypto::{generate_signing_secret, SecretCipher};
use crate::entities::{
    api_key, api_key_sync_permission, external_source, vault_endpoint, vault_sync_task,
};
use crate::error::{AppError, AppFault};
use crate::ids;
use crate::json::{Json, JsonValue};
use crate::text;
use crate::time::Timestamp;

verus! {

/// A key as the API shows it: never its hash or its signing secret.
#[derive(Debug)]
pub struct ApiKeyResponse {
    /// Key id.
    pub id: u128,
    /// Human-readable description.
    pub name: String,
    /// First eight characters of the plaintext key.
    pub prefix: String,
    /// Whether this is the Master key.
    pub is_master: bool,
    /// Global privilege to manage other keys.
    pub can_manage_keys: bool,
    /// Global privilege to create external sources.
    pub can_manage_sources: bool,
    /// Global privilege to register vault endpoints and sync tasks.
    pub can_manage_vaults: bool,
    /// The key that created this one. Lineage only.
    pub parent_key_id: Option<u128>,
    /// Comma-separated networks that the key may be used from.
    pub bound_ips: Option<String>,
    /// Creation timestamp.
    pub created_at: Timestamp,
    /// Last update timestamp.
    pub updated_at: Timestamp,
}

/// A key as the API shows it.
pub open spec fn shown_key(m: api_key::Model) -> ApiKeyResponse {
    ApiKeyResponse {
        id: m.id,
        name: m.name,
        prefix: m.prefix,
        is_master: m.is_master,
        can_manage_keys: m.can_manage_keys,
        can_manage_sources: m.can_manage_sources,
        can_manage_vaults: m.can_manage_vaults,
        parent_key_id: m.parent_key_id,
        bound_ips: m.bound_ips,
        created_at: m.created_at,
        updated_at: m.updated_at,
    }
}

impl ApiKeyResponse {
    /// A key as the API shows it.
    pub fn from_model(m: api_key::Model) -> (r: Self)
        ensures
            r == shown_key(m),
    {
        ApiKeyResponse {
            id: m.id,
            name: m.name,
            prefix: m.prefix,
            is_master: m.is_master,
            can_manage_keys: m.can_manage_keys,
            can_manage_sources: m.can_manage_sources,
            can_manage_vaults: m.can_manage_vaults,
            parent_key_id: m.parent_key_id,
            bound_ips: m.bound_ips,
            created_at: m.created_at,
            updated_at: m.updated_at,
        }
    }
}

/// Whether `caller` has administrative authority over `target`: the Master over every key, another
/// key that manages keys over those it created.
pub open spec fn administers(caller: api_key::Model, target: api_key::Model) -> bool {
    caller.is_master || (caller.can_manage_keys && target.parent_key_id == Some(caller.id))
}

/// Whether `caller` has administrative authority over `target`.
pub fn can_administer(caller: &api_key::Model, target: &api_key::Model) -> (b: bool)
    ensures
        b == administers(*caller, *target),
{
    let parent = match target.parent_key_id {
        Some(parent) => parent == caller.id,
        None => false,
    };
    caller.is_master || (caller.can_manage_keys && parent)
}

/// Whether `caller` may see `target`: itself, the keys it created, and all of them for the Master.
pub open spec fn sees(caller: api_key::Model, target: api_key::Model) -> bool {
    caller.is_master || target.id == caller.id || target.parent_key_id == Some(caller.id)
}

/// Whether `caller` may see `target`.
pub fn can_see(caller: &api_key::Model, target: &api_key::Model) -> (b: bool)
    ensures
        b == sees(*caller, *target),
{
    let parent = match target.parent_key_id {
        Some(parent) => parent == caller.id,
        None => false,
    };
    caller.is_master || target.id == caller.id || parent
}

/// The caller's own identity. Every authenticated key can read it.
pub fn get_me(caller: api_key::Model) -> (r: ApiKeyResponse)
    ensures
        r == shown_key(caller),
{
    ApiKeyResponse::from_model(caller)
}

/// The keys that the caller may see, in order.
pub fn list_api_keys(caller: &api_key::Model, keys: Vec<api_key::Model>) -> (r: Vec<ApiKeyResponse>)
    ensures
        r@ == keys@.filter(|k: api_key::Model| sees(*caller, k)).map_values(
            |k: api_key::Model| shown_key(k),
        ),
{
    let ghost all = keys@;
    let ghost visible = |k: api_key::Model| sees(*caller, k);
    let ghost shown = |k: api_key::Model| shown_key(k);
    let mut r: Vec<ApiKeyResponse> = Vec::new();
    proof {
        reveal(Seq::filter);
        assert(r@ =~= all.take(0).filter(visible).map_values(shown));
    }
    for key in it: keys
        invariant
            it.seq() == all,
            visible == (|k: api_key::Model| sees(*caller, k)),
            shown == (|k: api_key::Model| shown_key(k)),
            r@ == all.take(it.index()).filter(visible).map_values(shown),
    {
        let ghost i = it.index();
        proof {
            reveal(Seq::filter);
            assert(all.take(i + 1).drop_last() =~= all.take(i));
            assert(all.take(i + 1).last() == key);
        }
        let ghost before = all.take(i).filter(visible);
        if can_see(caller, &key) {
            let ghost k = key;
            r.push(ApiKeyResponse::from_model(key));
            assert(before.push(k).map_values(shown) =~= before.map_values(shown).push(
                shown_key(k),
            ));
        }
    }
    assert(all.take(all.len() as int) =~= all);
    r
}

/// One key, if the caller may see it. A key that is not visible is answered like one that does not
/// exist.
pub fn get_api_key(caller: &api_key::Model, target: Option<api_key::Model>) -> (r: Result<
    ApiKeyResponse,
    AppError,
>)
    ensures
        match target {
            Some(target) if sees(*caller, target) => r == Ok::<ApiKeyResponse, AppError>(
                shown_key(target),
            ),
            _ => r is Err && r->Err_0@ == AppFault::NotFound,
        },
{
    match target {
        Some(target) => if can_see(caller, &target) {
            Ok(ApiKeyResponse::from_model(target))
        } else {
            Err(AppError::NotFound)
        },
        None => Err(AppError::NotFound),
    }
}

/// The permission rows of a key, if the caller may see the key.
pub fn list_key_permissions(
    caller: &api_key::Model,
    target: Option<&api_key::Model>,
    rows: Vec<api_key_sync_permission::Model>,
) -> (r: Result<Vec<api_key_sync_permission::Model>, AppError>)
    ensures
        match target {
            Some(target) if sees(*caller, *target) => r == Ok::<
                Vec<api_key_sync_permission::Model>,
                AppError,
            >(rows),
            _ => r is Err && r->Err_0@ == AppFault::NotFound,
        },
{
    match target {
        Some(target) => if can_see(caller, target) {
            Ok(rows)
        } else {
            Err(AppError::NotFound)
        },
        None => Err(AppError::NotFound),
    }
}

/// No authority over a key.
fn no_authority() -> (e: AppError)
    ensures
        e@ == AppFault::Forbidden("no administrative authority over this key"@),
{
    AppError::Forbidden("no administrative authority over this key".to_owned())
}

// ---------------------------------------------------------------------------
// Creation
// ---------------------------------------------------------------------------
/// What a new key is asked to be. There is no way to ask for the Master mark.
#[derive(Debug)]
pub struct CreateApiKeyPayload {
    /// Human-readable description.
    pub name: String,
    /// Grants `can_manage_keys`. Requires the Master key.
    pub can_manage_keys: bool,
    /// Grants `can_manage_sources`. Requires the Master key.
    pub can_manage_sources: bool,
    /// Grants `can_manage_vaults`. Requires the Master key.
    pub can_manage_vaults: bool,
    /// Comma-separated networks that the key may be used from.
    pub bound_ips: Option<String>,
}

/// A new key, with the credentials that are shown exactly once.
#[derive(Debug)]
pub struct CreatedKey {
    /// The row to store.
    pub row: api_key::Model,
    /// The plaintext key.
    pub plaintext_key: String,
    /// The plaintext signing secret.
    pub plaintext_secret: String,
}

/// What stands against the creation of a key, if anything.
pub open spec fn creation_refusal(
    caller: api_key::Model,
    payload: CreateApiKeyPayload,
) -> Option<AppFault> {
    if !guards::may_manage_keys(caller) {
        Some(AppFault::Forbidden("missing can_manage_keys"@))
    } else if !guards::may_elevate(
        caller,
        payload.can_manage_keys,
        payload.can_manage_sources,
        payload.can_manage_vaults,
    ) {
        Some(
            AppFault::Forbidden(
                "only the Master key may grant can_manage_keys, can_manage_sources, or can_manage_vaults"@,
            ),
        )
    } else {
        None
    }
}

/// Whether a row is the key that was asked for, made by `caller` from the given credentials.
pub open spec fn is_created_key(
    created: CreatedKey,
    caller: api_key::Model,
    payload: CreateApiKeyPayload,
    cipher: SecretCipher,
    id: u128,
    now: Timestamp,
) -> bool {
    let row = created.row;
    &&& row.id == id
    &&& row.name == payload.name
    &&& row.key_hash@ == support::hashed(created.plaintext_key@)
    &&& row.prefix@ == text::shortened(created.plaintext_key@, 8)
    &&& row.signing_secret is Some
    &&& cipher.seals(row.signing_secret->0@, created.plaintext_secret@)
    &&& !row.is_master
    &&& row.can_manage_keys == payload.can_manage_keys
    &&& row.can_manage_sources == payload.can_manage_sources
    &&& row.can_manage_vaults == payload.can_manage_vaults
    &&& row.parent_key_id == Some(caller.id)
    &&& row.bound_ips == payload.bound_ips
    &&& row.created_at == now
    &&& row.updated_at == now
}

/// A key made from given credentials.
pub fn create_api_key_from(
    caller: &api_key::Model,
    payload: CreateApiKeyPayload,
    cipher: &SecretCipher,
    plaintext_key: String,
    plaintext_secret: String,
    id: u128,
    now: Timestamp,
) -> (r: Result<CreatedKey, AppError>)
    ensures
        match creation_refusal(*caller, payload) {
            Some(fault) => r is Err && r->Err_0@ == fault,
            None => if cipher.can_seal(plaintext_secret@) {
                &&& r is Ok
                &&& is_created_key(r->Ok_0, *caller, payload, *cipher, id, now)
                &&& r->Ok_0.plaintext_key == plaintext_key
                &&& r->Ok_0.plaintext_secret == plaintext_secret
            } else {
                r is Err && r->Err_0@ == AppFault::Internal
            },
        },
{
    match guard_manage_keys(caller) {
        Ok(_) => {},
        Err(e) => return Err(e),
    }
    match guard_scope_elevation(
        caller,
        payload.can_manage_keys,
        payload.can_manage_sources,
        payload.can_manage_vaults,
    ) {
        Ok(_) => {},
        Err(e) => return Err(e),
    }
    let sealed = match cipher.seal(plaintext_secret.as_str()) {
        Ok(sealed) => sealed,
        Err(e) => return Err(AppError::from_crypto(e)),
    };
    let row = api_key::Model {
        id,
        name: payload.name,
        key_hash: hash_key(plaintext_key.as_str()),
        signing_secret: Some(sealed),
        prefix: key_prefix(plaintext_key.as_str()),
        is_master: false,
        can_manage_keys: payload.can_manage_keys,
        can_manage_sources: payload.can_manage_sources,
        can_manage_vaults: payload.can_manage_vaults,
        parent_key_id: Some(caller.id),
        bound_ips: payload.bound_ips,
        created_at: now,
        updated_at: now,
    };
    Ok(CreatedKey { row, plaintext_key, plaintext_secret })
}

/// Creates a key with fresh random credentials.
pub fn create_api_key(
    caller: &api_key::Model,
    payload: CreateApiKeyPayload,
    cipher: &SecretCipher,
    id: u128,
    now: Timestamp,
) -> (r: Result<CreatedKey, AppError>)
    ensures
        match creation_refusal(*caller, payload) {
            Some(fault) => r is Err && r->Err_0@ == fault,
            None => r is Ok && is_created_key(r->Ok_0, *caller, payload, *cipher, id, now)
                && crypto::is_generated(r->Ok_0.plaintext_key@) && crypto::is_generated(
                r->Ok_0.plaintext_secret@,
            ),
        },
{
    let plaintext_key = generate_random_key();
    let plaintext_secret = generate_signing_secret();
    proof {
        crypto::lemma_generated_is_ascii(plaintext_secret@);
        is_ascii_chars_encode_utf8(plaintext_secret@);
    }
    create_api_key_from(caller, payload, cipher, plaintext_key, plaintext_secret, id, now)
}

/// No key that is created, by whoever and however asked, carries the Master mark, and none but the
/// Master creates a key with global rights.
pub proof fn law_created_keys_are_never_master(
    created: CreatedKey,
    caller: api_key::Model,
    payload: CreateApiKeyPayload,
    cipher: SecretCipher,
    id: u128,
    now: Timestamp,
)
    requires
        creation_refusal(caller, payload) is None,
        is_created_key(created, caller, payload, cipher, id, now),
    ensures
        !created.row.is_master,
        created.row.can_manage_keys || created.row.can_manage_sources
            || created.row.can_manage_vaults ==> caller.is_master,
{
}

// ---------------------------------------------------------------------------
// Change
// ---------------------------------------------------------------------------
/// What a key is asked to become. There is no way to ask for the Master mark.
#[derive(Debug)]
pub struct UpdateApiKeyPayload {
    /// New description.
    pub name: Option<String>,
    /// New `can_manage_keys`. Setting it requires the Master key.
    pub can_manage_keys: Option<bool>,
    /// New `can_manage_sources`. Setting it requires the Master key.
    pub can_manage_sources: Option<bool>,
    /// New `can_manage_vaults`. Setting it requires the Master key.
    pub can_manage_vaults: Option<bool>,
    /// New networks. The only thing that can change on the Master key.
    pub bound_ips: Option<String>,
}

/// Whether an update touches anything besides the networks.
pub open spec fn touches_more_than_bound_ips(payload: UpdateApiKeyPayload) -> bool {
    payload.name is Some || payload.can_manage_keys is Some || payload.can_manage_sources is Some
        || payload.can_manage_vaults is Some
}

/// What stands against an update, if anything.
pub open spec fn update_refusal(
    caller: api_key::Model,
    target: Option<api_key::Model>,
    payload: UpdateApiKeyPayload,
) -> Option<AppFault> {
    if !guards::may_manage_keys(caller) {
        Some(AppFault::Forbidden("missing can_manage_keys"@))
    } else {
        match target {
            None => Some(AppFault::NotFound),
            Some(target) => if !administers(caller, target) {
                Some(AppFault::Forbidden("no administrative authority over this key"@))
            } else if target.is_master && touches_more_than_bound_ips(payload) {
                Some(
                    AppFault::Forbidden(
                        "the Master key is immutable through the API except for its own bound_ips (RBAC §5)"@,
                    ),
                )
            } else if !guards::may_elevate(
                caller,
                support::or_kept(payload.can_manage_keys, false),
                support::or_kept(payload.can_manage_sources, false),
                support::or_kept(payload.can_manage_vaults, false),
            ) {
                Some(
                    AppFault::Forbidden(
                        "only the Master key may grant can_manage_keys, can_manage_sources, or can_manage_vaults"@,
                    ),
                )
            } else {
                None
            },
        }
    }
}

/// A key after an update.
pub open spec fn updated_key(
    target: api_key::Model,
    payload: UpdateApiKeyPayload,
    now: Timestamp,
) -> api_key::Model {
    api_key::Model {
        name: support::or_kept(payload.name, target.name),
        can_manage_keys: support::or_kept(payload.can_manage_keys, target.can_manage_keys),
        can_manage_sources: support::or_kept(payload.can_manage_sources, target.can_manage_sources),
        can_manage_vaults: support::or_kept(payload.can_manage_vaults, target.can_manage_vaults),
        bound_ips: support::or_kept_optional(payload.bound_ips, target.bound_ips),
        updated_at: now,
        ..target
    }
}

/// Updates a key.
pub fn update_api_key(
    caller: &api_key::Model,
    target: Option<api_key::Model>,
    payload: UpdateApiKeyPayload,
    now: Timestamp,
) -> (r: Result<api_key::Model, AppError>)
    ensures
        match update_refusal(*caller, target, payload) {
            Some(fault) => r is Err && r->Err_0@ == fault,
            None => r == Ok::<api_key::Model, AppError>(updated_key(target->0, payload, now)),
        },
{
    match guard_manage_keys(caller) {
        Ok(_) => {},
        Err(e) => return Err(e),
    }
    let target = match target {
        Some(target) => target,
        None => return Err(AppError::NotFound),
    };
    if !can_administer(caller, &target) {
        return Err(no_authority());
    }
    let touches_more = payload.name.is_some() || payload.can_manage_keys.is_some()
        || payload.can_manage_sources.is_some() || payload.can_manage_vaults.is_some();
    match guard_master_immutable(target.is_master, touches_more) {
        Ok(_) => {},
        Err(e) => return Err(e),
    }
    match guard_scope_elevation(
        caller,
        or_keep(payload.can_manage_keys, false),
        or_keep(payload.can_manage_sources, false),
        or_keep(payload.can_manage_vaults, false),
    ) {
        Ok(_) => {},
        Err(e) => return Err(e),
    }
    Ok(
        api_key::Model {
            id: target.id,
            name: or_keep(payload.name, target.name),
            key_hash: target.key_hash,
            signing_secret: target.signing_secret,
            prefix: target.prefix,
            is_master: target.is_master,
            can_manage_keys: or_keep(payload.can_manage_keys, target.can_manage_keys),
            can_manage_sources: or_keep(payload.can_manage_sources, target.can_manage_sources),
            can_manage_vaults: or_keep(payload.can_manage_vaults, target.can_manage_vaults),
            parent_key_id: target.parent_key_id,
            bound_ips: or_keep_optional(payload.bound_ips, target.bound_ips),
            created_at: target.created_at,
            updated_at: now,
        },
    )
}

/// The Master key never changes through the API, but for its networks; and no update ever touches
/// the Master mark, the credentials or the lineage of any key.
pub proof fn law_updates_keep_identity(
    caller: api_key::Model,
    target: api_key::Model,
    payload: UpdateApiKeyPayload,
    now: Timestamp,
)
    requires
        update_refusal(caller, Some(target), payload) is None,
    ensures
        ({
            let after = updated_key(target, payload, now);
            &&& after.is_master == target.is_master
            &&& after.key_hash == target.key_hash
            &&& after.signing_secret == target.signing_secret
            &&& after.parent_key_id == target.parent_key_id
            &&& target.is_master ==> after == (api_key::Model {
                bound_ips: after.bound_ips,
                updated_at: now,
                ..target
            })
            &&& !caller.is_master ==> (after.can_manage_keys ==> target.can_manage_keys) && (
            after.can_manage_sources ==> target.can_manage_sources) && (after.can_manage_vaults
                ==> target.can_manage_vaults)
        }),
{
}

// ---------------------------------------------------------------------------
// Rotation
// ---------------------------------------------------------------------------
/// What stands against a rotation, if anything. The Master's credentials are refused to everyone,
/// the Master itself included.
pub open spec fn rotation_refusal(
    caller: api_key::Model,
    target: Option<api_key::Model>,
) -> Option<AppFault> {
    if !guards::may_manage_keys(caller) {
        Some(AppFault::Forbidden("missing can_manage_keys"@))
    } else {
        match target {
            None => Some(AppFault::NotFound),
            Some(target) => if target.is_master {
                Some(
                    AppFault::Forbidden(
                        "the Master key's credentials cannot be rotated through the API (RBAC §5)"@,
                    ),
                )
            } else if !administers(caller, target) {
                Some(AppFault::Forbidden("no administrative authority over this key"@))
            } else {
                None
            },
        }
    }
}

/// The key to rotate, unless something stands against it.
fn rotation_target(caller: &api_key::Model, target: Option<api_key::Model>) -> (r: Result<
    api_key::Model,
    AppError,
>)
    ensures
        match rotation_refusal(*caller, target) {
            Some(fault) => r is Err && r->Err_0@ == fault,
            None => r == Ok::<api_key::Model, AppError>(target->0),
        },
{
    match guard_manage_keys(caller) {
        Ok(_) => {},
        Err(e) => return Err(e),
    }
    let target = match target {
        Some(target) => target,
        None => return Err(AppError::NotFound),
    };
    match guard_rotation_allowed(target.is_master) {
        Ok(_) => {},
        Err(e) => return Err(e),
    }
    if !can_administer(caller, &target) {
        return Err(no_authority());
    }
    Ok(target)
}

/// Replaces a key's credential by a fresh random one. Gives the row to store and the plaintext,
/// which is shown exactly once.
pub fn rotate_api_key(caller: &api_key::Model, target: Option<api_key::Model>, now: Timestamp) -> (r:
    Result<(api_key::Model, String), AppError>)
    ensures
        match rotation_refusal(*caller, target) {
            Some(fault) => r is Err && r->Err_0@ == fault,
            None => {
                &&& r is Ok
                &&& crypto::is_generated(r->Ok_0.1@)
                &&& r->Ok_0.0.key_hash@ == support::hashed(r->Ok_0.1@)
                &&& r->Ok_0.0.prefix@ == text::shortened(r->Ok_0.1@, 8)
                &&& r->Ok_0.0 == (api_key::Model {
                    key_hash: r->Ok_0.0.key_hash,
                    prefix: r->Ok_0.0.prefix,
                    updated_at: now,
                    ..target->0
                })
            },
        },
{
    let target = match rotation_target(caller, target) {
        Ok(target) => target,
        Err(e) => return Err(e),
    };
    let plaintext_key = generate_random_key();
    let row = api_key::Model {
        key_hash: hash_key(plaintext_key.as_str()),
        prefix: key_prefix(plaintext_key.as_str()),
        updated_at: now,
        ..target
    };
    Ok((row, plaintext_key))
}

/// Replaces a key's signing secret by a fresh random one. Gives the row to store and the plaintext,
/// which is shown exactly once.
pub fn rotate_signing_secret(
    caller: &api_key::Model,
    target: Option<api_key::Model>,
    cipher: &SecretCipher,
    now: Timestamp,
) -> (r: Result<(api_key::Model, String), AppError>)
    ensures
        match rotation_refusal(*caller, target) {
            Some(fault) => r is Err && r->Err_0@ == fault,
            None => {
                &&& r is Ok
                &&& crypto::is_generated(r->Ok_0.1@)
                &&& r->Ok_0.0.signing_secret is Some
                &&& cipher.seals(r->Ok_0.0.signing_secret->0@, r->Ok_0.1@)
                &&& r->Ok_0.0 == (api_key::Model {
                    signing_secret: r->Ok_0.0.signing_secret,
                    updated_at: now,
                    ..target->0
                })
            },
        },
{
    let target = match rotation_target(caller, target) {
        Ok(target) => target,
        Err(e) => return Err(e),
    };
    let plaintext_secret = generate_signing_secret();
    proof {
        crypto::lemma_generated_is_ascii(plaintext_secret@);
        is_ascii_chars_encode_utf8(plaintext_secret@);
    }
    let sealed = match cipher.seal(plaintext_secret.as_str()) {
        Ok(sealed) => sealed,
        Err(e) => return Err(AppError::from_crypto(e)),
    };
    let row = api_key::Model { signing_secret: Some(sealed), updated_at: now, ..target };
    Ok((row, plaintext_secret))
}

/// Nobody rotates the Master's credentials.
pub proof fn law_master_is_never_rotated(caller: api_key::Model, target: api_key::Model)
    requires
        target.is_master,
    ensures
        rotation_refusal(caller, Some(target)) is Some,
{
}

// ---------------------------------------------------------------------------
// Deletion
// ---------------------------------------------------------------------------
/// A key and its descendants, collected generation by generation.
#[derive(Debug)]
pub struct Subtree {
    ids: Vec<u128>,
    frontier: Vec<u128>,
}

/// Whether everything below the keys in `ids`, other than those in `frontier`, is in `ids`.
pub open spec fn explored(
    ids: Seq<u128>,
    frontier: Seq<u128>,
    parents: Map<u128, Option<u128>>,
) -> bool {
    &&& forall|k: u128|
        #![trigger parents[k]]
        parents.contains_key(k) && parents[k] is Some && ids.contains(parents[k]->0)
            && !frontier.contains(parents[k]->0) ==> ids.contains(k)
    &&& forall|k: u128| #[trigger] frontier.contains(k) ==> ids.contains(k)
}

/// Whether every key in `ids` other than `root` was created by a key in `ids`.
pub open spec fn descends(ids: Seq<u128>, root: u128, parents: Map<u128, Option<u128>>) -> bool {
    forall|k: u128| #[trigger]
        ids.contains(k) && k != root ==> parents.contains_key(k) && parents[k] is Some
            && ids.contains(parents[k]->0)
}

/// Whether `children` are the keys that those in `frontier` created.
pub open spec fn are_children(
    children: Seq<u128>,
    frontier: Seq<u128>,
    parents: Map<u128, Option<u128>>,
) -> bool {
    forall|k: u128| #[trigger]
        children.contains(k) <==> parents.contains_key(k) && parents[k] is Some
            && frontier.contains(parents[k]->0)
}

impl Subtree {
    /// The keys collected so far.
    pub closed spec fn collected(self) -> Seq<u128> {
        self.ids@
    }

    /// The keys whose children are still to be collected.
    pub closed spec fn open_keys(self) -> Seq<u128> {
        self.frontier@
    }

    /// A subtree of which only the root is known.
    pub fn new(root: u128) -> (t: Self)
        ensures
            t.collected() == seq![root],
            t.open_keys() == seq![root],
    {
        let mut ids: Vec<u128> = Vec::new();
        ids.push(root);
        let mut frontier: Vec<u128> = Vec::new();
        frontier.push(root);
        assert(ids@ =~= seq![root]);
        assert(frontier@ =~= seq![root]);
        Subtree { ids, frontier }
    }

    /// The keys whose children are still to be collected; none once the subtree is complete.
    pub fn frontier(&self) -> (r: &Vec<u128>)
        ensures
            r@ == self.open_keys(),
    {
        &self.frontier
    }

    /// Takes the children of the frontier, which become the next frontier.
    pub fn take_children(&mut self, children: Vec<u128>)
        ensures
            final(self).collected() == old(self).collected() + children@,
            final(self).open_keys() == children@,
    {
        let ghost before = self.ids@;
        for i in 0..children.len()
            invariant
                self.ids@ == before + children@.take(i as int),
        {
            self.ids.push(children[i]);
            assert(self.ids@ =~= before + children@.take(i + 1));
        }
        assert(children@.take(children@.len() as int) =~= children@);
        self.frontier = children;
    }

    /// The ids of the collected keys.
    pub fn into_ids(self) -> (r: Vec<u128>)
        ensures
            r@ == self.collected(),
    {
        self.ids
    }
}

/// Whether each of `generations` but the first, which is `root` alone, are the children of the one
/// before.
pub open spec fn are_generations(
    generations: Seq<Seq<u128>>,
    root: u128,
    parents: Map<u128, Option<u128>>,
) -> bool {
    &&& generations.len() > 0
    &&& generations[0] == seq![root]
    &&& forall|i: int|
        0 < i < generations.len() ==> are_children(
            #[trigger] generations[i],
            generations[i - 1],
            parents,
        )
}

/// The keys of all generations.
pub open spec fn members(generations: Seq<Seq<u128>>) -> Seq<u128>
    decreases generations.len(),
{
    if generations.len() == 0 {
        Seq::empty()
    } else {
        members(generations.drop_last()) + generations.last()
    }
}

/// Taking the children of the frontier moves the frontier down, and takes in nothing that does not
/// descend from the root.
proof fn lemma_subtree_grows(
    ids: Seq<u128>,
    frontier: Seq<u128>,
    children: Seq<u128>,
    root: u128,
    parents: Map<u128, Option<u128>>,
)
    requires
        explored(ids, frontier, parents),
        descends(ids, root, parents),
        are_children(children, frontier, parents),
    ensures
        explored(ids + children, children, parents),
        descends(ids + children, root, parents),
{
    let all = ids + children;
    assert forall|k: u128| all.contains(k) <==> ids.contains(k) || children.contains(k) by {
        if ids.contains(k) {
            let i = choose|i: int| 0 <= i < ids.len() && ids[i] == k;
            assert(all[i] == k);
        }
        if children.contains(k) {
            let i = choose|i: int| 0 <= i < children.len() && children[i] == k;
            assert(all[ids.len() + i] == k);
        }
        if all.contains(k) {
            let i = choose|i: int| 0 <= i < all.len() && all[i] == k;
            if i < ids.len() {
                assert(ids[i] == k);
            } else {
                assert(children[i - ids.len()] == k);
            }
        }
    }
    assert forall|k: u128|
        #![trigger parents[k]]
        parents.contains_key(k) && parents[k] is Some && all.contains(parents[k]->0)
            && !children.contains(parents[k]->0) implies all.contains(k) by {
        let p = parents[k]->0;
        if frontier.contains(p) {
            assert(children.contains(k));
        } else {
            assert(ids.contains(k));
        }
    }
    assert forall|k: u128| #[trigger] all.contains(k) && k != root implies parents.contains_key(k)
        && parents[k] is Some && all.contains(parents[k]->0) by {
        if ids.contains(k) {
            assert(ids.contains(parents[k]->0));
        } else {
            assert(children.contains(k));
            assert(frontier.contains(parents[k]->0));
            assert(ids.contains(parents[k]->0));
        }
    }
}

/// The generations so far are explored but for the last.
proof fn lemma_generations(
    generations: Seq<Seq<u128>>,
    root: u128,
    parents: Map<u128, Option<u128>>,
)
    requires
        are_generations(generations, root, parents),
    ensures
        explored(members(generations), generations.last(), parents),
        descends(members(generations), root, parents),
    decreases generations.len(),
{
    let before = generations.drop_last();
    if generations.len() == 1 {
        assert(members(before) =~= Seq::empty());
        assert(members(generations) =~= seq![root]);
        assert forall|k: u128| #[trigger] seq![root].contains(k) && k != root implies false by {
            let i = choose|i: int| 0 <= i < 1 && seq![root][i] == k;
        }
    } else {
        assert forall|i: int| 0 < i < before.len() implies are_children(
            #[trigger] before[i],
            before[i - 1],
            parents,
        ) by {
            assert(before[i] == generations[i]);
        }
        lemma_generations(before, root, parents);
        assert(before.last() == generations[generations.len() - 2]);
        assert(are_children(
            generations[generations.len() - 1],
            generations[generations.len() - 2],
            parents,
        ));
        lemma_subtree_grows(members(before), before.last(), generations.last(), root, parents);
    }
}

/// Once a generation without keys is reached, the keys that were collected are the whole subtree:
/// every key that one of them created is among them, so that deleting them leaves no key without its
/// parent, and each of them but the root was created by another.
pub proof fn law_subtree_is_complete(
    generations: Seq<Seq<u128>>,
    root: u128,
    parents: Map<u128, Option<u128>>,
)
    requires
        are_generations(generations, root, parents),
        generations.last().len() == 0,
    ensures
        members(generations).contains(root),
        forall|child: u128|
            #![trigger parents[child]]
            parents.contains_key(child) && parents[child] is Some && members(generations).contains(
                parents[child]->0,
            ) ==> members(generations).contains(child),
        descends(members(generations), root, parents),
{
    lemma_generations(generations, root, parents);
    lemma_root_is_member(generations);
}

/// The first generation is among the members.
proof fn lemma_root_is_member(generations: Seq<Seq<u128>>)
    requires
        generations.len() > 0,
        generations[0].len() > 0,
    ensures
        members(generations).contains(generations[0][0]),
    decreases generations.len(),
{
    let before = generations.drop_last();
    let all = members(generations);
    if generations.len() > 1 {
        lemma_root_is_member(before);
        let i = choose|i: int| 0 <= i < members(before).len() && members(before)[i] == before[0][0];
        assert(all[i] == generations[0][0]);
    } else {
        assert(members(before) =~= Seq::empty());
        assert(all[0] == generations[0][0]);
    }
}

/// An owned resource as an inventory lists it.
pub open spec fn inventory_item(
    kind: Seq<char>,
    id: u128,
    name: Seq<char>,
    owner_key_id: Option<u128>,
) -> Json {
    Json::Object(
        seq![
            ("type"@, Json::Text(kind)),
            ("id"@, Json::Text(ids::id_text(id))),
            ("name"@, Json::Text(name)),
            (
                "owner_key_id"@,
                match owner_key_id {
                    Some(owner) => Json::Text(ids::id_text(owner)),
                    None => Json::Null,
                },
            ),
        ],
    )
}

/// An owned resource as an inventory lists it.
fn list_item(kind: &str, id: u128, name: &String, owner_key_id: Option<u128>) -> (r: JsonValue)
    ensures
        r@ == inventory_item(kind@, id, name@, owner_key_id),
{
    reveal_with_fuel(<JsonValue as View>::view, 2);
    let owner = match owner_key_id {
        Some(owner) => JsonValue::Text(ids::id_string(owner)),
        None => JsonValue::Null,
    };
    let mut entries: Vec<(String, JsonValue)> = Vec::new();
    entries.push(("type".to_owned(), JsonValue::Text(kind.to_owned())));
    entries.push(("id".to_owned(), JsonValue::Text(ids::id_string(id))));
    entries.push(("name".to_owned(), JsonValue::Text(name.clone())));
    entries.push(("owner_key_id".to_owned(), owner));
    let r = JsonValue::Object(entries);
    assert(r@->Object_0 =~= inventory_item(kind@, id, name@, owner_key_id)->Object_0);
    r
}

/// Whether a resource is owned by one of the keys.
pub open spec fn owned_by(owner_key_id: Option<u128>, keys: Seq<u128>) -> bool {
    owner_key_id matches Some(owner) && keys.contains(owner)
}

/// Whether a resource is owned by one of the keys.
fn is_owned_by(owner_key_id: Option<u128>, keys: &Vec<u128>) -> (b: bool)
    ensures
        b == owned_by(owner_key_id, keys@),
{
    let owner = match owner_key_id {
        Some(owner) => owner,
        None => return false,
    };
    for i in 0..keys.len()
        invariant
            owner_key_id == Some(owner),
            forall|j: int| 0 <= j < i ==> keys@[j] != owner,
    {
        if keys[i] == owner {
            return true;
        }
    }
    false
}

/// What the endpoints that the keys own are listed as.
pub open spec fn vault_items(rows: Seq<vault_endpoint::Model>, keys: Seq<u128>) -> Seq<Json>
    decreases rows.len(),
{
    if rows.len() == 0 {
        Seq::empty()
    } else {
        let before = vault_items(rows.drop_last(), keys);
        let row = rows.last();
        if owned_by(row.owner_key_id, keys) {
            before.push(
                inventory_item("vault_endpoint"@, row.id, row.name@, row.owner_key_id),
            )
        } else {
            before
        }
    }
}

/// What the sources that the keys own are listed as.
pub open spec fn source_items(rows: Seq<external_source::Model>, keys: Seq<u128>) -> Seq<Json>
    decreases rows.len(),
{
    if rows.len() == 0 {
        Seq::empty()
    } else {
        let before = source_items(rows.drop_last(), keys);
        let row = rows.last();
        if owned_by(row.owner_key_id, keys) {
            before.push(
                inventory_item("external_source"@, row.id, row.name@, row.owner_key_id),
            )
        } else {
            before
        }
    }
}

/// What the tasks that the keys own are listed as.
pub open spec fn task_items(rows: Seq<vault_sync_task::Model>, keys: Seq<u128>) -> Seq<Json>
    decreases rows.len(),
{
    if rows.len() == 0 {
        Seq::empty()
    } else {
        let before = task_items(rows.drop_last(), keys);
        let row = rows.last();
        if owned_by(row.owner_key_id, keys) {
            before.push(inventory_item("sync_task"@, row.id, row.name@, row.owner_key_id))
        } else {
            before
        }
    }
}

/// What documents say.
pub open spec fn documents(values: Seq<JsonValue>) -> Seq<Json> {
    Seq::new(values.len(), |i: int| values[i]@)
}

/// What the resources that the keys own are listed as: endpoints, then sources, then tasks.
pub open spec fn owned_items(
    keys: Seq<u128>,
    vaults: Seq<vault_endpoint::Model>,
    sources: Seq<external_source::Model>,
    tasks: Seq<vault_sync_task::Model>,
) -> Seq<Json> {
    vault_items(vaults, keys) + source_items(sources, keys) + task_items(tasks, keys)
}

/// The resources that the keys own: endpoints, then sources, then tasks.
pub fn owned_resource_inventory(
    keys: &Vec<u128>,
    vaults: &Vec<vault_endpoint::Model>,
    sources: &Vec<external_source::Model>,
    tasks: &Vec<vault_sync_task::Model>,
) -> (r: Vec<JsonValue>)
    ensures
        documents(r@) == owned_items(keys@, vaults@, sources@, tasks@),
{
    let mut r: Vec<JsonValue> = Vec::new();
    assert(documents(r@) =~= vault_items(vaults@.take(0), keys@));
    for i in 0..vaults.len()
        invariant
            documents(r@) == vault_items(vaults@.take(i as int), keys@),
    {
        assert(vaults@.take(i + 1).drop_last() =~= vaults@.take(i as int));
        if is_owned_by(vaults[i].owner_key_id, keys) {
            let ghost before = documents(r@);
            let item = list_item(
                "vault_endpoint",
                vaults[i].id,
                &vaults[i].name,
                vaults[i].owner_key_id,
            );
            let ghost listed = item@;
            r.push(item);
            assert(documents(r@) =~= before.push(listed));
        }
    }
    assert(vaults@.take(vaults@.len() as int) =~= vaults@);
    let ghost first = documents(r@);
    assert(documents(r@) =~= first + source_items(sources@.take(0), keys@));
    for i in 0..sources.len()
        invariant
            documents(r@) == first + source_items(sources@.take(i as int), keys@),
    {
        assert(sources@.take(i + 1).drop_last() =~= sources@.take(i as int));
        if is_owned_by(sources[i].owner_key_id, keys) {
            let ghost before = documents(r@);
            let item = list_item(
                "external_source",
                sources[i].id,
                &sources[i].name,
                sources[i].owner_key_id,
            );
            let ghost listed = item@;
            r.push(item);
            assert(documents(r@) =~= before.push(listed));
            assert(documents(r@) =~= first + source_items(sources@.take(i + 1), keys@));
        }
    }
    assert(sources@.take(sources@.len() as int) =~= sources@);
    let ghost second = documents(r@);
    assert(documents(r@) =~= second + task_items(tasks@.take(0), keys@));
    for i in 0..tasks.len()
        invariant
            documents(r@) == second + task_items(tasks@.take(i as int), keys@),
    {
        assert(tasks@.take(i + 1).drop_last() =~= tasks@.take(i as int));
        if is_owned_by(tasks[i].owner_key_id, keys) {
            let ghost before = documents(r@);
            let item = list_item("sync_task", tasks[i].id, &tasks[i].name, tasks[i].owner_key_id);
            let ghost listed = item@;
            r.push(item);
            assert(documents(r@) =~= before.push(listed));
            assert(documents(r@) =~= second + task_items(tasks@.take(i + 1), keys@));
        }
    }
    assert(tasks@.take(tasks@.len() as int) =~= tasks@);
    r
}

/// What stands against deleting a key itself, if anything.
pub open spec fn deletion_refusal(
    caller: api_key::Model,
    target: Option<api_key::Model>,
) -> Option<AppFault> {
    if !guards::may_manage_keys(caller) {
        Some(AppFault::Forbidden("missing can_manage_keys"@))
    } else {
        match target {
            None => Some(AppFault::NotFound),
            Some(target) => if target.is_master {
                Some(
                    AppFault::Forbidden(
                        "the Master key cannot be deleted through the API (RBAC §5)"@,
                    ),
                )
            } else if !administers(caller, target) {
                Some(AppFault::Forbidden("no administrative authority over this key"@))
            } else {
                None
            },
        }
    }
}

/// Whether the caller may delete a key, before its subtree is looked at.
pub fn may_delete(caller: &api_key::Model, target: Option<&api_key::Model>) -> (r: Result<
    (),
    AppError,
>)
    ensures
        match deletion_refusal(
            *caller,
            match target {
                Some(target) => Some(*target),
                None => None,
            },
        ) {
            Some(fault) => r is Err && r->Err_0@ == fault,
            None => r is Ok,
        },
{
    match guard_manage_keys(caller) {
        Ok(_) => {},
        Err(e) => return Err(e),
    }
    let target = match target {
        Some(target) => target,
        None => return Err(AppError::NotFound),
    };
    if target.is_master {
        return Err(
            AppError::Forbidden(
                "the Master key cannot be deleted through the API (RBAC §5)".to_owned(),
            ),
        );
    }
    if !can_administer(caller, target) {
        return Err(no_authority());
    }
    Ok(())
}

/// What stands against deleting a subtree that owns something.
pub open spec fn still_owns(inventory: Seq<Json>) -> AppFault {
    AppFault::ConflictWithDetails(
        "this key (or a daughter in its subtree) still owns resources; reassign or delete them first"@,
        Json::Object(seq![("owned_resources"@, Json::Array(inventory))]),
    )
}

/// Decides on deleting a key with its subtree: gives back the ids to delete. No data is destroyed
/// along with a key, so whatever the keys of the subtree own has to be reassigned or deleted first.
pub fn delete_api_key(
    caller: &api_key::Model,
    target: Option<&api_key::Model>,
    subtree: Vec<u128>,
    vaults: &Vec<vault_endpoint::Model>,
    sources: &Vec<external_source::Model>,
    tasks: &Vec<vault_sync_task::Model>,
) -> (r: Result<Vec<u128>, AppError>)
    ensures
        match deletion_refusal(
            *caller,
            match target {
                Some(target) => Some(*target),
                None => None,
            },
        ) {
            Some(fault) => r is Err && r->Err_0@ == fault,
            None => {
                let owned = owned_items(subtree@, vaults@, sources@, tasks@);
                if owned.len() > 0 {
                    r is Err && r->Err_0@ == still_owns(owned)
                } else {
                    r == Ok::<Vec<u128>, AppError>(subtree)
                }
            },
        },
{
    match may_delete(caller, target) {
        Ok(_) => {},
        Err(e) => return Err(e),
    }
    let inventory = owned_resource_inventory(&subtree, vaults, sources, tasks);
    assert(documents(inventory@).len() == inventory@.len());
    if inventory.len() > 0 {
        reveal_with_fuel(<JsonValue as View>::view, 3);
        let ghost listed = documents(inventory@);
        let array = JsonValue::Array(inventory);
        assert(array@->Array_0 =~= listed);
        let mut entries: Vec<(String, JsonValue)> = Vec::new();
        entries.push(("owned_resources".to_owned(), array));
        let details = JsonValue::Object(entries);
        assert(details@->Object_0 =~= seq![("owned_resources"@, Json::Array(listed))]);
        return Err(
            AppError::ConflictWithDetails {
                message: "this key (or a daughter in its subtree) still owns resources; reassign or delete them first".to_owned(),
                details,
            },
        );
    }
    Ok(subtree)
}

/// Endpoints of which none is listed are owned by none of the keys.
proof fn lemma_no_vaults(rows: Seq<vault_endpoint::Model>, keys: Seq<u128>)
    requires
        vault_items(rows, keys).len() == 0,
    ensures
        forall|i: int| 0 <= i < rows.len() ==> !owned_by((#[trigger] rows[i]).owner_key_id, keys),
    decreases rows.len(),
{
    if rows.len() > 0 {
        lemma_no_vaults(rows.drop_last(), keys);
        assert forall|i: int| 0 <= i < rows.len() implies !owned_by(
            (#[trigger] rows[i]).owner_key_id,
            keys,
        ) by {
            if i < rows.len() - 1 {
                assert(rows[i] == rows.drop_last()[i]);
            }
        }
    }
}

/// Sources of which none is listed are owned by none of the keys.
proof fn lemma_no_sources(rows: Seq<external_source::Model>, keys: Seq<u128>)
    requires
        source_items(rows, keys).len() == 0,
    ensures
        forall|i: int| 0 <= i < rows.len() ==> !owned_by((#[trigger] rows[i]).owner_key_id, keys),
    decreases rows.len(),
{
    if rows.len() > 0 {
        lemma_no_sources(rows.drop_last(), keys);
        assert forall|i: int| 0 <= i < rows.len() implies !owned_by(
            (#[trigger] rows[i]).owner_key_id,
            keys,
        ) by {
            if i < rows.len() - 1 {
                assert(rows[i] == rows.drop_last()[i]);
            }
        }
    }
}

/// Tasks of which none is listed are owned by none of the keys.
proof fn lemma_no_tasks(rows: Seq<vault_sync_task::Model>, keys: Seq<u128>)
    requires
        task_items(rows, keys).len() == 0,
    ensures
        forall|i: int| 0 <= i < rows.len() ==> !owned_by((#[trigger] rows[i]).owner_key_id, keys),
    decreases rows.len(),
{
    if rows.len() > 0 {
        lemma_no_tasks(rows.drop_last(), keys);
        assert forall|i: int| 0 <= i < rows.len() implies !owned_by(
            (#[trigger] rows[i]).owner_key_id,
            keys,
        ) by {
            if i < rows.len() - 1 {
                assert(rows[i] == rows.drop_last()[i]);
            }
        }
    }
}

/// Keys whose inventory is empty own nothing, so that deleting them leaves no resource without its
/// owner.
pub proof fn law_deleted_keys_own_nothing(
    keys: Seq<u128>,
    vaults: Seq<vault_endpoint::Model>,
    sources: Seq<external_source::Model>,
    tasks: Seq<vault_sync_task::Model>,
)
    requires
        owned_items(keys, vaults, sources, tasks).len() == 0,
    ensures
        forall|i: int|
            0 <= i < vaults.len() ==> !owned_by((#[trigger] vaults[i]).owner_key_id, keys),
        forall|i: int|
            0 <= i < sources.len() ==> !owned_by((#[trigger] sources[i]).owner_key_id, keys),
        forall|i: int|
            0 <= i < tasks.len() ==> !owned_by((#[trigger] tasks[i]).owner_key_id, keys),
{
    lemma_no_vaults(vaults, keys);
    lemma_no_sources(sources, keys);
    lemma_no_tasks(tasks, keys);
}

/// The Master key is never deleted, and no key deletes a key that it does not administer.
pub proof fn law_deletion_needs_authority(caller: api_key::Model, target: api_key::Model)
    requires
        target.is_master || !administers(caller, target),
    ensures
        deletion_refusal(caller, Some(target)) is Some,
{
}

// ---------------------------------------------------------------------------
// Delegation
// ---------------------------------------------------------------------------
/// What a key is granted on a resource.
#[derive(Debug)]
pub struct GrantPermissionPayload {
    /// Resource category.
    pub resource_type: String,
    /// Id of the specific resource.
    pub resource_id: u128,
    /// Grants permission to trigger the resource.
    pub can_sync: bool,
    /// Grants permission to manage the resource.
    pub can_manage: bool,
    /// Grants permission to view the resource's execution logs.
    pub can_view_logs: bool,
}

/// Whether `s` is a resource category.
pub open spec fn is_resource_type(s: Seq<char>) -> bool {
    s == RESOURCE_EXTERNAL_SOURCE@ || s == RESOURCE_SYNC_TASK@ || s == RESOURCE_VAULT_ENDPOINT@
}

/// Checks the resource category of a grant. Nothing is looked up for one that does not exist.
pub fn check_resource_type(resource_type: &str) -> (r: Result<(), AppError>)
    ensures
        match r {
            Ok(_) => is_resource_type(resource_type@),
            Err(e) => !is_resource_type(resource_type@) && e@ == AppFault::InvalidInput(
                "resource_type must be external_source, sync_task, or vault_endpoint"@,
            ),
        },
{
    if text::same_text(resource_type, RESOURCE_EXTERNAL_SOURCE) || text::same_text(
        resource_type,
        RESOURCE_SYNC_TASK,
    ) || text::same_text(resource_type, RESOURCE_VAULT_ENDPOINT) {
        Ok(())
    } else {
        Err(
            AppError::InvalidInput(
                "resource_type must be external_source, sync_task, or vault_endpoint".to_owned(),
            ),
        )
    }
}

/// What stands against a grant, if anything.
pub open spec fn grant_fault(
    caller: api_key::Model,
    target: Option<api_key::Model>,
    caller_permission: Option<&api_key_sync_permission::Model>,
    payload: GrantPermissionPayload,
) -> Option<AppFault> {
    if !guards::may_manage_keys(caller) {
        Some(AppFault::Forbidden("missing can_manage_keys"@))
    } else if target is None {
        Some(AppFault::NotFound)
    } else if !is_resource_type(payload.resource_type@) {
        Some(
            AppFault::InvalidInput(
                "resource_type must be external_source, sync_task, or vault_endpoint"@,
            ),
        )
    } else {
        match guards::grant_refusal(
            caller,
            caller_permission,
            payload.can_sync,
            payload.can_manage,
            payload.can_view_logs,
        ) {
            Some(message) => Some(AppFault::Forbidden(message)),
            None => None,
        }
    }
}

/// The permission row after a grant: the verbs of the payload replace those of a row that is there
/// already.
pub open spec fn granted_row(
    target: api_key::Model,
    existing: Option<api_key_sync_permission::Model>,
    payload: GrantPermissionPayload,
    id: u128,
    now: Timestamp,
) -> api_key_sync_permission::Model {
    match existing {
        Some(row) => api_key_sync_permission::Model {
            can_sync: payload.can_sync,
            can_manage: payload.can_manage,
            can_view_logs: payload.can_view_logs,
            ..row
        },
        None => api_key_sync_permission::Model {
            id,
            api_key_id: target.id,
            resource_type: payload.resource_type,
            resource_id: payload.resource_id,
            can_sync: payload.can_sync,
            can_manage: payload.can_manage,
            can_view_logs: payload.can_view_logs,
            created_at: now,
        },
    }
}

/// Grants a key permissions on a resource.
pub fn grant_key_permission(
    caller: &api_key::Model,
    target: Option<&api_key::Model>,
    caller_permission: Option<&api_key_sync_permission::Model>,
    existing: Option<api_key_sync_permission::Model>,
    payload: GrantPermissionPayload,
    id: u128,
    now: Timestamp,
) -> (r: Result<api_key_sync_permission::Model, AppError>)
    ensures
        match grant_fault(
            *caller,
            match target {
                Some(target) => Some(*target),
                None => None,
            },
            caller_permission,
            payload,
        ) {
            Some(fault) => r is Err && r->Err_0@ == fault,
            None => r == Ok::<api_key_sync_permission::Model, AppError>(
                granted_row(*target->0, existing, payload, id, now),
            ),
        },
{
    match guard_manage_keys(caller) {
        Ok(_) => {},
        Err(e) => return Err(e),
    }
    let target = match target {
        Some(target) => target,
        None => return Err(AppError::NotFound),
    };
    match check_resource_type(payload.resource_type.as_str()) {
        Ok(_) => {},
        Err(e) => return Err(e),
    }
    match guard_delegated_grant(
        caller,
        caller_permission,
        payload.can_sync,
        payload.can_manage,
        payload.can_view_logs,
    ) {
        Ok(_) => {},
        Err(e) => return Err(e),
    }
    Ok(
        match existing {
            Some(row) => api_key_sync_permission::Model {
                can_sync: payload.can_sync,
                can_manage: payload.can_manage,
                can_view_logs: payload.can_view_logs,
                ..row
            },
            None => api_key_sync_permission::Model {
                id,
                api_key_id: target.id,
                resource_type: payload.resource_type,
                resource_id: payload.resource_id,
                can_sync: payload.can_sync,
                can_manage: payload.can_manage,
                can_view_logs: payload.can_view_logs,
                created_at: now,
            },
        },
    )
}

/// How the audit trail names a grant.
pub fn grant_label(target_name: &str, resource_type: &str, resource_id: u128) -> (s: String)
    ensures
        s@ == target_name@ + " on "@ + resource_type@ + ":"@ + ids::id_text(resource_id),
{
    let head = text::concat3(target_name, " on ", resource_type);
    text::concat3(head.as_str(), ":", ids::id_string(resource_id).as_str())
}

/// How the audit trail names a revocation.
pub fn revocation_label(permission_id: u128) -> (s: String)
    ensures
        s@ == "permission "@ + ids::id_text(permission_id),
{
    text::concat("permission ", ids::id_string(permission_id).as_str())
}

/// What stands against a revocation, if anything. A permission of another key is answered like one
/// that does not exist.
pub open spec fn revocation_fault(
    caller: api_key::Model,
    key_id: u128,
    permission: Option<api_key_sync_permission::Model>,
    caller_permission: Option<&api_key_sync_permission::Model>,
) -> Option<AppFault> {
    if !guards::may_manage_keys(caller) {
        Some(AppFault::Forbidden("missing can_manage_keys"@))
    } else {
        match permission {
            None => Some(AppFault::NotFound),
            Some(permission) => if permission.api_key_id != key_id {
                Some(AppFault::NotFound)
            } else if !guards::may_manage(caller, caller_permission) {
                Some(
                    AppFault::Forbidden(
                        "managing this resource requires can_manage_keys and a can_manage grant on it (RBAC R2)"@,
                    ),
                )
            } else {
                None
            },
        }
    }
}

/// Whether a permission may be revoked.
pub fn revoke_key_permission(
    caller: &api_key::Model,
    key_id: u128,
    permission: Option<&api_key_sync_permission::Model>,
    caller_permission: Option<&api_key_sync_permission::Model>,
) -> (r: Result<(), AppError>)
    ensures
        match revocation_fault(
            *caller,
            key_id,
            match permission {
                Some(permission) => Some(*permission),
                None => None,
            },
            caller_permission,
        ) {
            Some(fault) => r is Err && r->Err_0@ == fault,
            None => r is Ok,
        },
{
    match guard_manage_keys(caller) {
        Ok(_) => {},
        Err(e) => return Err(e),
    }
    match permission {
        None => Err(AppError::NotFound),
        Some(permission) => if permission.api_key_id != key_id {
            Err(AppError::NotFound)
        } else {
            guard_revocation(caller, caller_permission)
        },
    }
}

/// A grant gives a key no verb that its granter lacks, unless the granter is the Master, and moves
/// no row to another key or resource.
pub proof fn law_grants_are_bounded(
    caller: api_key::Model,
    target: api_key::Model,
    caller_permission: Option<&api_key_sync_permission::Model>,
    existing: Option<api_key_sync_permission::Model>,
    payload: GrantPermissionPayload,
    id: u128,
    now: Timestamp,
)
    requires
        grant_fault(caller, Some(target), caller_permission, payload) is None,
        !caller.is_master,
    ensures
        ({
            let row = granted_row(target, existing, payload, id, now);
            &&& row.can_sync ==> guards::holds_sync(caller_permission)
            &&& row.can_manage ==> guards::holds_manage(caller_permission)
            &&& row.can_view_logs ==> guards::holds_view_logs(caller_permission)
            &&& existing matches Some(old_row) ==> row.id == old_row.id && row.api_key_id
                == old_row.api_key_id && row.resource_id == old_row.resource_id
        }),
{
}

/// A key is shown as it is stored, but for its credentials.
pub proof fn law_keys_are_shown_as_they_are(m: api_key::Model)
    ensures
        ({
            let r = shown_key(m);
            &&& r.id == m.id
            &&& r.name == m.name
            &&& r.prefix == m.prefix
            &&& r.is_master == m.is_master
            &&& r.can_manage_keys == m.can_manage_keys
            &&& r.can_manage_sources == m.can_manage_sources
            &&& r.can_manage_vaults == m.can_manage_vaults
            &&& r.parent_key_id == m.parent_key_id
            &&& r.bound_ips == m.bound_ips
            &&& r.created_at == m.created_at
            &&& r.updated_at == m.updated_at
        }),
{
}

/// A change makes exactly what it names: every value that it gives is the key's afterwards, and every
/// other value is as it was.
pub proof fn law_changes_are_made_as_asked(
    target: api_key::Model,
    payload: UpdateApiKeyPayload,
    now: Timestamp,
)
    ensures
        ({
            let after = updated_key(target, payload, now);
            &&& payload.name matches Some(v) ==> after.name == v
            &&& payload.name is None ==> after.name == target.name
            &&& payload.can_manage_keys matches Some(v) ==> after.can_manage_keys == v
            &&& payload.can_manage_keys is None ==> after.can_manage_keys == target.can_manage_keys
            &&& payload.can_manage_sources matches Some(v) ==> after.can_manage_sources == v
            &&& payload.can_manage_sources is None ==> after.can_manage_sources == target.can_manage_sources
            &&& payload.can_manage_vaults matches Some(v) ==> after.can_manage_vaults == v
            &&& payload.can_manage_vaults is None ==> after.can_manage_vaults == target.can_manage_vaults
            &&& payload.bound_ips matches Some(v) ==> after.bound_ips == Some(v)
            &&& payload.bound_ips is None ==> after.bound_ips == target.bound_ips
            &&& after.id == target.id
            &&& after.key_hash == target.key_hash
            &&& after.signing_secret == target.signing_secret
            &&& after.prefix == target.prefix
            &&& after.is_master == target.is_master
            &&& after.parent_key_id == target.parent_key_id
            &&& after.created_at == target.created_at
            &&& after.updated_at == now
        }),
{
}

/// A key is created as it was asked for, as a daughter of its creator, and its credentials work: the
/// plaintext key is what is looked up by, and the plaintext secret opens again from the row.
pub proof fn law_keys_are_created_as_asked(
    created: CreatedKey,
    caller: api_key::Model,
    payload: CreateApiKeyPayload,
    cipher: SecretCipher,
    id: u128,
    now: Timestamp,
)
    requires
        is_created_key(created, caller, payload, cipher, id, now),
    ensures
        created.row.id == id && created.row.parent_key_id == Some(caller.id),
        created.row.name == payload.name,
        created.row.can_manage_keys == payload.can_manage_keys,
        created.row.can_manage_sources == payload.can_manage_sources,
        created.row.can_manage_vaults == payload.can_manage_vaults,
        created.row.bound_ips == payload.bound_ips,
        created.row.key_hash@ == support::hashed(created.plaintext_key@),
        created.plaintext_key@.len() >= 8 ==> created.row.prefix@ == created.plaintext_key@.take(8),
        created.row.signing_secret is Some,
        cipher.opened(created.row.signing_secret->0@) == Ok::<Seq<char>, crypto::CryptoError>(
            created.plaintext_secret@,
        ),
        created.row.created_at == now && created.row.updated_at == now,
{
    text::law_shortened_starts_the_text(created.plaintext_key@, 8);
    assert(created.plaintext_key@.len() >= 8 ==> text::shortened(created.plaintext_key@, 8)
        =~= created.plaintext_key@.take(8));
}

/// The Master has authority over every key, a key that manages keys over those it created, and nobody
/// over any other; whoever has it sees the key, and every key sees itself.
pub proof fn law_who_administers_and_sees_keys(caller: api_key::Model, target: api_key::Model)
    ensures
        caller.is_master ==> administers(caller, target) && sees(caller, target),
        !caller.is_master ==> (administers(caller, target) <==> caller.can_manage_keys
            && target.parent_key_id == Some(caller.id)),
        !caller.is_master ==> (sees(caller, target) <==> target.id == caller.id
            || target.parent_key_id == Some(caller.id)),
        administers(caller, target) ==> sees(caller, target),
        sees(caller, caller),
{
}

/// A key may be created by the Master with any right, and by a key that manages keys without any
/// global right; and by nobody else and in no other way.
pub proof fn law_who_creates_keys(caller: api_key::Model, payload: CreateApiKeyPayload)
    ensures
        creation_refusal(caller, payload) is None <==> caller.is_master || (caller.can_manage_keys
            && !payload.can_manage_keys && !payload.can_manage_sources
            && !payload.can_manage_vaults),
        creation_refusal(caller, payload) matches Some(fault) ==> fault is Forbidden,
{
}

/// A change of a key is accepted from the Master, except of the Master's own rights and name, and
/// from the key's creator as long as it gives no global right; and from nobody else. A key that is
/// not there is not found.
pub proof fn law_who_changes_keys(
    caller: api_key::Model,
    target: api_key::Model,
    payload: UpdateApiKeyPayload,
)
    ensures
        caller.is_master || caller.can_manage_keys ==> update_refusal(caller, None, payload)
            == Some(AppFault::NotFound),
        update_refusal(caller, Some(target), payload) is None <==> {
            &&& caller.is_master || (caller.can_manage_keys && target.parent_key_id == Some(
                caller.id,
            ))
            &&& target.is_master ==> payload.name is None && payload.can_manage_keys is None
                && payload.can_manage_sources is None && payload.can_manage_vaults is None
            &&& caller.is_master || (payload.can_manage_keys != Some(true)
                && payload.can_manage_sources != Some(true) && payload.can_manage_vaults != Some(
                true,
            ))
        },
        update_refusal(caller, Some(target), payload) matches Some(fault) ==> fault is Forbidden,
{
}

/// The credentials of a key are rotated, and a key is deleted, by the Master and by the key's creator,
/// and by nobody else; the Master's never.
pub proof fn law_who_rotates_and_deletes_keys(caller: api_key::Model, target: api_key::Model)
    ensures
        rotation_refusal(caller, Some(target)) is None <==> !target.is_master && (caller.is_master
            || (caller.can_manage_keys && target.parent_key_id == Some(caller.id))),
        deletion_refusal(caller, Some(target)) is None <==> !target.is_master && (caller.is_master
            || (caller.can_manage_keys && target.parent_key_id == Some(caller.id))),
        rotation_refusal(caller, Some(target)) matches Some(fault) ==> fault is Forbidden,
        deletion_refusal(caller, Some(target)) matches Some(fault) ==> fault is Forbidden,
        caller.is_master || caller.can_manage_keys ==> rotation_refusal(caller, None) == Some(
            AppFault::NotFound,
        ) && deletion_refusal(caller, None) == Some(AppFault::NotFound),
{
}

/// A grant leaves the row with exactly the verbs that were asked for, on the resource and for the key
/// that were asked for.
pub proof fn law_grants_are_made_as_asked(
    target: api_key::Model,
    existing: Option<api_key_sync_permission::Model>,
    payload: GrantPermissionPayload,
    id: u128,
    now: Timestamp,
)
    ensures
        ({
            let row = granted_row(target, existing, payload, id, now);
            &&& row.can_sync == payload.can_sync
            &&& row.can_manage == payload.can_manage
            &&& row.can_view_logs == payload.can_view_logs
            &&& existing is None ==> row.id == id && row.api_key_id == target.id
                && row.resource_type == payload.resource_type && row.resource_id
                == payload.resource_id && row.created_at == now
            &&& existing matches Some(before) ==> row.id == before.id && row.api_key_id
                == before.api_key_id && row.resource_type == before.resource_type
                && row.resource_id == before.resource_id && row.created_at == before.created_at
        }),
{
}

/// A grant is accepted from the Master, and from a key that manages keys and holds the right to manage
/// the resource and every verb that it grants; and from nobody else.
pub proof fn law_who_grants(
    caller: api_key::Model,
    target: api_key::Model,
    caller_permission: Option<&api_key_sync_permission::Model>,
    payload: GrantPermissionPayload,
)
    requires
        payload.resource_type@ == RESOURCE_EXTERNAL_SOURCE@ || payload.resource_type@
            == RESOURCE_SYNC_TASK@ || payload.resource_type@ == RESOURCE_VAULT_ENDPOINT@,
    ensures
        grant_fault(caller, Some(target), caller_permission, payload) is None <==> caller.is_master
            || (caller.can_manage_keys && caller_permission is Some
            && caller_permission->0.can_manage && (payload.can_sync
            ==> caller_permission->0.can_sync) && (payload.can_view_logs
            ==> caller_permission->0.can_view_logs)),
        grant_fault(caller, Some(target), caller_permission, payload) matches Some(fault)
            ==> fault is Forbidden,
{
}

/// A permission is revoked by the Master, and by a key that manages keys and may manage the resource,
/// and by nobody else; a permission of another key is not found.
pub proof fn law_who_revokes(
    caller: api_key::Model,
    key_id: u128,
    permission: api_key_sync_permission::Model,
    caller_permission: Option<&api_key_sync_permission::Model>,
)
    ensures
        revocation_fault(caller, key_id, Some(permission), caller_permission) is None
            <==> permission.api_key_id == key_id && (caller.is_master || (caller.can_manage_keys
            && caller_permission is Some && caller_permission->0.can_manage)),
        (caller.is_master || caller.can_manage_keys) && permission.api_key_id != key_id
            ==> revocation_fault(caller, key_id, Some(permission), caller_permission) == Some(
            AppFault::NotFound,
        ),
        caller.is_master || caller.can_manage_keys ==> revocation_fault(
            caller,
            key_id,
            None,
            caller_permission,
        ) == Some(AppFault::NotFound),
{
}

/// A resource is owned by one of the keys exactly where its owner is one of them.
pub proof fn law_ownership_goes_by_the_owner(owner_key_id: Option<u128>, keys: Seq<u128>)
    ensures
        owner_key_id is None ==> !owned_by(owner_key_id, keys),
        owner_key_id matches Some(owner) ==> (owned_by(owner_key_id, keys) <==> exists|i: int|
            0 <= i < keys.len() && #[trigger] keys[i] == owner),
{
}

/// Whatever one of the keys owns is in the inventory, under its kind, id and name, and stands in the
/// way of deleting them.
pub proof fn law_owned_resources_are_listed(
    keys: Seq<u128>,
    vaults: Seq<vault_endpoint::Model>,
    sources: Seq<external_source::Model>,
    tasks: Seq<vault_sync_task::Model>,
    i: int,
)
    ensures
        0 <= i < vaults.len() && vaults[i].owner_key_id is Some && keys.contains(
            vaults[i].owner_key_id->0,
        ) ==> owned_items(keys, vaults, sources, tasks).contains(
            inventory_item("vault_endpoint"@, vaults[i].id, vaults[i].name@, vaults[i].owner_key_id),
        ),
        0 <= i < sources.len() && sources[i].owner_key_id is Some && keys.contains(
            sources[i].owner_key_id->0,
        ) ==> owned_items(keys, vaults, sources, tasks).contains(
            inventory_item(
                "external_source"@,
                sources[i].id,
                sources[i].name@,
                sources[i].owner_key_id,
            ),
        ),
        0 <= i < tasks.len() && tasks[i].owner_key_id is Some && keys.contains(
            tasks[i].owner_key_id->0,
        ) ==> owned_items(keys, vaults, sources, tasks).contains(
            inventory_item("sync_task"@, tasks[i].id, tasks[i].name@, tasks[i].owner_key_id),
        ),
{
    let a = vault_items(vaults, keys);
    let b = source_items(sources, keys);
    let c = task_items(tasks, keys);
    let all = owned_items(keys, vaults, sources, tasks);
    if 0 <= i < vaults.len() && owned_by(vaults[i].owner_key_id, keys) {
        let k = lemma_vault_is_listed(vaults, keys, i);
        assert(all[k] == a[k]);
    }
    if 0 <= i < sources.len() && owned_by(sources[i].owner_key_id, keys) {
        let k = lemma_source_is_listed(sources, keys, i);
        assert(all[a.len() + k] == b[k]);
    }
    if 0 <= i < tasks.len() && owned_by(tasks[i].owner_key_id, keys) {
        let k = lemma_task_is_listed(tasks, keys, i);
        assert(all[a.len() + b.len() + k] == c[k]);
    }
}

/// A row that one of the keys owns is listed.
proof fn lemma_vault_is_listed(rows: Seq<vault_endpoint::Model>, keys: Seq<u128>, i: int) -> (k: int)
    requires
        0 <= i < rows.len(),
        owned_by(rows[i].owner_key_id, keys),
    ensures
        0 <= k < vault_items(rows, keys).len(),
        vault_items(rows, keys)[k] == inventory_item(
            "vault_endpoint"@,
            rows[i].id,
            rows[i].name@,
            rows[i].owner_key_id,
        ),
    decreases rows.len(),
{
    let shorter = rows.drop_last();
    if i < shorter.len() {
        assert(shorter[i] == rows[i]);
        lemma_vault_is_listed(shorter, keys, i)
    } else {
        vault_items(shorter, keys).len() as int
    }
}

/// A row that one of the keys owns is listed.
proof fn lemma_source_is_listed(rows: Seq<external_source::Model>, keys: Seq<u128>, i: int) -> (k: int)
    requires
        0 <= i < rows.len(),
        owned_by(rows[i].owner_key_id, keys),
    ensures
        0 <= k < source_items(rows, keys).len(),
        source_items(rows, keys)[k] == inventory_item(
            "external_source"@,
            rows[i].id,
            rows[i].name@,
            rows[i].owner_key_id,
        ),
    decreases rows.len(),
{
    let shorter = rows.drop_last();
    if i < shorter.len() {
        assert(shorter[i] == rows[i]);
        lemma_source_is_listed(shorter, keys, i)
    } else {
        source_items(shorter, keys).len() as int
    }
}

/// A row that one of the keys owns is listed.
proof fn lemma_task_is_listed(rows: Seq<vault_sync_task::Model>, keys: Seq<u128>, i: int) -> (k: int)
    requires
        0 <= i < rows.len(),
        owned_by(rows[i].owner_key_id, keys),
    ensures
        0 <= k < task_items(rows, keys).len(),
        task_items(rows, keys)[k] == inventory_item(
            "sync_task"@,
            rows[i].id,
            rows[i].name@,
            rows[i].owner_key_id,
        ),
    decreases rows.len(),
{
    let shorter = rows.drop_last();
    if i < shorter.len() {
        assert(shorter[i] == rows[i]);
        lemma_task_is_listed(shorter, keys, i)
    } else {
        task_items(shorter, keys).len() as int
    }
}

/// An inventory names each resource by its kind, its id, its name and its owner.
pub proof fn law_inventories_name_what_is_owned(
    kind: Seq<char>,
    id: u128,
    name: Seq<char>,
    owner: u128,
)
    ensures
        ({
            let item = inventory_item(kind, id, name, Some(owner));
            &&& item.field("type"@) == Some(Json::Text(kind))
            &&& item.field("id"@) == Some(Json::Text(ids::id_text(id)))
            &&& item.field("name"@) == Some(Json::Text(name))
            &&& item.field("owner_key_id"@) == Some(Json::Text(ids::id_text(owner)))
        }),
{
    reveal_strlit("type");
    reveal_strlit("id");
    reveal_strlit("name");
    reveal_strlit("owner_key_id");
    assert("type"@[0] == 't' && "id"@[0] == 'i' && "name"@[0] == 'n' && "owner_key_id"@[0] == 'o');
    let item = inventory_item(kind, id, name, Some(owner));
    crate::json::law_fields_are_found(item, "type"@, 0);
    crate::json::law_fields_are_found(item, "id"@, 1);
    crate::json::law_fields_are_found(item, "name"@, 2);
    crate::json::law_fields_are_found(item, "owner_key_id"@, 3);
}

/// There are three categories of resources.
pub proof fn law_which_categories_there_are(s: Seq<char>)
    ensures
        is_resource_type(s) <==> s == "external_source"@ || s == "sync_task"@ || s
            == "vault_endpoint"@,
{
}

/// A subtree that still owns something is a conflict, and the answer lists what it owns.
pub proof fn law_conflicts_list_what_is_owned(inventory: Seq<Json>)
    ensures
        still_owns(inventory).response().0 == 409,
        still_owns(inventory).response().1.field("owned_resources"@) == Some(Json::Array(inventory)),
        still_owns(inventory).response().1.field("error"@) == Some(
            Json::Text(
                "this key (or a daughter in its subtree) still owns resources; reassign or delete them first"@,
            ),
        ),
{
    reveal_strlit("owned_resources");
    reveal_strlit("error");
    assert("owned_resources"@.len() != "error"@.len());
    let message =
        "this key (or a daughter in its subtree) still owns resources; reassign or delete them first"@;
    let over = seq![("owned_resources"@, Json::Array(inventory))];
    let start = crate::error::error_body(message)->Object_0;
    crate::error::law_details_win(
        start,
        Seq::empty(),
        "owned_resources"@,
        Json::Array(inventory),
    );
    assert(Seq::<(Seq<char>, Json)>::empty().push(("owned_resources"@, Json::Array(inventory)))
        =~= over);
    crate::error::law_details_win(start, over, "error"@, Json::Null);
    crate::json::law_fields_are_found(Json::Object(start), "error"@, 0);
}

/// Documents are seen as they are, in order.
pub proof fn law_documents_are_in_order(values: Seq<JsonValue>, i: int)
    ensures
        documents(values).len() == values.len(),
        0 <= i < values.len() ==> documents(values)[i] == values[i]@,
{
}

/// Whoever may not administer keys is told so first; a key that does not exist is not found; and what
/// stands against an existing one is said.
pub proof fn law_refusals_say_why(
    caller: api_key::Model,
    target: api_key::Model,
    created: CreateApiKeyPayload,
    changed: UpdateApiKeyPayload,
)
    ensures
        !caller.is_master && !caller.can_manage_keys ==> {
            let fault = Some(AppFault::Forbidden("missing can_manage_keys"@));
            &&& creation_refusal(caller, created) == fault
            &&& update_refusal(caller, None, changed) == fault
            &&& update_refusal(caller, Some(target), changed) == fault
            &&& rotation_refusal(caller, None) == fault
            &&& rotation_refusal(caller, Some(target)) == fault
            &&& deletion_refusal(caller, None) == fault
            &&& deletion_refusal(caller, Some(target)) == fault
        },
        caller.is_master || caller.can_manage_keys ==> {
            &&& update_refusal(caller, None, changed) == Some(AppFault::NotFound)
            &&& rotation_refusal(caller, None) == Some(AppFault::NotFound)
            &&& deletion_refusal(caller, None) == Some(AppFault::NotFound)
            &&& creation_refusal(caller, created) is Some ==> creation_refusal(caller, created)
                == Some(
                AppFault::Forbidden(
                    "only the Master key may grant can_manage_keys, can_manage_sources, or can_manage_vaults"@,
                ),
            )
            &&& target.is_master ==> rotation_refusal(caller, Some(target)) == Some(
                AppFault::Forbidden(
                    "the Master key's credentials cannot be rotated through the API (RBAC §5)"@,
                ),
            )
            &&& target.is_master ==> deletion_refusal(caller, Some(target)) == Some(
                AppFault::Forbidden("the Master key cannot be deleted through the API (RBAC §5)"@),
            )
            &&& !administers(caller, target) ==> {
                let fault = Some(AppFault::Forbidden("no administrative authority over this key"@));
                &&& update_refusal(caller, Some(target), changed) == fault
                &&& !target.is_master ==> rotation_refusal(caller, Some(target)) == fault
                &&& !target.is_master ==> deletion_refusal(caller, Some(target)) == fault
            }
            &&& administers(caller, target) && target.is_master && (changed.name is Some
                || changed.can_manage_keys is Some || changed.can_manage_sources is Some
                || changed.can_manage_vaults is Some) ==> update_refusal(
                caller,
                Some(target),
                changed,
            ) == Some(
                AppFault::Forbidden(
                    "the Master key is immutable through the API except for its own bound_ips (RBAC §5)"@,
                ),
            )
            &&& administers(caller, target) && !target.is_master && !caller.is_master && (
            changed.can_manage_keys == Some(true) || changed.can_manage_sources == Some(true)
                || changed.can_manage_vaults == Some(true)) ==> update_refusal(
                caller,
                Some(target),
                changed,
            ) == Some(
                AppFault::Forbidden(
                    "only the Master key may grant can_manage_keys, can_manage_sources, or can_manage_vaults"@,
                ),
            )
        },
{
}

/// What stands against a grant or a revocation is said.
pub proof fn law_grant_refusals_say_why(
    caller: api_key::Model,
    target: api_key::Model,
    caller_permission: Option<&api_key_sync_permission::Model>,
    payload: GrantPermissionPayload,
    key_id: u128,
    permission: api_key_sync_permission::Model,
    message: Seq<char>,
)
    ensures
        !caller.is_master && !caller.can_manage_keys ==> {
            let fault = Some(AppFault::Forbidden("missing can_manage_keys"@));
            &&& grant_fault(caller, None, caller_permission, payload) == fault
            &&& grant_fault(caller, Some(target), caller_permission, payload) == fault
            &&& revocation_fault(caller, key_id, None, caller_permission) == fault
            &&& revocation_fault(caller, key_id, Some(permission), caller_permission) == fault
        },
        caller.is_master || caller.can_manage_keys ==> {
            &&& grant_fault(caller, None, caller_permission, payload) == Some(AppFault::NotFound)
            &&& !is_resource_type(payload.resource_type@) ==> grant_fault(
                caller,
                Some(target),
                caller_permission,
                payload,
            ) == Some(
                AppFault::InvalidInput(
                    "resource_type must be external_source, sync_task, or vault_endpoint"@,
                ),
            )
            &&& is_resource_type(payload.resource_type@) && guards::grant_refusal(
                caller,
                caller_permission,
                payload.can_sync,
                payload.can_manage,
                payload.can_view_logs,
            ) == Some(message) ==> grant_fault(caller, Some(target), caller_permission, payload)
                == Some(AppFault::Forbidden(message))
            &&& revocation_fault(caller, key_id, None, caller_permission) == Some(
                AppFault::NotFound,
            )
            &&& permission.api_key_id != key_id ==> revocation_fault(
                caller,
                key_id,
                Some(permission),
                caller_permission,
            ) == Some(AppFault::NotFound)
            &&& permission.api_key_id == key_id && !guards::may_manage(caller, caller_permission)
                ==> revocation_fault(caller, key_id, Some(permission), caller_permission) == Some(
                AppFault::Forbidden(
                    "managing this resource requires can_manage_keys and a can_manage grant on it (RBAC R2)"@,
                ),
            )
        },
{
}

} // verus!
