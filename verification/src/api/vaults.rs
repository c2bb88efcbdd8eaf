//! Vault endpoints: configuration and credentials of the remote vaults.

use vstd::prelude::*;
use vstd::utf8::*;

use crate::api::guards;
use crate::api::guards::{guard_resource_creation, guard_resource_lifecycle};
use crate::api::resources;
use crate::api::resources::{check_change, is_rename, visible_to};
use crate::api::support;
use crate::api::support::{
    grant_full_permission, or_keep, or_keep_optional, RESOURCE_VAULT_ENDPOINT,
};
use crate::crypto;
use crate::crypto::SecretCipher;
use crate::entities::{api_key, api_key_sync_permission, vault_endpoint};
use crate::error::{AppError, AppFault};
use crate::text;
use crate::time::Timestamp;

verus! {

/// An endpoint as the API shows it: never its credentials.
#[derive(Debug)]
pub struct VaultEndpointResponse {
    /// Endpoint id.
    pub id: u128,
    /// Human-readable name.
    pub name: String,
    /// Base URL of the remote vault.
    pub target_url: String,
    /// Optional description.
    pub description: Option<String>,
    /// Key holding lifecycle authority over this endpoint.
    pub owner_key_id: Option<u128>,
    /// Creation timestamp.
    pub created_at: Timestamp,
    /// Last update timestamp.
    pub updated_at: Timestamp,
}

/// An endpoint as the API shows it.
pub open spec fn shown_endpoint(m: vault_endpoint::Model) -> VaultEndpointResponse {
    VaultEndpointResponse {
        id: m.id,
        name: m.name,
        target_url: m.target_url,
        description: m.description,
        owner_key_id: m.owner_key_id,
        created_at: m.created_at,
        updated_at: m.updated_at,
    }
}

impl VaultEndpointResponse {
    /// An endpoint as the API shows it.
    pub fn from_model(m: vault_endpoint::Model) -> (r: Self)
        ensures
            r == shown_endpoint(m),
    {
        VaultEndpointResponse {
            id: m.id,
            name: m.name,
            target_url: m.target_url,
            description: m.description,
            owner_key_id: m.owner_key_id,
            created_at: m.created_at,
            updated_at: m.updated_at,
        }
    }
}

/// The endpoints that are visible to the caller, in order. Each comes with whether the caller holds
/// a permission row on it.
pub fn list_vault_endpoints(
    caller: &api_key::Model,
    endpoints: Vec<(vault_endpoint::Model, bool)>,
) -> (r: Vec<VaultEndpointResponse>)
    ensures
        r@ == endpoints@.filter(
            |e: (vault_endpoint::Model, bool)|
                resources::is_visible(*caller, e.0.owner_key_id, e.1),
        ).map_values(|e: (vault_endpoint::Model, bool)| shown_endpoint(e.0)),
{
    let ghost all = endpoints@;
    let ghost visible = |e: (vault_endpoint::Model, bool)|
        resources::is_visible(*caller, e.0.owner_key_id, e.1);
    let ghost shown = |e: (vault_endpoint::Model, bool)| shown_endpoint(e.0);
    let mut r: Vec<VaultEndpointResponse> = Vec::new();
    proof {
        reveal(Seq::filter);
        assert(r@ =~= all.take(0).filter(visible).map_values(shown));
    }
    for endpoint in it: endpoints
        invariant
            it.seq() == all,
            visible == (|e: (vault_endpoint::Model, bool)|
                resources::is_visible(*caller, e.0.owner_key_id, e.1)),
            shown == (|e: (vault_endpoint::Model, bool)| shown_endpoint(e.0)),
            r@ == all.take(it.index()).filter(visible).map_values(shown),
    {
        let ghost i = it.index();
        proof {
            reveal(Seq::filter);
            assert(all.take(i + 1).drop_last() =~= all.take(i));
            assert(all.take(i + 1).last() == endpoint);
        }
        let ghost before = all.take(i).filter(visible);
        if visible_to(caller, endpoint.0.owner_key_id, endpoint.1) {
            let ghost e = endpoint;
            r.push(VaultEndpointResponse::from_model(endpoint.0));
            assert(before.push(e).map_values(shown) =~= before.map_values(shown).push(
                shown_endpoint(e.0),
            ));
        }
    }
    assert(all.take(all.len() as int) =~= all);
    r
}

/// One endpoint, if it is visible to the caller.
pub fn get_vault_endpoint(
    caller: &api_key::Model,
    endpoint: Option<vault_endpoint::Model>,
    has_permission: bool,
) -> (r: Result<VaultEndpointResponse, AppError>)
    ensures
        match endpoint {
            Some(endpoint) if resources::is_visible(
                *caller,
                endpoint.owner_key_id,
                has_permission,
            ) => r == Ok::<VaultEndpointResponse, AppError>(shown_endpoint(endpoint)),
            _ => r is Err && r->Err_0@ == AppFault::NotFound,
        },
{
    match endpoint {
        Some(endpoint) => if visible_to(caller, endpoint.owner_key_id, has_permission) {
            Ok(VaultEndpointResponse::from_model(endpoint))
        } else {
            Err(AppError::NotFound)
        },
        None => Err(AppError::NotFound),
    }
}

/// What a new endpoint is asked to be.
#[derive(Debug)]
pub struct CreateVaultEndpointPayload {
    /// Human-readable name. Must be unique.
    pub name: String,
    /// Base URL of the remote vault.
    pub target_url: String,
    /// Key that this service sends to the remote vault.
    pub api_key: String,
    /// Secret that signs requests to the remote vault. Sealed at rest.
    pub signing_secret: String,
    /// Optional description.
    pub description: Option<String>,
}

/// What an endpoint is asked to become.
#[derive(Debug)]
pub struct UpdateVaultEndpointPayload {
    /// New name.
    pub name: Option<String>,
    /// New base URL.
    pub target_url: Option<String>,
    /// New remote key.
    pub api_key: Option<String>,
    /// New signing secret.
    pub signing_secret: Option<String>,
    /// New description.
    pub description: Option<String>,
}

/// An endpoint that was created, with what its creator may do to it.
#[derive(Debug)]
pub struct CreatedVaultEndpoint {
    /// The endpoint's row.
    pub row: vault_endpoint::Model,
    /// The creator's permission row.
    pub permission: api_key_sync_permission::Model,
}

/// Creates an endpoint that belongs to the caller. Its secret is stored sealed.
pub fn create_vault_endpoint(
    caller: &api_key::Model,
    payload: CreateVaultEndpointPayload,
    cipher: &SecretCipher,
    id: u128,
    permission_id: u128,
    now: Timestamp,
) -> (r: Result<CreatedVaultEndpoint, AppError>)
    ensures
        if !guards::may_create(*caller, caller.can_manage_vaults) {
            r is Err && r->Err_0@ == AppFault::Forbidden(
                "missing the resource-creation right for this action"@,
            )
        } else if !cipher.can_seal(payload.signing_secret@) {
            r is Err && r->Err_0@ == AppFault::Internal
        } else {
            &&& r is Ok
            &&& is_created_endpoint(r->Ok_0.row, *caller, payload, *cipher, id, now)
            &&& cipher.seals(r->Ok_0.row.signing_secret@, payload.signing_secret@)
            &&& r->Ok_0.row == (vault_endpoint::Model {
                id,
                name: payload.name,
                target_url: payload.target_url,
                api_key: payload.api_key,
                signing_secret: r->Ok_0.row.signing_secret,
                description: payload.description,
                owner_key_id: Some(caller.id),
                created_at: now,
                updated_at: now,
            })
            &&& resources::is_full_permission(
                r->Ok_0.permission,
                permission_id,
                caller.id,
                RESOURCE_VAULT_ENDPOINT@,
                id,
                now,
            )
        },
{
    match guard_resource_creation(caller, caller.can_manage_vaults) {
        Ok(_) => {},
        Err(e) => return Err(e),
    }
    let sealed = match cipher.seal(payload.signing_secret.as_str()) {
        Ok(sealed) => sealed,
        Err(e) => return Err(AppError::from_crypto(e)),
    };
    let row = vault_endpoint::Model {
        id,
        name: payload.name,
        target_url: payload.target_url,
        api_key: payload.api_key,
        signing_secret: sealed,
        description: payload.description,
        owner_key_id: Some(caller.id),
        created_at: now,
        updated_at: now,
    };
    let permission = grant_full_permission(
        permission_id,
        caller.id,
        RESOURCE_VAULT_ENDPOINT,
        id,
        now,
    );
    Ok(CreatedVaultEndpoint { row, permission })
}

/// What is said where an endpoint's name is taken.
pub fn endpoint_name_taken(name: &str) -> (e: AppError)
    ensures
        e@ == AppFault::Conflict(
            "a vault endpoint named '"@ + name@ + "' already exists"@,
        ),
{
    AppError::Conflict(text::concat3("a vault endpoint named '", name, "' already exists"))
}

/// Changes an endpoint. A new secret is stored sealed.
pub fn update_vault_endpoint(
    caller: &api_key::Model,
    existing: Option<vault_endpoint::Model>,
    permission: Option<&api_key_sync_permission::Model>,
    payload: UpdateVaultEndpointPayload,
    cipher: &SecretCipher,
    now: Timestamp,
) -> (r: Result<vault_endpoint::Model, AppError>)
    ensures
        match existing {
            None => r is Err && r->Err_0@ == AppFault::NotFound,
            Some(existing) => match resources::change_refusal(
                *caller,
                existing.owner_key_id,
                permission,
                resources::renames(payload.name, existing.name),
            ) {
                Some(fault) => r is Err && r->Err_0@ == fault,
                None => match payload.signing_secret {
                    Some(secret) if !cipher.can_seal(secret@) => r is Err && r->Err_0@
                        == AppFault::Internal,
                    _ => {
                        &&& r is Ok
                        &&& is_changed_endpoint(r->Ok_0, existing, payload, *cipher, now)
                        &&& match payload.signing_secret {
                            Some(secret) => cipher.seals(r->Ok_0.signing_secret@, secret@),
                            None => r->Ok_0.signing_secret == existing.signing_secret,
                        }
                        &&& r->Ok_0 == (vault_endpoint::Model {
                            name: support::or_kept(payload.name, existing.name),
                            target_url: support::or_kept(payload.target_url, existing.target_url),
                            api_key: support::or_kept(payload.api_key, existing.api_key),
                            signing_secret: r->Ok_0.signing_secret,
                            description: support::or_kept_optional(
                                payload.description,
                                existing.description,
                            ),
                            updated_at: now,
                            ..existing
                        })
                    },
                },
            },
        },
{
    let existing = match existing {
        Some(existing) => existing,
        None => return Err(AppError::NotFound),
    };
    let renaming = is_rename(&payload.name, &existing.name);
    match check_change(caller, existing.owner_key_id, permission, renaming) {
        Ok(_) => {},
        Err(e) => return Err(e),
    }
    let signing_secret = match payload.signing_secret {
        Some(secret) => match cipher.seal(secret.as_str()) {
            Ok(sealed) => sealed,
            Err(e) => return Err(AppError::from_crypto(e)),
        },
        None => existing.signing_secret,
    };
    Ok(
        vault_endpoint::Model {
            id: existing.id,
            name: or_keep(payload.name, existing.name),
            target_url: or_keep(payload.target_url, existing.target_url),
            api_key: or_keep(payload.api_key, existing.api_key),
            signing_secret,
            description: or_keep_optional(payload.description, existing.description),
            owner_key_id: existing.owner_key_id,
            created_at: existing.created_at,
            updated_at: now,
        },
    )
}

/// Whether the caller may delete an endpoint. Gives its name, for the audit trail.
pub fn delete_vault_endpoint(
    caller: &api_key::Model,
    existing: Option<vault_endpoint::Model>,
) -> (r: Result<String, AppError>)
    ensures
        match existing {
            None => r is Err && r->Err_0@ == AppFault::NotFound,
            Some(existing) => if guards::may_end(*caller, existing.owner_key_id) {
                r == Ok::<String, AppError>(existing.name)
            } else {
                r is Err && r->Err_0@ == AppFault::Forbidden(
                    "only the Master key or this resource's owner may delete or rename it (RBAC §3)"@,
                )
            },
        },
{
    let existing = match existing {
        Some(existing) => existing,
        None => return Err(AppError::NotFound),
    };
    match guard_resource_lifecycle(caller, existing.owner_key_id) {
        Ok(_) => Ok(existing.name),
        Err(e) => Err(e),
    }
}

/// An endpoint is shown as it is stored, but for its credentials.
pub proof fn law_endpoints_are_shown_as_they_are(m: vault_endpoint::Model)
    ensures
        ({
            let r = shown_endpoint(m);
            &&& r.id == m.id
            &&& r.name == m.name
            &&& r.target_url == m.target_url
            &&& r.description == m.description
            &&& r.owner_key_id == m.owner_key_id
            &&& r.created_at == m.created_at
            &&& r.updated_at == m.updated_at
        }),
{
}

/// Whether a row is the endpoint that was asked for, its secret sealed.
pub open spec fn is_created_endpoint(
    row: vault_endpoint::Model,
    caller: api_key::Model,
    payload: CreateVaultEndpointPayload,
    cipher: SecretCipher,
    id: u128,
    now: Timestamp,
) -> bool {
    &&& row.id == id
    &&& row.name == payload.name
    &&& row.target_url == payload.target_url
    &&& row.api_key == payload.api_key
    &&& cipher.seals(row.signing_secret@, payload.signing_secret@)
    &&& row.description == payload.description
    &&& row.owner_key_id == Some(caller.id)
    &&& row.created_at == now
    &&& row.updated_at == now
}

/// Whether a row is an endpoint after a change, a new secret sealed.
pub open spec fn is_changed_endpoint(
    row: vault_endpoint::Model,
    existing: vault_endpoint::Model,
    payload: UpdateVaultEndpointPayload,
    cipher: SecretCipher,
    now: Timestamp,
) -> bool {
    &&& match payload.signing_secret {
        Some(secret) => cipher.seals(row.signing_secret@, secret@),
        None => row.signing_secret == existing.signing_secret,
    }
    &&& row == (vault_endpoint::Model {
        name: support::or_kept(payload.name, existing.name),
        target_url: support::or_kept(payload.target_url, existing.target_url),
        api_key: support::or_kept(payload.api_key, existing.api_key),
        signing_secret: row.signing_secret,
        description: support::or_kept_optional(payload.description, existing.description),
        updated_at: now,
        ..existing
    })
}

/// An endpoint is created as it was asked for: its secret is what opens again from the row, and every
/// other value of the payload is the row's.
pub proof fn law_endpoints_are_created_as_asked(
    row: vault_endpoint::Model,
    caller: api_key::Model,
    payload: CreateVaultEndpointPayload,
    cipher: SecretCipher,
    id: u128,
    now: Timestamp,
)
    requires
        is_created_endpoint(row, caller, payload, cipher, id, now),
    ensures
        row.id == id && row.owner_key_id == Some(caller.id),
        row.name == payload.name,
        row.target_url == payload.target_url,
        row.api_key == payload.api_key,
        row.description == payload.description,
        cipher.opened(row.signing_secret@) == Ok::<Seq<char>, crypto::CryptoError>(
            payload.signing_secret@,
        ),
        row.created_at == now && row.updated_at == now,
{
}

/// A change makes exactly what it names: every value that it gives is the row's afterwards, a new
/// secret opens again from the row, and every other value is as it was.
pub proof fn law_changes_are_made_as_asked(
    row: vault_endpoint::Model,
    existing: vault_endpoint::Model,
    payload: UpdateVaultEndpointPayload,
    cipher: SecretCipher,
    now: Timestamp,
)
    requires
        is_changed_endpoint(row, existing, payload, cipher, now),
    ensures
        payload.name matches Some(v) ==> row.name == v,
        payload.name is None ==> row.name == existing.name,
        payload.target_url matches Some(v) ==> row.target_url == v,
        payload.target_url is None ==> row.target_url == existing.target_url,
        payload.api_key matches Some(v) ==> row.api_key == v,
        payload.api_key is None ==> row.api_key == existing.api_key,
        payload.description matches Some(v) ==> row.description == Some(v),
        payload.description is None ==> row.description == existing.description,
        payload.signing_secret matches Some(v) ==> cipher.opened(row.signing_secret@) == Ok::<
            Seq<char>,
            crypto::CryptoError,
        >(v@),
        payload.signing_secret is None ==> row.signing_secret == existing.signing_secret,
        row.id == existing.id && row.owner_key_id == existing.owner_key_id && row.created_at
            == existing.created_at,
        row.updated_at == now,
{
}

} // verus!
