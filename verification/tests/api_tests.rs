//! Who may do what through the API, and what it changes.

use simply_ip_sync::api::audit::{list_audit_logs, AuditAction, AuditLogQuery};
use simply_ip_sync::api::guards::{
    guard_can_sync, guard_can_view_logs, guard_delegated_grant, guard_manage_keys,
    guard_master_immutable, guard_resource_creation, guard_resource_lifecycle, guard_resource_manage,
    guard_revocation, guard_rotation_allowed, guard_scope_elevation,
};
use simply_ip_sync::api::keys::{
    can_administer, can_see, create_api_key, delete_api_key, get_api_key, get_me, grant_key_permission,
    grant_label, list_api_keys, list_key_permissions, owned_resource_inventory, revocation_label,
    revoke_key_permission, rotate_api_key, rotate_signing_secret, update_api_key, CreateApiKeyPayload,
    GrantPermissionPayload, Subtree, UpdateApiKeyPayload,
};
use simply_ip_sync::api::resources::summary_body;
use simply_ip_sync::api::sources::{
    create_external_source, default_mode, default_parser_type, default_true, delete_external_source,
    get_external_source, list_external_sources, load_targets, source_name_taken,
    trigger_external_source, update_external_source, CreateExternalSourcePayload, SourceListing,
    TargetSpec, UpdateExternalSourcePayload,
};
use simply_ip_sync::api::support::{
    create_audit_log, find_permission, generate_random_key, grant_full_permission, hash_key,
    key_prefix, RESOURCE_EXTERNAL_SOURCE, RESOURCE_SYNC_TASK, RESOURCE_VAULT_ENDPOINT,
};
use simply_ip_sync::api::sync_logs::{list_sync_logs, page, resource_type_for};
use simply_ip_sync::api::sync_tasks::{
    create_vault_sync_task, delete_vault_sync_task, get_vault_sync_task, task_name_taken,
    trigger_vault_sync_task, update_vault_sync_task, CreateVaultSyncTaskPayload, TaskListing,
    UpdateVaultSyncTaskPayload,
};
use simply_ip_sync::api::vaults::{
    create_vault_endpoint, delete_vault_endpoint, endpoint_name_taken, get_vault_endpoint,
    list_vault_endpoints, update_vault_endpoint, CreateVaultEndpointPayload, UpdateVaultEndpointPayload,
};
use simply_ip_sync::crypto::SecretCipher;
use simply_ip_sync::entities::{
    api_key, api_key_sync_permission, external_source, sync_log, vault_endpoint, vault_sync_task,
};
use simply_ip_sync::error::AppError;
use simply_ip_sync::jobs::{JobSummary, RunningJobs};
use simply_ip_sync::json::JsonValue;
use simply_ip_sync::net::parse_address;
use simply_ip_sync::time::Timestamp;

const THEN: Timestamp = Timestamp { secs: 1_600_000_000, nanos: 0 };
const NOW: Timestamp = Timestamp { secs: 1_700_000_000, nanos: 0 };

const MASTER: u128 = 1;
const PARENT: u128 = 2;
const DAUGHTER: u128 = 3;
const STRANGER: u128 = 4;

fn key(id: u128) -> api_key::Model {
    api_key::Model {
        id,
        name: format!("key-{id}"),
        key_hash: hash_key("x"),
        signing_secret: None,
        prefix: format!("prefix-{id}"),
        is_master: id == MASTER,
        can_manage_keys: id == MASTER || id == PARENT,
        can_manage_sources: id == MASTER || id == PARENT,
        can_manage_vaults: id == MASTER || id == PARENT,
        parent_key_id: match id {
            DAUGHTER => Some(PARENT),
            MASTER => None,
            _ => Some(MASTER),
        },
        bound_ips: None,
        created_at: THEN,
        updated_at: THEN,
    }
}

fn permission(key: u128, kind: &str, resource: u128, sync: bool, manage: bool, logs: bool) -> api_key_sync_permission::Model {
    api_key_sync_permission::Model {
        id: 77,
        api_key_id: key,
        resource_type: kind.to_owned(),
        resource_id: resource,
        can_sync: sync,
        can_manage: manage,
        can_view_logs: logs,
        created_at: THEN,
    }
}

fn refusal<T: std::fmt::Debug>(r: Result<T, AppError>) -> (u16, String) {
    let (code, body) = r.expect_err("refused").into_response();
    (code, body.get("error").and_then(|m| m.as_str()).expect("a message").to_owned())
}

fn status<T: std::fmt::Debug>(r: Result<T, AppError>) -> u16 {
    refusal(r).0
}

// Guards

#[test]
fn creating_a_resource_takes_the_master_or_the_right() {
    assert!(guard_resource_creation(&key(MASTER), false).is_ok());
    assert!(guard_resource_creation(&key(STRANGER), true).is_ok());
    assert_eq!(status(guard_resource_creation(&key(STRANGER), false)), 403);
}

#[test]
fn only_the_master_grants_global_rights() {
    assert!(guard_scope_elevation(&key(MASTER), true, true, true).is_ok());
    assert!(guard_scope_elevation(&key(PARENT), false, false, false).is_ok());
    for (a, b, c) in [(true, false, false), (false, true, false), (false, false, true)] {
        assert_eq!(status(guard_scope_elevation(&key(PARENT), a, b, c)), 403);
    }
}

#[test]
fn managing_takes_both_the_right_and_the_row() {
    let manage = permission(PARENT, RESOURCE_SYNC_TASK, 9, false, true, false);
    let no_manage = permission(PARENT, RESOURCE_SYNC_TASK, 9, true, false, true);
    assert!(guard_resource_manage(&key(MASTER), None).is_ok());
    assert!(guard_resource_manage(&key(PARENT), Some(&manage)).is_ok());
    assert!(guard_resource_manage(&key(PARENT), Some(&no_manage)).is_err());
    assert!(guard_resource_manage(&key(PARENT), None).is_err());
    assert!(guard_resource_manage(&key(STRANGER), Some(&manage)).is_err());
}

#[test]
fn ending_a_resource_takes_the_master_or_its_owner() {
    assert!(guard_resource_lifecycle(&key(MASTER), Some(STRANGER)).is_ok());
    assert!(guard_resource_lifecycle(&key(STRANGER), Some(STRANGER)).is_ok());
    assert_eq!(status(guard_resource_lifecycle(&key(PARENT), Some(STRANGER))), 403);
    assert_eq!(status(guard_resource_lifecycle(&key(PARENT), None)), 403);
}

#[test]
fn operational_verbs_need_their_row() {
    let sync = permission(STRANGER, RESOURCE_SYNC_TASK, 9, true, false, false);
    let logs = permission(STRANGER, RESOURCE_SYNC_TASK, 9, false, false, true);
    assert!(guard_can_sync(&key(STRANGER), Some(&sync)).is_ok());
    assert_eq!(status(guard_can_sync(&key(STRANGER), Some(&logs))), 403);
    assert_eq!(status(guard_can_sync(&key(STRANGER), None)), 403);
    assert!(guard_can_view_logs(&key(STRANGER), Some(&logs)));
    assert!(!guard_can_view_logs(&key(STRANGER), Some(&sync)));
    assert!(!guard_can_view_logs(&key(STRANGER), None));
    assert!(guard_can_view_logs(&key(MASTER), None));
}

#[test]
fn delegation_never_amplifies() {
    let held = permission(PARENT, RESOURCE_SYNC_TASK, 9, true, true, false);
    assert!(guard_delegated_grant(&key(MASTER), None, true, true, true).is_ok());
    assert!(guard_delegated_grant(&key(PARENT), Some(&held), true, false, false).is_ok());
    assert_eq!(status(guard_delegated_grant(&key(PARENT), Some(&held), true, true, true)), 403);
    assert_eq!(status(guard_delegated_grant(&key(PARENT), None, true, false, false)), 403);
    assert!(guard_revocation(&key(PARENT), Some(&held)).is_ok());
    assert_eq!(status(guard_revocation(&key(PARENT), None)), 403);
}

#[test]
fn the_master_key_is_immutable_but_for_its_networks() {
    assert!(guard_master_immutable(true, false).is_ok());
    assert!(guard_master_immutable(false, true).is_ok());
    assert_eq!(status(guard_master_immutable(true, true)), 403);
    assert!(guard_rotation_allowed(false).is_ok());
    assert_eq!(status(guard_rotation_allowed(true)), 403);
    assert!(guard_manage_keys(&key(PARENT)).is_ok());
    assert_eq!(refusal(guard_manage_keys(&key(STRANGER))), (403, "missing can_manage_keys".to_owned()));
}

// Keys

#[test]
fn keys_are_shown_without_their_credentials() {
    let shown = get_me(key(PARENT));
    assert_eq!((shown.id, shown.name.as_str(), shown.prefix.as_str()), (PARENT, "key-2", "prefix-2"));
    let text = format!("{shown:?}");
    assert!(!text.contains(&hash_key("x")), "{text}");
}

#[test]
fn a_key_sees_itself_and_its_daughters() {
    assert!(can_see(&key(MASTER), &key(STRANGER)));
    assert!(can_see(&key(PARENT), &key(PARENT)));
    assert!(can_see(&key(PARENT), &key(DAUGHTER)));
    assert!(!can_see(&key(PARENT), &key(STRANGER)));
    assert!(!can_see(&key(DAUGHTER), &key(PARENT)));
    assert!(can_administer(&key(PARENT), &key(DAUGHTER)));
    assert!(!can_administer(&key(DAUGHTER), &key(PARENT)));
    let listed = list_api_keys(&key(PARENT), vec![key(MASTER), key(PARENT), key(DAUGHTER), key(STRANGER)]);
    assert_eq!(listed.iter().map(|k| k.id).collect::<Vec<_>>(), vec![PARENT, DAUGHTER]);
    assert!(get_api_key(&key(PARENT), Some(key(DAUGHTER))).is_ok());
    assert_eq!(status(get_api_key(&key(PARENT), Some(key(STRANGER)))), 404);
    assert_eq!(status(get_api_key(&key(PARENT), None)), 404);
}

#[test]
fn permissions_are_listed_for_visible_keys() {
    let rows = || vec![permission(DAUGHTER, RESOURCE_SYNC_TASK, 9, true, false, false)];
    assert_eq!(list_key_permissions(&key(PARENT), Some(&key(DAUGHTER)), rows()).expect("visible").len(), 1);
    assert_eq!(status(list_key_permissions(&key(PARENT), Some(&key(STRANGER)), rows())), 404);
    assert_eq!(status(list_key_permissions(&key(PARENT), None, rows())), 404);
}

fn new_key(manage_keys: bool) -> CreateApiKeyPayload {
    CreateApiKeyPayload {
        name: "fresh".to_owned(),
        can_manage_keys: manage_keys,
        can_manage_sources: false,
        can_manage_vaults: false,
        bound_ips: Some("10.0.0.0/8".to_owned()),
    }
}

#[test]
fn a_created_key_is_a_daughter_and_never_master() {
    let cipher = SecretCipher::Plaintext;
    let created = create_api_key(&key(PARENT), new_key(false), &cipher, 50, NOW).expect("created");
    assert!(!created.row.is_master);
    assert_eq!(created.row.parent_key_id, Some(PARENT));
    assert_eq!(created.row.key_hash, hash_key(&created.plaintext_key));
    assert_eq!(created.row.prefix, key_prefix(&created.plaintext_key));
    assert_eq!(created.plaintext_key.len(), 64);
    let sealed = created.row.signing_secret.expect("a secret");
    assert_eq!(cipher.open(&sealed).expect("opens"), created.plaintext_secret);
    assert_eq!(status(create_api_key(&key(PARENT), new_key(true), &cipher, 50, NOW)), 403);
    assert!(create_api_key(&key(MASTER), new_key(true), &cipher, 50, NOW).expect("created").row.can_manage_keys);
    assert_eq!(status(create_api_key(&key(STRANGER), new_key(false), &cipher, 50, NOW)), 403);
}

fn no_change() -> UpdateApiKeyPayload {
    UpdateApiKeyPayload {
        name: None,
        can_manage_keys: None,
        can_manage_sources: None,
        can_manage_vaults: None,
        bound_ips: None,
    }
}

#[test]
fn keys_change_only_where_asked() {
    let renamed = update_api_key(
        &key(PARENT),
        Some(key(DAUGHTER)),
        UpdateApiKeyPayload { name: Some("new".to_owned()), ..no_change() },
        NOW,
    )
    .expect("changed");
    assert_eq!((renamed.name.as_str(), renamed.updated_at, renamed.created_at), ("new", NOW, THEN));
    let elevated = UpdateApiKeyPayload { can_manage_vaults: Some(true), ..no_change() };
    assert_eq!(status(update_api_key(&key(PARENT), Some(key(DAUGHTER)), elevated, NOW)), 403);
    assert_eq!(status(update_api_key(&key(PARENT), Some(key(STRANGER)), no_change(), NOW)), 403);
    assert_eq!(status(update_api_key(&key(PARENT), None, no_change(), NOW)), 404);
    let networks = UpdateApiKeyPayload { bound_ips: Some("::1".to_owned()), ..no_change() };
    let master = update_api_key(&key(MASTER), Some(key(MASTER)), networks, NOW).expect("networks may change");
    assert_eq!(master.bound_ips.as_deref(), Some("::1"));
    let name = UpdateApiKeyPayload { name: Some("x".to_owned()), ..no_change() };
    assert_eq!(status(update_api_key(&key(MASTER), Some(key(MASTER)), name, NOW)), 403);
}

#[test]
fn rotation_replaces_a_credential() {
    let (row, plaintext) = rotate_api_key(&key(PARENT), Some(key(DAUGHTER)), NOW).expect("rotated");
    assert_eq!(row.key_hash, hash_key(&plaintext));
    assert_eq!(row.prefix, key_prefix(&plaintext));
    let cipher = SecretCipher::from_hex_key(&"ab".repeat(32)).expect("a key");
    let (row, secret) = rotate_signing_secret(&key(PARENT), Some(key(DAUGHTER)), &cipher, NOW).expect("rotated");
    assert_eq!(cipher.open(&row.signing_secret.expect("sealed")).expect("opens"), secret);
    assert_eq!(status(rotate_api_key(&key(MASTER), Some(key(MASTER)), NOW)), 403);
    assert_eq!(status(rotate_signing_secret(&key(MASTER), Some(key(MASTER)), &cipher, NOW)), 403);
    assert_eq!(status(rotate_api_key(&key(PARENT), None, NOW)), 404);
}

#[test]
fn a_subtree_is_walked_generation_by_generation() {
    let mut tree = Subtree::new(PARENT);
    assert_eq!(tree.frontier(), &vec![PARENT]);
    tree.take_children(vec![DAUGHTER, 30]);
    assert_eq!(tree.frontier(), &vec![DAUGHTER, 30]);
    tree.take_children(vec![40]);
    assert_eq!(tree.frontier(), &vec![40]);
    tree.take_children(vec![]);
    assert!(tree.frontier().is_empty());
    assert_eq!(tree.into_ids(), vec![PARENT, DAUGHTER, 30, 40]);
}

#[test]
fn a_key_that_owns_something_is_not_deleted() {
    let deleted = delete_api_key(&key(PARENT), Some(&key(DAUGHTER)), vec![DAUGHTER, 40], &vec![endpoint(9, None)], &vec![], &vec![task(Some(PARENT))]);
    assert_eq!(deleted.expect("owns nothing"), vec![DAUGHTER, 40]);
    let of_daughters_daughter = delete_api_key(&key(PARENT), Some(&key(DAUGHTER)), vec![DAUGHTER, 40], &vec![], &vec![source(Some(40))], &vec![]);
    assert_eq!(status(of_daughters_daughter), 409);
    let owned = owned_resource_inventory(&vec![DAUGHTER], &vec![endpoint(8, Some(DAUGHTER)), endpoint(9, None)], &vec![], &vec![task(Some(PARENT))]);
    assert_eq!(owned.len(), 1);
    let (code, body) = delete_api_key(&key(PARENT), Some(&key(DAUGHTER)), vec![DAUGHTER], &vec![endpoint(8, Some(DAUGHTER))], &vec![], &vec![]).expect_err("owns").into_response();
    assert_eq!(code, 409);
    match body.get("owned_resources") {
        Some(JsonValue::Array(items)) => {
            assert_eq!(items[0].get("type").and_then(|t| t.as_str()), Some("vault_endpoint"));
            assert_eq!(items[0].get("name").and_then(|n| n.as_str()), Some("vault-8"));
        }
        other => panic!("{other:?}"),
    }
    assert_eq!(status(delete_api_key(&key(PARENT), Some(&key(STRANGER)), vec![STRANGER], &vec![], &vec![], &vec![])), 403);
    assert_eq!(status(delete_api_key(&key(MASTER), Some(&key(MASTER)), vec![MASTER], &vec![], &vec![], &vec![])), 403);
    assert_eq!(status(delete_api_key(&key(MASTER), None, vec![], &vec![], &vec![], &vec![])), 404);
}

fn grant(kind: &str, sync: bool, manage: bool, logs: bool) -> GrantPermissionPayload {
    GrantPermissionPayload {
        resource_type: kind.to_owned(),
        resource_id: 9,
        can_sync: sync,
        can_manage: manage,
        can_view_logs: logs,
    }
}

#[test]
fn grants_create_or_replace_a_row() {
    let held = permission(PARENT, RESOURCE_SYNC_TASK, 9, true, true, true);
    let created = grant_key_permission(&key(PARENT), Some(&key(DAUGHTER)), Some(&held), None, grant(RESOURCE_SYNC_TASK, true, false, false), 60, NOW)
        .expect("granted");
    assert_eq!((created.id, created.api_key_id, created.can_sync, created.can_manage), (60, DAUGHTER, true, false));
    let before = permission(DAUGHTER, RESOURCE_SYNC_TASK, 9, false, false, true);
    let replaced = grant_key_permission(&key(PARENT), Some(&key(DAUGHTER)), Some(&held), Some(before), grant(RESOURCE_SYNC_TASK, true, true, false), 60, NOW)
        .expect("granted");
    assert_eq!((replaced.id, replaced.can_sync, replaced.can_manage, replaced.can_view_logs), (77, true, true, false));
    assert_eq!(status(grant_key_permission(&key(PARENT), Some(&key(DAUGHTER)), Some(&held), None, grant("planet", true, false, false), 60, NOW)), 400);
    assert_eq!(status(grant_key_permission(&key(PARENT), None, Some(&held), None, grant(RESOURCE_SYNC_TASK, true, false, false), 60, NOW)), 404);
    assert_eq!(status(grant_key_permission(&key(PARENT), Some(&key(DAUGHTER)), None, None, grant(RESOURCE_SYNC_TASK, true, false, false), 60, NOW)), 403);
    assert!(grant_label("d", RESOURCE_SYNC_TASK, 9).contains("00000000-0000-0000-0000-000000000009"));
    assert_eq!(revocation_label(1), "permission 00000000-0000-0000-0000-000000000001");
}

#[test]
fn revocation_needs_the_same_authority() {
    let held = permission(PARENT, RESOURCE_SYNC_TASK, 9, false, true, false);
    let row = permission(DAUGHTER, RESOURCE_SYNC_TASK, 9, true, false, false);
    assert!(revoke_key_permission(&key(PARENT), DAUGHTER, Some(&row), Some(&held)).is_ok());
    assert_eq!(status(revoke_key_permission(&key(PARENT), STRANGER, Some(&row), Some(&held))), 404);
    assert_eq!(status(revoke_key_permission(&key(PARENT), DAUGHTER, None, Some(&held))), 404);
    assert_eq!(status(revoke_key_permission(&key(PARENT), DAUGHTER, Some(&row), None)), 403);
    assert_eq!(status(revoke_key_permission(&key(STRANGER), DAUGHTER, Some(&row), Some(&held))), 403);
}

// Vault endpoints

fn endpoint(id: u128, owner: Option<u128>) -> vault_endpoint::Model {
    vault_endpoint::Model {
        id,
        name: format!("vault-{id}"),
        target_url: "https://vault.example".to_owned(),
        api_key: "remote".to_owned(),
        signing_secret: "v1.plain.00".to_owned(),
        description: None,
        owner_key_id: owner,
        created_at: THEN,
        updated_at: THEN,
    }
}

#[test]
fn endpoints_are_created_with_a_sealed_secret_and_full_rights() {
    let cipher = SecretCipher::from_hex_key(&"ab".repeat(32)).expect("a key");
    let payload = || CreateVaultEndpointPayload {
        name: "north".to_owned(),
        target_url: "https://north.example".to_owned(),
        api_key: "remote".to_owned(),
        signing_secret: "shared".to_owned(),
        description: Some("site".to_owned()),
    };
    let created = create_vault_endpoint(&key(PARENT), payload(), &cipher, 8, 70, NOW).expect("created");
    assert_eq!(created.row.owner_key_id, Some(PARENT));
    assert_ne!(created.row.signing_secret, "shared");
    assert_eq!(cipher.open(&created.row.signing_secret).expect("opens"), "shared");
    assert_eq!((created.permission.api_key_id, created.permission.resource_id), (PARENT, 8));
    assert_eq!(created.permission.resource_type, RESOURCE_VAULT_ENDPOINT);
    assert!(created.permission.can_sync && created.permission.can_manage && created.permission.can_view_logs);
    assert_eq!(status(create_vault_endpoint(&key(STRANGER), payload(), &cipher, 8, 70, NOW)), 403);
    assert_eq!(refusal(Err::<(), AppError>(endpoint_name_taken("north"))).1, "a vault endpoint named 'north' already exists");
}

#[test]
fn endpoints_are_visible_to_master_owner_and_permitted_keys() {
    let rows = || vec![(endpoint(8, Some(STRANGER)), false), (endpoint(9, None), true), (endpoint(10, None), false)];
    let ids = |k: u128| list_vault_endpoints(&key(k), rows()).iter().map(|e| e.id).collect::<Vec<_>>();
    assert_eq!(ids(MASTER), vec![8, 9, 10]);
    assert_eq!(ids(STRANGER), vec![8, 9]);
    assert!(get_vault_endpoint(&key(STRANGER), Some(endpoint(8, Some(STRANGER))), false).is_ok());
    assert_eq!(status(get_vault_endpoint(&key(PARENT), Some(endpoint(8, Some(STRANGER))), false)), 404);
    assert_eq!(status(get_vault_endpoint(&key(MASTER), None, false)), 404);
}

fn endpoint_change(name: Option<&str>, secret: Option<&str>) -> UpdateVaultEndpointPayload {
    UpdateVaultEndpointPayload {
        name: name.map(str::to_owned),
        target_url: None,
        api_key: None,
        signing_secret: secret.map(str::to_owned),
        description: None,
    }
}

#[test]
fn a_manager_changes_an_endpoint_but_does_not_rename_it() {
    let cipher = SecretCipher::Plaintext;
    let held = permission(PARENT, RESOURCE_VAULT_ENDPOINT, 8, false, true, false);
    let changed = update_vault_endpoint(&key(PARENT), Some(endpoint(8, Some(STRANGER))), Some(&held), endpoint_change(Some("vault-8"), Some("new")), &cipher, NOW)
        .expect("the name stays");
    assert_eq!(cipher.open(&changed.signing_secret).expect("opens"), "new");
    assert_eq!((changed.api_key.as_str(), changed.updated_at), ("remote", NOW));
    let renamed = update_vault_endpoint(&key(PARENT), Some(endpoint(8, Some(STRANGER))), Some(&held), endpoint_change(Some("other"), None), &cipher, NOW);
    assert_eq!(status(renamed), 403);
    let owner = update_vault_endpoint(&key(PARENT), Some(endpoint(8, Some(PARENT))), Some(&held), endpoint_change(Some("other"), None), &cipher, NOW);
    assert_eq!(owner.expect("the owner may").name, "other");
    assert_eq!(status(update_vault_endpoint(&key(PARENT), Some(endpoint(8, None)), None, endpoint_change(None, None), &cipher, NOW)), 403);
    assert_eq!(status(update_vault_endpoint(&key(PARENT), None, None, endpoint_change(None, None), &cipher, NOW)), 404);
    assert_eq!(delete_vault_endpoint(&key(STRANGER), Some(endpoint(8, Some(STRANGER)))).expect("the owner may"), "vault-8");
    assert_eq!(status(delete_vault_endpoint(&key(PARENT), Some(endpoint(8, Some(STRANGER))))), 403);
    assert_eq!(status(delete_vault_endpoint(&key(MASTER), None)), 404);
}

// External sources

fn source(owner: Option<u128>) -> external_source::Model {
    external_source::Model {
        id: 5,
        name: "feed".to_owned(),
        source_url: "https://feed.example".to_owned(),
        parser_type: "REGEX_LINE".to_owned(),
        parser_config_json: None,
        cron_schedule: "0 0 * * *".to_owned(),
        target_group_name: "g".to_owned(),
        mode: "upsert".to_owned(),
        is_active: true,
        last_run_at: Some(THEN),
        owner_key_id: owner,
        created_at: THEN,
        updated_at: THEN,
    }
}

fn new_source(parser_type: &str, mode: &str, cron: &str) -> CreateExternalSourcePayload {
    CreateExternalSourcePayload {
        name: "feed".to_owned(),
        source_url: "https://feed.example".to_owned(),
        parser_type: parser_type.to_owned(),
        parser_config_json: None,
        cron_schedule: cron.to_owned(),
        target_group_name: "g".to_owned(),
        mode: mode.to_owned(),
        is_active: true,
        targets: vec![TargetSpec { vault_endpoint_id: 8, target_group_name: Some("own".to_owned()) }],
    }
}

#[test]
fn sources_are_created_valid_or_not_at_all() {
    let created = create_external_source(&key(PARENT), new_source("JSON_PATH", "full_replace", "*/5 * * * *"), 5, 70, NOW).expect("created");
    assert_eq!((created.row.id, created.row.owner_key_id, created.row.last_run_at), (5, Some(PARENT), None));
    assert_eq!(created.permission.resource_type, RESOURCE_EXTERNAL_SOURCE);
    assert_eq!((created.target_rows[0].external_source_id, created.target_rows[0].vault_endpoint_id), (5, 8));
    let read_back = load_targets(created.target_rows);
    assert_eq!((read_back[0].vault_endpoint_id, read_back[0].target_group_name.as_deref()), (8, Some("own")));
    let refused = |p: CreateExternalSourcePayload| refusal(create_external_source(&key(PARENT), p, 5, 70, NOW));
    assert_eq!(refused(new_source("XML", "upsert", "0 0 * * *")), (400, "parser_type must be REGEX_LINE or JSON_PATH".to_owned()));
    assert_eq!(refused(new_source("REGEX_LINE", "merge", "0 0 * * *")), (400, "mode must be upsert or full_replace".to_owned()));
    assert_eq!(refused(new_source("REGEX_LINE", "upsert", " ")), (400, "invalid cron_schedule: cron_schedule must not be empty".to_owned()));
    assert_eq!(status(create_external_source(&key(STRANGER), new_source("XML", "upsert", ""), 5, 70, NOW)), 403);
    assert_eq!(refusal(Err::<(), AppError>(source_name_taken("feed"))).1, "an external source named 'feed' already exists");
    assert_eq!((default_parser_type().as_str(), default_mode().as_str(), default_true()), ("REGEX_LINE", "upsert", true));
}

fn source_change() -> UpdateExternalSourcePayload {
    UpdateExternalSourcePayload {
        name: None,
        source_url: None,
        parser_type: None,
        parser_config_json: None,
        cron_schedule: None,
        target_group_name: None,
        mode: None,
        is_active: None,
        targets: None,
    }
}

#[test]
fn sources_change_only_where_asked() {
    let held = permission(PARENT, RESOURCE_EXTERNAL_SOURCE, 5, false, true, false);
    let update = |p: UpdateExternalSourcePayload| update_external_source(&key(PARENT), Some(source(Some(STRANGER))), Some(&held), p, NOW);
    let changed = update(UpdateExternalSourcePayload { is_active: Some(false), targets: Some(vec![]), ..source_change() }).expect("changed");
    assert!(!changed.row.is_active);
    assert_eq!((changed.row.last_run_at, changed.row.updated_at, changed.row.name.as_str()), (Some(THEN), NOW, "feed"));
    assert_eq!(changed.target_rows.map(|t| t.len()), Some(0));
    let kept = update(UpdateExternalSourcePayload { parser_config_json: Some("{}".to_owned()), ..source_change() }).expect("changed");
    assert_eq!(kept.row.parser_config_json.as_deref(), Some("{}"));
    assert!(kept.target_rows.is_none());
    assert_eq!(status(update(UpdateExternalSourcePayload { name: Some("x".to_owned()), ..source_change() })), 403);
    assert_eq!(status(update(UpdateExternalSourcePayload { parser_type: Some("XML".to_owned()), ..source_change() })), 400);
    assert_eq!(status(update(UpdateExternalSourcePayload { cron_schedule: Some("never".to_owned()), ..source_change() })), 400);
    assert_eq!(status(update(UpdateExternalSourcePayload { mode: Some("merge".to_owned()), ..source_change() })), 400);
    assert_eq!(status(update_external_source(&key(PARENT), None, Some(&held), source_change(), NOW)), 404);
    assert_eq!(status(update_external_source(&key(PARENT), Some(source(None)), None, source_change(), NOW)), 403);
}

#[test]
fn sources_are_visible_and_end_like_every_resource() {
    let listing = |owner: Option<u128>, has_permission: bool| SourceListing { source: source(owner), has_permission, targets: vec![] };
    assert_eq!(list_external_sources(&key(STRANGER), vec![listing(Some(STRANGER), false), listing(None, false), listing(None, true)]).len(), 2);
    assert!(get_external_source(&key(STRANGER), Some(listing(None, true))).is_ok());
    assert_eq!(status(get_external_source(&key(STRANGER), Some(listing(None, false)))), 404);
    assert_eq!(delete_external_source(&key(STRANGER), Some(source(Some(STRANGER)))).expect("the owner may"), "feed");
    assert_eq!(status(delete_external_source(&key(PARENT), Some(source(Some(STRANGER))))), 403);
    assert_eq!(status(delete_external_source(&key(PARENT), None)), 404);
}

#[test]
fn a_source_runs_once_at_a_time_on_demand() {
    let mut jobs = RunningJobs::new();
    let held = permission(STRANGER, RESOURCE_EXTERNAL_SOURCE, 5, true, false, false);
    assert_eq!(status(trigger_external_source(&key(STRANGER), Some(&source(None)), None, &mut jobs)), 403);
    let guard = trigger_external_source(&key(STRANGER), Some(&source(None)), Some(&held), &mut jobs).expect("started");
    assert_eq!(
        refusal(trigger_external_source(&key(MASTER), Some(&source(None)), None, &mut jobs)),
        (409, "a sync for this source is already in progress".to_owned())
    );
    jobs.release(guard);
    assert!(trigger_external_source(&key(MASTER), Some(&source(None)), None, &mut jobs).is_ok());
    assert_eq!(status(trigger_external_source(&key(MASTER), None, None, &mut jobs)), 404);
}

// Sync tasks

fn task(owner: Option<u128>) -> vault_sync_task::Model {
    vault_sync_task::Model {
        id: 9,
        name: "mirror".to_owned(),
        source_vault_id: 8,
        source_group_name: "from".to_owned(),
        target_group_name: "to".to_owned(),
        cron_schedule: "0 0 * * *".to_owned(),
        last_sync_at: Some(THEN),
        mode: "upsert".to_owned(),
        is_active: true,
        owner_key_id: owner,
        created_at: THEN,
        updated_at: THEN,
    }
}

fn new_task(cron: &str) -> CreateVaultSyncTaskPayload {
    CreateVaultSyncTaskPayload {
        name: "mirror".to_owned(),
        source_vault_id: 8,
        source_group_name: "from".to_owned(),
        target_group_name: "to".to_owned(),
        cron_schedule: cron.to_owned(),
        is_active: false,
        targets: vec![TargetSpec { vault_endpoint_id: 10, target_group_name: None }],
    }
}

#[test]
fn tasks_always_upsert() {
    let created = create_vault_sync_task(&key(PARENT), new_task("0 3 * * 1"), 9, 70, NOW).expect("created");
    assert_eq!((created.row.mode.as_str(), created.row.last_sync_at, created.row.is_active), ("upsert", None, false));
    assert_eq!((created.target_rows[0].vault_sync_task_id, created.target_rows[0].target_vault_id), (9, 10));
    assert_eq!(created.permission.resource_type, RESOURCE_SYNC_TASK);
    assert_eq!(status(create_vault_sync_task(&key(PARENT), new_task("99 99 99 * *"), 9, 70, NOW)), 400);
    assert_eq!(status(create_vault_sync_task(&key(STRANGER), new_task("0 3 * * 1"), 9, 70, NOW)), 403);
    assert_eq!(refusal(Err::<(), AppError>(task_name_taken("m"))).1, "a sync task named 'm' already exists");
}

#[test]
fn tasks_change_end_and_run_like_every_resource() {
    let held = permission(PARENT, RESOURCE_SYNC_TASK, 9, true, true, false);
    let change = |name: Option<&str>, cron: Option<&str>| UpdateVaultSyncTaskPayload {
        name: name.map(str::to_owned),
        source_vault_id: Some(11),
        source_group_name: None,
        target_group_name: None,
        cron_schedule: cron.map(str::to_owned),
        is_active: None,
        targets: Some(vec![TargetSpec { vault_endpoint_id: 12, target_group_name: None }]),
    };
    let changed = update_vault_sync_task(&key(PARENT), Some(task(None)), Some(&held), change(None, Some("0 1 * * *")), NOW).expect("changed");
    assert_eq!((changed.row.source_vault_id, changed.row.cron_schedule.as_str(), changed.row.last_sync_at), (11, "0 1 * * *", Some(THEN)));
    assert_eq!(changed.target_rows.map(|t| t[0].target_vault_id), Some(12));
    assert_eq!(status(update_vault_sync_task(&key(PARENT), Some(task(None)), Some(&held), change(Some("x"), None), NOW)), 403);
    assert_eq!(status(update_vault_sync_task(&key(PARENT), Some(task(None)), Some(&held), change(None, Some("x")), NOW)), 400);
    assert_eq!(status(update_vault_sync_task(&key(PARENT), None, Some(&held), change(None, None), NOW)), 404);
    assert_eq!(delete_vault_sync_task(&key(PARENT), Some(task(Some(PARENT)))).expect("the owner may"), "mirror");
    assert_eq!(status(delete_vault_sync_task(&key(PARENT), Some(task(None)))), 403);
    let shown = get_vault_sync_task(&key(PARENT), Some(TaskListing { task: task(None), has_permission: true, targets: vec![] })).expect("visible");
    assert_eq!(shown.source_group_name, "from");
    let mut jobs = RunningJobs::new();
    let guard = trigger_vault_sync_task(&key(PARENT), Some(&task(None)), Some(&held), &mut jobs).expect("started");
    assert_eq!(refusal(trigger_vault_sync_task(&key(PARENT), Some(&task(None)), Some(&held), &mut jobs)).1, format!("a sync for this {} is already in progress", "task"));
    jobs.release(guard);
    assert_eq!(status(trigger_vault_sync_task(&key(PARENT), None, Some(&held), &mut jobs)), 404);
}

#[test]
fn a_run_on_demand_answers_with_its_summary() {
    let body = summary_body(JobSummary::failed("no feed".to_owned(), 12));
    assert_eq!(body.get("status").and_then(|s| s.as_str()), Some("FAILED"));
    assert_eq!(body.get("error_message").and_then(|s| s.as_str()), Some("no feed"));
    assert!(matches!(body.get("duration_ms"), Some(JsonValue::Number(n)) if n == "12"));
    let mut clean = JobSummary::failed(String::new(), 0);
    clean.error_message = None;
    clean.items_processed = -1;
    let body = summary_body(clean);
    assert!(matches!(body.get("error_message"), Some(JsonValue::Null)));
    assert!(matches!(body.get("items_processed"), Some(JsonValue::Number(n)) if n == "-1"));
}

// The history and the audit trail

fn log(job_type: &str, job_id: u128) -> sync_log::Model {
    sync_log::Model {
        id: job_id,
        job_type: job_type.to_owned(),
        job_id,
        job_name: "job".to_owned(),
        status: "SUCCESS".to_owned(),
        items_processed: 0,
        chunks_sent: 0,
        duration_ms: 0,
        error_message: None,
        timestamp: THEN,
    }
}

#[test]
fn the_history_is_scoped_by_permission() {
    let rows = || vec![log("EXTERNAL_FEED", 5), log("VAULT_SYNC", 9), log("EXTERNAL_FEED", 6), log("OTHER", 5)];
    let permissions = vec![
        permission(STRANGER, RESOURCE_EXTERNAL_SOURCE, 5, false, false, true),
        permission(STRANGER, RESOURCE_SYNC_TASK, 9, true, true, false),
        permission(PARENT, RESOURCE_EXTERNAL_SOURCE, 6, false, false, true),
    ];
    let seen = |k: u128| list_sync_logs(&key(k), &permissions, rows()).iter().map(|r| r.job_id).collect::<Vec<_>>();
    assert_eq!(seen(STRANGER), vec![5]);
    assert_eq!(seen(PARENT), vec![6]);
    assert_eq!(seen(MASTER), vec![5, 9, 6, 5]);
    assert_eq!(seen(DAUGHTER), Vec::<u128>::new());
    assert_eq!(resource_type_for("EXTERNAL_FEED"), Some("external_source"));
    assert_eq!(resource_type_for("VAULT_SYNC"), Some("sync_task"));
    assert_eq!(resource_type_for("OTHER"), None);
}

#[test]
fn pages_are_bounded() {
    assert_eq!(page(None, None), (100, 0));
    assert_eq!(page(Some(1_000), Some(7)), (1_000, 7));
    assert_eq!(page(Some(1_001), None), (1_000, 0));
    assert_eq!(page(Some(0), None), (0, 0));
}

#[test]
fn the_audit_trail_is_for_the_master_only() {
    let query = AuditLogQuery { action: None, limit: Some(5_000), offset: Some(3) };
    assert_eq!(list_audit_logs(&key(MASTER), &query).expect("the Master may"), (1_000, 3));
    assert_eq!(refusal(list_audit_logs(&key(PARENT), &query)), (403, "audit logs are visible to the Master key only".to_owned()));
}

#[test]
fn audit_rows_are_attributed() {
    let client = parse_address("2001:DB8::1").expect("an address");
    let row = create_audit_log(90, &key(PARENT), client, AuditAction::SourceCreate.as_str(), Some("feed".to_owned()), None, NOW);
    assert_eq!((row.id, row.api_key_id, row.timestamp), (90, Some(PARENT), NOW));
    assert_eq!((row.api_key_name.as_str(), row.api_key_prefix.as_str(), row.client_ip.as_str()), ("key-2", "prefix-2", "2001:db8::1"));
    assert_eq!((row.action.as_str(), row.target_resource.as_deref()), ("SOURCE_CREATE", Some("feed")));
    assert_eq!(AuditAction::KeyRotateSecret.as_str(), "KEY_ROTATE_SECRET");
}

#[test]
fn permissions_are_found_by_key_and_resource() {
    let rows = vec![
        permission(PARENT, RESOURCE_SYNC_TASK, 9, true, false, false),
        permission(PARENT, RESOURCE_EXTERNAL_SOURCE, 9, false, true, false),
    ];
    assert!(find_permission(&rows, PARENT, RESOURCE_EXTERNAL_SOURCE, 9).expect("found").can_manage);
    assert!(find_permission(&rows, PARENT, RESOURCE_EXTERNAL_SOURCE, 8).is_none());
    assert!(find_permission(&rows, STRANGER, RESOURCE_SYNC_TASK, 9).is_none());
    let full = grant_full_permission(1, PARENT, RESOURCE_SYNC_TASK, 9, NOW);
    assert!(full.can_sync && full.can_manage && full.can_view_logs);
}

#[test]
fn random_keys_are_64_hex_characters() {
    let a = generate_random_key();
    assert_eq!(a.len(), 64);
    assert!(a.chars().all(|c| c.is_ascii_hexdigit()));
    assert_ne!(a, generate_random_key());
    assert_eq!(key_prefix("0123456789"), "01234567");
    assert_eq!(key_prefix("abc"), "abc");
}
