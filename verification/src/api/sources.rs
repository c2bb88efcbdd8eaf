//! External sources: the feeds that are fetched, parsed and pushed to vaults.

use vstd::prelude::*;

use crate::api::guards;
use crate::api::guards::{guard_resource_creation, guard_resource_lifecycle};
use crate::api::resources;
use crate::api::resources::{check_change, check_cron, is_rename, start_run, visible_to};
use crate::api::support;
use crate::api::support::{
    grant_full_permission, or_keep, or_keep_optional, RESOURCE_EXTERNAL_SOURCE,
};
use crate::client::BatchMode;
use crate::entities::{
    api_key, api_key_sync_permission, external_source, external_source_vault_target,
};
use crate::error::{AppError, AppFault};
use crate::jobs::{JobGuard, RunningJobs};
use crate::scheduler;
use crate::text;
use crate::time::Timestamp;

verus! {

/// One target vault of a source or a task.
#[derive(Debug)]
pub struct TargetSpec {
    /// Target vault endpoint id.
    pub vault_endpoint_id: u128,
    /// Group name for this target, in place of the default group name.
    pub target_group_name: Option<String>,
}

/// A source with its targets, as the API shows it.
#[derive(Debug)]
pub struct ExternalSourceResponse {
    /// Source id.
    pub id: u128,
    /// Human-readable name.
    pub name: String,
    /// Feed URL.
    pub source_url: String,
    /// Parser algorithm.
    pub parser_type: String,
    /// Parser configuration, if any.
    pub parser_config_json: Option<String>,
    /// Cron expression for periodic execution.
    pub cron_schedule: String,
    /// Default target group name.
    pub target_group_name: String,
    /// Ingestion mode.
    pub mode: String,
    /// Whether automatic scheduling is enabled.
    pub is_active: bool,
    /// Timestamp of the last execution.
    pub last_run_at: Option<Timestamp>,
    /// Key holding lifecycle authority over this source.
    pub owner_key_id: Option<u128>,
    /// Configured target vaults.
    pub targets: Vec<TargetSpec>,
    /// Creation timestamp.
    pub created_at: Timestamp,
    /// Last update timestamp.
    pub updated_at: Timestamp,
}

/// The target of a target row.
pub open spec fn row_target(row: external_source_vault_target::Model) -> TargetSpec {
    TargetSpec {
        vault_endpoint_id: row.vault_endpoint_id,
        target_group_name: row.target_group_name,
    }
}

/// The targets of a source, from its target rows.
pub fn load_targets(rows: Vec<external_source_vault_target::Model>) -> (r: Vec<TargetSpec>)
    ensures
        r@ == rows@.map_values(|row: external_source_vault_target::Model| row_target(row)),
{
    let ghost all = rows@;
    let mut r: Vec<TargetSpec> = Vec::new();
    for row in it: rows
        invariant
            it.seq() == all,
            r@ == all.take(it.index()).map_values(
                |row: external_source_vault_target::Model| row_target(row),
            ),
    {
        r.push(
            TargetSpec {
                vault_endpoint_id: row.vault_endpoint_id,
                target_group_name: row.target_group_name,
            },
        );
    }
    assert(all.take(all.len() as int) =~= all);
    r
}

/// The target row of a target.
pub open spec fn target_row(source_id: u128, target: TargetSpec) -> external_source_vault_target::Model {
    external_source_vault_target::Model {
        external_source_id: source_id,
        vault_endpoint_id: target.vault_endpoint_id,
        target_group_name: target.target_group_name,
    }
}

/// The target rows of a source.
pub fn target_rows(source_id: u128, targets: &Vec<TargetSpec>) -> (r: Vec<
    external_source_vault_target::Model,
>)
    ensures
        r@ == targets@.map_values(|target: TargetSpec| target_row(source_id, target)),
{
    let mut r: Vec<external_source_vault_target::Model> = Vec::new();
    for target in it: targets.iter()
        invariant
            it.seq().len() == targets@.len(),
            forall|k: int| 0 <= k < targets@.len() ==> *it.seq()[k] == targets@[k],
            r@ == targets@.take(it.index()).map_values(
                |target: TargetSpec| target_row(source_id, target),
            ),
    {
        let target_group_name = match &target.target_group_name {
            Some(name) => Some(name.clone()),
            None => None,
        };
        r.push(
            external_source_vault_target::Model {
                external_source_id: source_id,
                vault_endpoint_id: target.vault_endpoint_id,
                target_group_name,
            },
        );
    }
    assert(targets@.take(targets@.len() as int) =~= targets@);
    r
}

/// The targets that are stored are the targets that are read back.
pub proof fn law_stored_targets_are_read_back(source_id: u128, targets: Seq<TargetSpec>)
    ensures
        targets.map_values(|target: TargetSpec| target_row(source_id, target)).map_values(
            |row: external_source_vault_target::Model| row_target(row),
        ) == targets,
{
    assert(targets.map_values(|target: TargetSpec| target_row(source_id, target)).map_values(
        |row: external_source_vault_target::Model| row_target(row),
    ) =~= targets);
}

/// A source as the API shows it.
pub open spec fn shown_source(
    m: external_source::Model,
    targets: Vec<TargetSpec>,
) -> ExternalSourceResponse {
    ExternalSourceResponse {
        id: m.id,
        name: m.name,
        source_url: m.source_url,
        parser_type: m.parser_type,
        parser_config_json: m.parser_config_json,
        cron_schedule: m.cron_schedule,
        target_group_name: m.target_group_name,
        mode: m.mode,
        is_active: m.is_active,
        last_run_at: m.last_run_at,
        owner_key_id: m.owner_key_id,
        targets,
        created_at: m.created_at,
        updated_at: m.updated_at,
    }
}

/// A source as the API shows it.
pub fn to_response(m: external_source::Model, targets: Vec<TargetSpec>) -> (r:
    ExternalSourceResponse)
    ensures
        r == shown_source(m, targets),
{
    ExternalSourceResponse {
        id: m.id,
        name: m.name,
        source_url: m.source_url,
        parser_type: m.parser_type,
        parser_config_json: m.parser_config_json,
        cron_schedule: m.cron_schedule,
        target_group_name: m.target_group_name,
        mode: m.mode,
        is_active: m.is_active,
        last_run_at: m.last_run_at,
        owner_key_id: m.owner_key_id,
        targets,
        created_at: m.created_at,
        updated_at: m.updated_at,
    }
}

/// A source, whether the caller holds a permission row on it, and its targets.
#[derive(Debug)]
pub struct SourceListing {
    /// The source.
    pub source: external_source::Model,
    /// Whether the caller holds a permission row on it.
    pub has_permission: bool,
    /// Its targets.
    pub targets: Vec<TargetSpec>,
}

/// The sources that are visible to the caller, in order.
pub fn list_external_sources(caller: &api_key::Model, sources: Vec<SourceListing>) -> (r: Vec<
    ExternalSourceResponse,
>)
    ensures
        r@ == sources@.filter(
            |s: SourceListing|
                resources::is_visible(*caller, s.source.owner_key_id, s.has_permission),
        ).map_values(|s: SourceListing| shown_source(s.source, s.targets)),
{
    let ghost all = sources@;
    let ghost visible = |s: SourceListing|
        resources::is_visible(*caller, s.source.owner_key_id, s.has_permission);
    let ghost shown = |s: SourceListing| shown_source(s.source, s.targets);
    let mut r: Vec<ExternalSourceResponse> = Vec::new();
    proof {
        reveal(Seq::filter);
        assert(r@ =~= all.take(0).filter(visible).map_values(shown));
    }
    for listing in it: sources
        invariant
            it.seq() == all,
            visible == (|s: SourceListing|
                resources::is_visible(*caller, s.source.owner_key_id, s.has_permission)),
            shown == (|s: SourceListing| shown_source(s.source, s.targets)),
            r@ == all.take(it.index()).filter(visible).map_values(shown),
    {
        let ghost i = it.index();
        proof {
            reveal(Seq::filter);
            assert(all.take(i + 1).drop_last() =~= all.take(i));
            assert(all.take(i + 1).last() == listing);
        }
        let ghost before = all.take(i).filter(visible);
        if visible_to(caller, listing.source.owner_key_id, listing.has_permission) {
            let ghost s = listing;
            r.push(to_response(listing.source, listing.targets));
            assert(before.push(s).map_values(shown) =~= before.map_values(shown).push(
                shown_source(s.source, s.targets),
            ));
        }
    }
    assert(all.take(all.len() as int) =~= all);
    r
}

/// One source, if it is visible to the caller. A source that is not visible is answered like one
/// that does not exist.
pub fn get_external_source(caller: &api_key::Model, source: Option<SourceListing>) -> (r: Result<
    ExternalSourceResponse,
    AppError,
>)
    ensures
        match source {
            Some(s) if resources::is_visible(
                *caller,
                s.source.owner_key_id,
                s.has_permission,
            ) => r == Ok::<ExternalSourceResponse, AppError>(shown_source(s.source, s.targets)),
            _ => r is Err && r->Err_0@ == AppFault::NotFound,
        },
{
    match source {
        Some(s) => if visible_to(caller, s.source.owner_key_id, s.has_permission) {
            Ok(to_response(s.source, s.targets))
        } else {
            Err(AppError::NotFound)
        },
        None => Err(AppError::NotFound),
    }
}

/// What a new source is asked to be.
#[derive(Debug)]
pub struct CreateExternalSourcePayload {
    /// Human-readable name. Must be unique.
    pub name: String,
    /// Feed URL.
    pub source_url: String,
    /// Parser algorithm: `"REGEX_LINE"` or `"JSON_PATH"`.
    pub parser_type: String,
    /// Parser configuration.
    pub parser_config_json: Option<String>,
    /// Cron expression for periodic execution.
    pub cron_schedule: String,
    /// Default target group name.
    pub target_group_name: String,
    /// Ingestion mode: `"upsert"`, which never implicitly deletes, or `"full_replace"`, by which the
    /// first chunk of a run clears whatever the run did not fetch.
    pub mode: String,
    /// Whether automatic scheduling is enabled.
    pub is_active: bool,
    /// Target vaults to push parsed records to.
    pub targets: Vec<TargetSpec>,
}

/// The parser type where a payload names none.
pub fn default_parser_type() -> (s: String)
    ensures
        s@ == "REGEX_LINE"@,
{
    "REGEX_LINE".to_owned()
}

/// The mode where a payload names none.
pub fn default_mode() -> (s: String)
    ensures
        s@ == BatchMode::Upsert.text(),
{
    "upsert".to_owned()
}

/// Whether scheduling is enabled where a payload does not say.
pub fn default_true() -> (b: bool)
    ensures
        b,
{
    true
}

/// What a source is asked to become.
#[derive(Debug)]
pub struct UpdateExternalSourcePayload {
    /// New name.
    pub name: Option<String>,
    /// New feed URL.
    pub source_url: Option<String>,
    /// New parser type.
    pub parser_type: Option<String>,
    /// New parser configuration.
    pub parser_config_json: Option<String>,
    /// New cron expression.
    pub cron_schedule: Option<String>,
    /// New default target group name.
    pub target_group_name: Option<String>,
    /// New ingestion mode.
    pub mode: Option<String>,
    /// New active flag.
    pub is_active: Option<bool>,
    /// Replaces the full set of target vaults, when present.
    pub targets: Option<Vec<TargetSpec>>,
}

/// Whether `s` names a parser.
pub open spec fn is_parser_type(s: Seq<char>) -> bool {
    s == "REGEX_LINE"@ || s == "JSON_PATH"@
}

/// Whether `s` names a mode.
pub open spec fn is_mode(s: Seq<char>) -> bool {
    s == BatchMode::Upsert.text() || s == BatchMode::FullReplace.text()
}

fn check_parser_type(s: &str) -> (r: Result<(), AppError>)
    ensures
        if is_parser_type(s@) {
            r is Ok
        } else {
            r is Err && r->Err_0@ == AppFault::InvalidInput(
                "parser_type must be REGEX_LINE or JSON_PATH"@,
            )
        },
{
    if text::same_text(s, "REGEX_LINE") || text::same_text(s, "JSON_PATH") {
        Ok(())
    } else {
        Err(AppError::InvalidInput("parser_type must be REGEX_LINE or JSON_PATH".to_owned()))
    }
}

fn check_mode(s: &str) -> (r: Result<(), AppError>)
    ensures
        if is_mode(s@) {
            r is Ok
        } else {
            r is Err && r->Err_0@ == AppFault::InvalidInput("mode must be upsert or full_replace"@)
        },
{
    match BatchMode::parse(s) {
        Some(_) => Ok(()),
        None => Err(AppError::InvalidInput("mode must be upsert or full_replace".to_owned())),
    }
}

/// What stands against creating a source, if anything.
pub open spec fn creation_refusal(
    caller: api_key::Model,
    payload: CreateExternalSourcePayload,
) -> Option<AppFault> {
    if !guards::may_create(caller, caller.can_manage_sources) {
        Some(AppFault::Forbidden("missing the resource-creation right for this action"@))
    } else if !is_parser_type(payload.parser_type@) {
        Some(AppFault::InvalidInput("parser_type must be REGEX_LINE or JSON_PATH"@))
    } else if !is_mode(payload.mode@) {
        Some(AppFault::InvalidInput("mode must be upsert or full_replace"@))
    } else {
        resources::cron_refusal(payload.cron_schedule@)
    }
}

/// A source as it is created.
pub open spec fn created_source(
    caller: api_key::Model,
    payload: CreateExternalSourcePayload,
    id: u128,
    now: Timestamp,
) -> external_source::Model {
    external_source::Model {
        id,
        name: payload.name,
        source_url: payload.source_url,
        parser_type: payload.parser_type,
        parser_config_json: payload.parser_config_json,
        cron_schedule: payload.cron_schedule,
        target_group_name: payload.target_group_name,
        mode: payload.mode,
        is_active: payload.is_active,
        last_run_at: None,
        owner_key_id: Some(caller.id),
        created_at: now,
        updated_at: now,
    }
}

/// A source that was created, with its targets and what its creator may do to it.
#[derive(Debug)]
pub struct CreatedExternalSource {
    /// The source's row.
    pub row: external_source::Model,
    /// The rows of its targets.
    pub target_rows: Vec<external_source_vault_target::Model>,
    /// The creator's permission row.
    pub permission: api_key_sync_permission::Model,
}

/// Creates a source that belongs to the caller.
pub fn create_external_source(
    caller: &api_key::Model,
    payload: CreateExternalSourcePayload,
    id: u128,
    permission_id: u128,
    now: Timestamp,
) -> (r: Result<CreatedExternalSource, AppError>)
    ensures
        match creation_refusal(*caller, payload) {
            Some(fault) => r is Err && r->Err_0@ == fault,
            None => {
                &&& r is Ok
                &&& r->Ok_0.row == created_source(*caller, payload, id, now)
                &&& r->Ok_0.row == (external_source::Model {
                    id,
                    name: payload.name,
                    source_url: payload.source_url,
                    parser_type: payload.parser_type,
                    parser_config_json: payload.parser_config_json,
                    cron_schedule: payload.cron_schedule,
                    target_group_name: payload.target_group_name,
                    mode: payload.mode,
                    is_active: payload.is_active,
                    last_run_at: None,
                    owner_key_id: Some(caller.id),
                    created_at: now,
                    updated_at: now,
                })
                &&& r->Ok_0.target_rows@ == payload.targets@.map_values(
                    |target: TargetSpec| target_row(id, target),
                )
                &&& resources::is_full_permission(
                    r->Ok_0.permission,
                    permission_id,
                    caller.id,
                    RESOURCE_EXTERNAL_SOURCE@,
                    id,
                    now,
                )
            },
        },
{
    match guard_resource_creation(caller, caller.can_manage_sources) {
        Ok(_) => {},
        Err(e) => return Err(e),
    }
    match check_parser_type(payload.parser_type.as_str()) {
        Ok(_) => {},
        Err(e) => return Err(e),
    }
    match check_mode(payload.mode.as_str()) {
        Ok(_) => {},
        Err(e) => return Err(e),
    }
    match check_cron(payload.cron_schedule.as_str()) {
        Ok(_) => {},
        Err(e) => return Err(e),
    }
    let target_rows = target_rows(id, &payload.targets);
    let permission = grant_full_permission(
        permission_id,
        caller.id,
        RESOURCE_EXTERNAL_SOURCE,
        id,
        now,
    );
    let row = external_source::Model {
        id,
        name: payload.name,
        source_url: payload.source_url,
        parser_type: payload.parser_type,
        parser_config_json: payload.parser_config_json,
        cron_schedule: payload.cron_schedule,
        target_group_name: payload.target_group_name,
        mode: payload.mode,
        is_active: payload.is_active,
        last_run_at: None,
        owner_key_id: Some(caller.id),
        created_at: now,
        updated_at: now,
    };
    Ok(CreatedExternalSource { row, target_rows, permission })
}

/// What is said where a source's name is taken.
pub fn source_name_taken(name: &str) -> (e: AppError)
    ensures
        e@ == AppFault::Conflict("an external source named '"@ + name@ + "' already exists"@),
{
    AppError::Conflict(text::concat3("an external source named '", name, "' already exists"))
}

/// What stands against changing a source, if anything.
pub open spec fn update_refusal(
    caller: api_key::Model,
    existing: Option<external_source::Model>,
    permission: Option<&api_key_sync_permission::Model>,
    payload: UpdateExternalSourcePayload,
) -> Option<AppFault> {
    match existing {
        None => Some(AppFault::NotFound),
        Some(existing) => match resources::change_refusal(
            caller,
            existing.owner_key_id,
            permission,
            resources::renames(payload.name, existing.name),
        ) {
            Some(fault) => Some(fault),
            None => if payload.parser_type matches Some(parser_type) && !is_parser_type(
                parser_type@,
            ) {
                Some(AppFault::InvalidInput("parser_type must be REGEX_LINE or JSON_PATH"@))
            } else if payload.cron_schedule matches Some(cron) && resources::cron_refusal(
                cron@,
            ) is Some {
                resources::cron_refusal(payload.cron_schedule->Some_0@)
            } else if payload.mode matches Some(mode) && !is_mode(mode@) {
                Some(AppFault::InvalidInput("mode must be upsert or full_replace"@))
            } else {
                None
            },
        },
    }
}

/// A source after a change.
pub open spec fn updated_source(
    existing: external_source::Model,
    payload: UpdateExternalSourcePayload,
    now: Timestamp,
) -> external_source::Model {
    external_source::Model {
        name: support::or_kept(payload.name, existing.name),
        source_url: support::or_kept(payload.source_url, existing.source_url),
        parser_type: support::or_kept(payload.parser_type, existing.parser_type),
        parser_config_json: support::or_kept_optional(
            payload.parser_config_json,
            existing.parser_config_json,
        ),
        cron_schedule: support::or_kept(payload.cron_schedule, existing.cron_schedule),
        target_group_name: support::or_kept(payload.target_group_name, existing.target_group_name),
        mode: support::or_kept(payload.mode, existing.mode),
        is_active: support::or_kept(payload.is_active, existing.is_active),
        updated_at: now,
        ..existing
    }
}

/// A source that was changed, with its new targets where they were replaced.
#[derive(Debug)]
pub struct UpdatedExternalSource {
    /// The source's row.
    pub row: external_source::Model,
    /// The rows of its new targets, or nothing where the targets stay.
    pub target_rows: Option<Vec<external_source_vault_target::Model>>,
}

/// Changes a source.
pub fn update_external_source(
    caller: &api_key::Model,
    existing: Option<external_source::Model>,
    permission: Option<&api_key_sync_permission::Model>,
    payload: UpdateExternalSourcePayload,
    now: Timestamp,
) -> (r: Result<UpdatedExternalSource, AppError>)
    ensures
        match update_refusal(*caller, existing, permission, payload) {
            Some(fault) => r is Err && r->Err_0@ == fault,
            None => {
                &&& r is Ok
                &&& r->Ok_0.row == updated_source(existing->Some_0, payload, now)
                &&& match payload.targets {
                    Some(targets) => {
                        &&& r->Ok_0.target_rows is Some
                        &&& r->Ok_0.target_rows->Some_0@ == targets@.map_values(
                            |target: TargetSpec| target_row(existing->Some_0.id, target),
                        )
                    },
                    None => r->Ok_0.target_rows is None,
                }
            },
        },
{
    let existing = match existing {
        Some(existing) => existing,
        None => return Err(AppError::NotFound),
    };
    let renaming = is_rename(&payload.name, &existing.name);
    match check_change(caller, existing.owner_key_id, permission, renaming) {
        Ok(_) => {},
        Err(e) => return Err(e),
    }
    if let Some(parser_type) = &payload.parser_type {
        match check_parser_type(parser_type.as_str()) {
            Ok(_) => {},
            Err(e) => return Err(e),
        }
    }
    if let Some(cron) = &payload.cron_schedule {
        match check_cron(cron.as_str()) {
            Ok(_) => {},
            Err(e) => return Err(e),
        }
    }
    if let Some(mode) = &payload.mode {
        match check_mode(mode.as_str()) {
            Ok(_) => {},
            Err(e) => return Err(e),
        }
    }
    let target_rows = match &payload.targets {
        Some(targets) => Some(target_rows(existing.id, targets)),
        None => None,
    };
    let row = external_source::Model {
        id: existing.id,
        name: or_keep(payload.name, existing.name),
        source_url: or_keep(payload.source_url, existing.source_url),
        parser_type: or_keep(payload.parser_type, existing.parser_type),
        parser_config_json: or_keep_optional(
            payload.parser_config_json,
            existing.parser_config_json,
        ),
        cron_schedule: or_keep(payload.cron_schedule, existing.cron_schedule),
        target_group_name: or_keep(payload.target_group_name, existing.target_group_name),
        mode: or_keep(payload.mode, existing.mode),
        is_active: or_keep(payload.is_active, existing.is_active),
        last_run_at: existing.last_run_at,
        owner_key_id: existing.owner_key_id,
        created_at: existing.created_at,
        updated_at: now,
    };
    Ok(UpdatedExternalSource { row, target_rows })
}

/// Whether the caller may delete a source. Gives its name, for the audit trail.
pub fn delete_external_source(caller: &api_key::Model, existing: Option<external_source::Model>) -> (r:
    Result<String, AppError>)
    ensures
        match existing {
            None => r is Err && r->Err_0@ == AppFault::NotFound,
            Some(existing) => if guards::may_end(*caller, existing.owner_key_id) {
                r == Ok::<String, AppError>(existing.name)
            } else {
                r is Err && r->Err_0@ == AppFault::Forbidden(
                    "only the Master key or this resource's owner may delete or rename it (RBAC §3)"@,
                )
            },
        },
{
    let existing = match existing {
        Some(existing) => existing,
        None => return Err(AppError::NotFound),
    };
    match guard_resource_lifecycle(caller, existing.owner_key_id) {
        Ok(_) => Ok(existing.name),
        Err(e) => Err(e),
    }
}

/// Claims a source for a run on demand. The claim is given back with
/// [`RunningJobs::release`] when the run has ended.
pub fn trigger_external_source(
    caller: &api_key::Model,
    existing: Option<&external_source::Model>,
    permission: Option<&api_key_sync_permission::Model>,
    jobs: &mut RunningJobs,
) -> (r: Result<JobGuard, AppError>)
    ensures
        match existing {
            None => r is Err && r->Err_0@ == AppFault::NotFound && final(jobs)@ == old(jobs)@,
            Some(existing) => {
                &&& final(jobs)@ == if r is Ok {
                    old(jobs)@.insert(existing.id)
                } else {
                    old(jobs)@
                }
                &&& match resources::run_refusal(
                    *caller,
                    permission,
                    old(jobs)@.contains(existing.id),
                    "source"@,
                ) {
                    Some(fault) => r is Err && r->Err_0@ == fault,
                    None => r is Ok && r->Ok_0.resource() == existing.id,
                }
            },
        },
{
    match existing {
        Some(existing) => start_run(
            caller,
            permission,
            existing.id,
            jobs,
            "source",
        ),
        None => Err(AppError::NotFound),
    }
}

/// A source that is accepted can run: its schedule can be scheduled, and its parser type and mode
/// are known.
pub proof fn law_created_sources_can_run(
    caller: api_key::Model,
    payload: CreateExternalSourcePayload,
)
    requires
        creation_refusal(caller, payload) is None,
    ensures
        scheduler::schedule_fault(payload.cron_schedule@) is None,
        is_parser_type(payload.parser_type@),
        is_mode(payload.mode@),
{
}

/// A change that is accepted leaves a source that can run able to run, with its identity, its owner
/// and its history as they were.
pub proof fn law_changed_sources_can_run(
    caller: api_key::Model,
    existing: external_source::Model,
    permission: Option<&api_key_sync_permission::Model>,
    payload: UpdateExternalSourcePayload,
    now: Timestamp,
)
    requires
        update_refusal(caller, Some(existing), permission, payload) is None,
        scheduler::schedule_fault(existing.cron_schedule@) is None,
        is_parser_type(existing.parser_type@),
        is_mode(existing.mode@),
    ensures
        scheduler::schedule_fault(updated_source(existing, payload, now).cron_schedule@) is None,
        is_parser_type(updated_source(existing, payload, now).parser_type@),
        is_mode(updated_source(existing, payload, now).mode@),
        updated_source(existing, payload, now).id == existing.id,
        updated_source(existing, payload, now).owner_key_id == existing.owner_key_id,
        updated_source(existing, payload, now).last_run_at == existing.last_run_at,
{
}

/// A change makes exactly what it names: every value that it gives is the row's afterwards, and every
/// other value is as it was.
pub proof fn law_changes_are_made_as_asked(
    existing: external_source::Model,
    payload: UpdateExternalSourcePayload,
    now: Timestamp,
)
    ensures
        ({
            let after = updated_source(existing, payload, now);
            &&& payload.name matches Some(v) ==> after.name == v
            &&& payload.name is None ==> after.name == existing.name
            &&& payload.source_url matches Some(v) ==> after.source_url == v
            &&& payload.source_url is None ==> after.source_url == existing.source_url
            &&& payload.parser_type matches Some(v) ==> after.parser_type == v
            &&& payload.parser_type is None ==> after.parser_type == existing.parser_type
            &&& payload.cron_schedule matches Some(v) ==> after.cron_schedule == v
            &&& payload.cron_schedule is None ==> after.cron_schedule == existing.cron_schedule
            &&& payload.target_group_name matches Some(v) ==> after.target_group_name == v
            &&& payload.target_group_name is None ==> after.target_group_name == existing.target_group_name
            &&& payload.mode matches Some(v) ==> after.mode == v
            &&& payload.mode is None ==> after.mode == existing.mode
            &&& payload.is_active matches Some(v) ==> after.is_active == v
            &&& payload.is_active is None ==> after.is_active == existing.is_active
            &&& payload.parser_config_json matches Some(v) ==> after.parser_config_json == Some(v)
            &&& payload.parser_config_json is None ==> after.parser_config_json == existing.parser_config_json
            &&& after.id == existing.id
            &&& after.owner_key_id == existing.owner_key_id
            &&& after.last_run_at == existing.last_run_at
            &&& after.created_at == existing.created_at
            &&& after.updated_at == now
        }),
{
}

/// A source is shown as it is stored, with its targets.
pub proof fn law_sources_are_shown_as_they_are(m: external_source::Model, targets: Vec<TargetSpec>)
    ensures
        ({
            let r = shown_source(m, targets);
            &&& r.id == m.id
            &&& r.name == m.name
            &&& r.source_url == m.source_url
            &&& r.parser_type == m.parser_type
            &&& r.parser_config_json == m.parser_config_json
            &&& r.cron_schedule == m.cron_schedule
            &&& r.target_group_name == m.target_group_name
            &&& r.mode == m.mode
            &&& r.is_active == m.is_active
            &&& r.last_run_at == m.last_run_at
            &&& r.owner_key_id == m.owner_key_id
            &&& r.created_at == m.created_at
            &&& r.updated_at == m.updated_at
            &&& r.targets == targets
        }),
{
}

/// A source is created as it was asked for: every value of the payload is the row's, the caller owns
/// it, and it has not run.
pub proof fn law_sources_are_created_as_asked(
    caller: api_key::Model,
    payload: CreateExternalSourcePayload,
    id: u128,
    now: Timestamp,
)
    ensures
        ({
            let row = created_source(caller, payload, id, now);
            &&& row.id == id
            &&& row.name == payload.name
            &&& row.source_url == payload.source_url
            &&& row.parser_type == payload.parser_type
            &&& row.parser_config_json == payload.parser_config_json
            &&& row.cron_schedule == payload.cron_schedule
            &&& row.target_group_name == payload.target_group_name
            &&& row.mode == payload.mode
            &&& row.is_active == payload.is_active
            &&& row.last_run_at is None
            &&& row.owner_key_id == Some(caller.id)
            &&& row.created_at == now
            &&& row.updated_at == now
        }),
{
}

/// Every target is stored under its source, with its vault and its own group.
pub proof fn law_targets_are_stored_as_asked(source_id: u128, target: TargetSpec)
    ensures
        target_row(source_id, target).external_source_id == source_id,
        target_row(source_id, target).vault_endpoint_id == target.vault_endpoint_id,
        target_row(source_id, target).target_group_name == target.target_group_name,
{
}

/// A source may be created by the Master and by whoever holds the right to create sources, with one
/// of the two parsers, one of the two modes and a schedule that can be scheduled; and by nobody else
/// and in no other way.
pub proof fn law_who_creates_sources(caller: api_key::Model, payload: CreateExternalSourcePayload)
    ensures
        creation_refusal(caller, payload) is None <==> (caller.is_master
            || caller.can_manage_sources) && (payload.parser_type@ == "REGEX_LINE"@
            || payload.parser_type@ == "JSON_PATH"@) && (payload.mode@ == "upsert"@
            || payload.mode@ == "full_replace"@) && scheduler::schedule_fault(
            payload.cron_schedule@,
        ) is None,
        !(caller.is_master || caller.can_manage_sources) ==> creation_refusal(caller, payload)
            matches Some(AppFault::Forbidden(_)),
{
}

/// A change of a source is accepted from whoever may change it, if what it names is valid, and from
/// nobody else; a source that is not there is not found.
pub proof fn law_who_changes_sources(
    caller: api_key::Model,
    existing: external_source::Model,
    permission: Option<&api_key_sync_permission::Model>,
    payload: UpdateExternalSourcePayload,
)
    ensures
        update_refusal(caller, None, permission, payload) == Some(AppFault::NotFound),
        update_refusal(caller, Some(existing), permission, payload) is None <==> {
            &&& caller.is_master || (caller.can_manage_keys && permission is Some
                && permission->0.can_manage)
            &&& payload.name is Some && payload.name->0@ != existing.name@ ==> caller.is_master
                || existing.owner_key_id == Some(caller.id)
            &&& payload.parser_type is Some ==> payload.parser_type->0@ == "REGEX_LINE"@
                || payload.parser_type->0@ == "JSON_PATH"@
            &&& payload.mode is Some ==> payload.mode->0@ == "upsert"@ || payload.mode->0@
                == "full_replace"@
            &&& payload.cron_schedule is Some ==> scheduler::schedule_fault(
                payload.cron_schedule->0@,
            ) is None
        },
{
}

/// What stands against a new source, or a change of one, is said: the right to it first, then the
/// parser, the mode and the schedule.
pub proof fn law_refusals_say_why(
    caller: api_key::Model,
    created: CreateExternalSourcePayload,
    existing: external_source::Model,
    permission: Option<&api_key_sync_permission::Model>,
    changed: UpdateExternalSourcePayload,
)
    ensures
        !guards::may_create(caller, caller.can_manage_sources) ==> creation_refusal(caller, created)
            == Some(AppFault::Forbidden("missing the resource-creation right for this action"@)),
        guards::may_create(caller, caller.can_manage_sources) && created.parser_type@
            != "REGEX_LINE"@ && created.parser_type@ != "JSON_PATH"@ ==> creation_refusal(
            caller,
            created,
        ) == Some(AppFault::InvalidInput("parser_type must be REGEX_LINE or JSON_PATH"@)),
        guards::may_create(caller, caller.can_manage_sources) && is_parser_type(
            created.parser_type@,
        ) && !is_mode(created.mode@) ==> creation_refusal(caller, created) == Some(
            AppFault::InvalidInput("mode must be upsert or full_replace"@),
        ),
        update_refusal(caller, None, permission, changed) == Some(AppFault::NotFound),
        resources::change_refusal(
            caller,
            existing.owner_key_id,
            permission,
            resources::renames(changed.name, existing.name),
        ) is None ==> {
            &&& changed.parser_type matches Some(parser_type) ==> parser_type@ != "REGEX_LINE"@
                && parser_type@ != "JSON_PATH"@ ==> update_refusal(
                caller,
                Some(existing),
                permission,
                changed,
            ) == Some(AppFault::InvalidInput("parser_type must be REGEX_LINE or JSON_PATH"@))
            &&& changed.parser_type is None && changed.cron_schedule is None && changed.mode is Some
                && !is_mode(changed.mode->0@) ==> update_refusal(
                caller,
                Some(existing),
                permission,
                changed,
            ) == Some(AppFault::InvalidInput("mode must be upsert or full_replace"@))
        },
{
}

} // verus!
