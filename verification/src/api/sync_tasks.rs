//! Sync tasks: the replication of changes from one vault to others.

use vstd::prelude::*;

use crate::api::guards;
use crate::api::guards::{guard_resource_creation, guard_resource_lifecycle};
use crate::api::resources;
use crate::api::resources::{check_change, check_cron, is_rename, start_run, visible_to};
use crate::api::sources::TargetSpec;
use crate::api::support;
use crate::api::support::{grant_full_permission, or_keep, RESOURCE_SYNC_TASK};
use crate::client::BatchMode;
use crate::entities::{
    api_key, api_key_sync_permission, vault_sync_task, vault_sync_task_target,
};
use crate::error::{AppError, AppFault};
use crate::jobs::{JobGuard, RunningJobs};
use crate::scheduler;
use crate::text;
use crate::time::Timestamp;

verus! {

/// A task with its targets, as the API shows it.
#[derive(Debug)]
pub struct VaultSyncTaskResponse {
    /// Task id.
    pub id: u128,
    /// Human-readable name.
    pub name: String,
    /// Source vault endpoint id.
    pub source_vault_id: u128,
    /// Group name queried on the source vault.
    pub source_group_name: String,
    /// Default target group name on receiving vaults.
    pub target_group_name: String,
    /// Cron expression for periodic polling.
    pub cron_schedule: String,
    /// High-water mark of delta queries.
    pub last_sync_at: Option<Timestamp>,
    /// Sync mode. Always `"upsert"`.
    pub mode: String,
    /// Whether automatic scheduling is enabled.
    pub is_active: bool,
    /// Key holding lifecycle authority over the task.
    pub owner_key_id: Option<u128>,
    /// Configured target vaults.
    pub targets: Vec<TargetSpec>,
    /// Creation timestamp.
    pub created_at: Timestamp,
    /// Last update timestamp.
    pub updated_at: Timestamp,
}

/// The target of a target row.
pub open spec fn row_target(row: vault_sync_task_target::Model) -> TargetSpec {
    TargetSpec {
        vault_endpoint_id: row.target_vault_id,
        target_group_name: row.target_group_name,
    }
}

/// The targets of a task, from its target rows.
pub fn load_targets(rows: Vec<vault_sync_task_target::Model>) -> (r: Vec<TargetSpec>)
    ensures
        r@ == rows@.map_values(|row: vault_sync_task_target::Model| row_target(row)),
{
    let ghost all = rows@;
    let mut r: Vec<TargetSpec> = Vec::new();
    for row in it: rows
        invariant
            it.seq() == all,
            r@ == all.take(it.index()).map_values(
                |row: vault_sync_task_target::Model| row_target(row),
            ),
    {
        r.push(
            TargetSpec {
                vault_endpoint_id: row.target_vault_id,
                target_group_name: row.target_group_name,
            },
        );
    }
    assert(all.take(all.len() as int) =~= all);
    r
}

/// The target row of a target.
pub open spec fn target_row(task_id: u128, target: TargetSpec) -> vault_sync_task_target::Model {
    vault_sync_task_target::Model {
        vault_sync_task_id: task_id,
        target_vault_id: target.vault_endpoint_id,
        target_group_name: target.target_group_name,
    }
}

/// The target rows of a task.
pub fn target_rows(task_id: u128, targets: &Vec<TargetSpec>) -> (r: Vec<
    vault_sync_task_target::Model,
>)
    ensures
        r@ == targets@.map_values(|target: TargetSpec| target_row(task_id, target)),
{
    let mut r: Vec<vault_sync_task_target::Model> = Vec::new();
    for target in it: targets.iter()
        invariant
            it.seq().len() == targets@.len(),
            forall|k: int| 0 <= k < targets@.len() ==> *it.seq()[k] == targets@[k],
            r@ == targets@.take(it.index()).map_values(
                |target: TargetSpec| target_row(task_id, target),
            ),
    {
        let target_group_name = match &target.target_group_name {
            Some(name) => Some(name.clone()),
            None => None,
        };
        r.push(
            vault_sync_task_target::Model {
                vault_sync_task_id: task_id,
                target_vault_id: target.vault_endpoint_id,
                target_group_name,
            },
        );
    }
    assert(targets@.take(targets@.len() as int) =~= targets@);
    r
}

/// The targets that are stored are the targets that are read back.
pub proof fn law_stored_targets_are_read_back(task_id: u128, targets: Seq<TargetSpec>)
    ensures
        targets.map_values(|target: TargetSpec| target_row(task_id, target)).map_values(
            |row: vault_sync_task_target::Model| row_target(row),
        ) == targets,
{
    assert(targets.map_values(|target: TargetSpec| target_row(task_id, target)).map_values(
        |row: vault_sync_task_target::Model| row_target(row),
    ) =~= targets);
}

/// A task as the API shows it.
pub open spec fn shown_task(
    m: vault_sync_task::Model,
    targets: Vec<TargetSpec>,
) -> VaultSyncTaskResponse {
    VaultSyncTaskResponse {
        id: m.id,
        name: m.name,
        source_vault_id: m.source_vault_id,
        source_group_name: m.source_group_name,
        target_group_name: m.target_group_name,
        cron_schedule: m.cron_schedule,
        last_sync_at: m.last_sync_at,
        mode: m.mode,
        is_active: m.is_active,
        owner_key_id: m.owner_key_id,
        targets,
        created_at: m.created_at,
        updated_at: m.updated_at,
    }
}

/// A task as the API shows it.
pub fn to_response(m: vault_sync_task::Model, targets: Vec<TargetSpec>) -> (r:
    VaultSyncTaskResponse)
    ensures
        r == shown_task(m, targets),
{
    VaultSyncTaskResponse {
        id: m.id,
        name: m.name,
        source_vault_id: m.source_vault_id,
        source_group_name: m.source_group_name,
        target_group_name: m.target_group_name,
        cron_schedule: m.cron_schedule,
        last_sync_at: m.last_sync_at,
        mode: m.mode,
        is_active: m.is_active,
        owner_key_id: m.owner_key_id,
        targets,
        created_at: m.created_at,
        updated_at: m.updated_at,
    }
}

/// A task, whether the caller holds a permission row on it, and its targets.
#[derive(Debug)]
pub struct TaskListing {
    /// The task.
    pub task: vault_sync_task::Model,
    /// Whether the caller holds a permission row on it.
    pub has_permission: bool,
    /// Its targets.
    pub targets: Vec<TargetSpec>,
}

/// The tasks that are visible to the caller, in order.
pub fn list_vault_sync_tasks(caller: &api_key::Model, tasks: Vec<TaskListing>) -> (r: Vec<
    VaultSyncTaskResponse,
>)
    ensures
        r@ == tasks@.filter(
            |s: TaskListing|
                resources::is_visible(*caller, s.task.owner_key_id, s.has_permission),
        ).map_values(|s: TaskListing| shown_task(s.task, s.targets)),
{
    let ghost all = tasks@;
    let ghost visible = |s: TaskListing|
        resources::is_visible(*caller, s.task.owner_key_id, s.has_permission);
    let ghost shown = |s: TaskListing| shown_task(s.task, s.targets);
    let mut r: Vec<VaultSyncTaskResponse> = Vec::new();
    proof {
        reveal(Seq::filter);
        assert(r@ =~= all.take(0).filter(visible).map_values(shown));
    }
    for listing in it: tasks
        invariant
            it.seq() == all,
            visible == (|s: TaskListing|
                resources::is_visible(*caller, s.task.owner_key_id, s.has_permission)),
            shown == (|s: TaskListing| shown_task(s.task, s.targets)),
            r@ == all.take(it.index()).filter(visible).map_values(shown),
    {
        let ghost i = it.index();
        proof {
            reveal(Seq::filter);
            assert(all.take(i + 1).drop_last() =~= all.take(i));
            assert(all.take(i + 1).last() == listing);
        }
        let ghost before = all.take(i).filter(visible);
        if visible_to(caller, listing.task.owner_key_id, listing.has_permission) {
            let ghost s = listing;
            r.push(to_response(listing.task, listing.targets));
            assert(before.push(s).map_values(shown) =~= before.map_values(shown).push(
                shown_task(s.task, s.targets),
            ));
        }
    }
    assert(all.take(all.len() as int) =~= all);
    r
}

/// One task, if it is visible to the caller. A task that is not visible is answered like one
/// that does not exist.
pub fn get_vault_sync_task(caller: &api_key::Model, task: Option<TaskListing>) -> (r: Result<
    VaultSyncTaskResponse,
    AppError,
>)
    ensures
        match task {
            Some(s) if resources::is_visible(
                *caller,
                s.task.owner_key_id,
                s.has_permission,
            ) => r == Ok::<VaultSyncTaskResponse, AppError>(shown_task(s.task, s.targets)),
            _ => r is Err && r->Err_0@ == AppFault::NotFound,
        },
{
    match task {
        Some(s) => if visible_to(caller, s.task.owner_key_id, s.has_permission) {
            Ok(to_response(s.task, s.targets))
        } else {
            Err(AppError::NotFound)
        },
        None => Err(AppError::NotFound),
    }
}

/// What a new task is asked to be.
#[derive(Debug)]
pub struct CreateVaultSyncTaskPayload {
    /// Human-readable name. Must be unique.
    pub name: String,
    /// Source vault endpoint id.
    pub source_vault_id: u128,
    /// Group name to query on the source vault.
    pub source_group_name: String,
    /// Default target group name on receiving vaults.
    pub target_group_name: String,
    /// Cron expression for periodic polling.
    pub cron_schedule: String,
    /// Whether automatic scheduling is enabled.
    pub is_active: bool,
    /// Target vaults to replicate changes to.
    pub targets: Vec<TargetSpec>,
}

/// Whether scheduling is enabled where a payload does not say.
pub fn default_true() -> (b: bool)
    ensures
        b,
{
    true
}

/// What a task is asked to become.
#[derive(Debug)]
pub struct UpdateVaultSyncTaskPayload {
    /// New name.
    pub name: Option<String>,
    /// New source vault endpoint id.
    pub source_vault_id: Option<u128>,
    /// New source group name.
    pub source_group_name: Option<String>,
    /// New default target group name.
    pub target_group_name: Option<String>,
    /// New cron expression.
    pub cron_schedule: Option<String>,
    /// New active flag.
    pub is_active: Option<bool>,
    /// Replaces the full set of target vaults, when present.
    pub targets: Option<Vec<TargetSpec>>,
}

/// What stands against creating a task, if anything.
pub open spec fn creation_refusal(
    caller: api_key::Model,
    payload: CreateVaultSyncTaskPayload,
) -> Option<AppFault> {
    if !guards::may_create(caller, caller.can_manage_vaults) {
        Some(AppFault::Forbidden("missing the resource-creation right for this action"@))
    } else {
        resources::cron_refusal(payload.cron_schedule@)
    }
}

/// A task that was created, with its targets and what its creator may do to it.
#[derive(Debug)]
pub struct CreatedVaultSyncTask {
    /// The task's row.
    pub row: vault_sync_task::Model,
    /// The rows of its targets.
    pub target_rows: Vec<vault_sync_task_target::Model>,
    /// The creator's permission row.
    pub permission: api_key_sync_permission::Model,
}

/// Creates a task that belongs to the caller.
pub fn create_vault_sync_task(
    caller: &api_key::Model,
    payload: CreateVaultSyncTaskPayload,
    id: u128,
    permission_id: u128,
    now: Timestamp,
) -> (r: Result<CreatedVaultSyncTask, AppError>)
    ensures
        match creation_refusal(*caller, payload) {
            Some(fault) => r is Err && r->Err_0@ == fault,
            None => {
                &&& r is Ok
                &&& is_created_task(r->Ok_0.row, *caller, payload, id, now)
                &&& r->Ok_0.row.mode@ == BatchMode::Upsert.text()
                &&& r->Ok_0.row == (vault_sync_task::Model {
                    id,
                    name: payload.name,
                    source_vault_id: payload.source_vault_id,
                    source_group_name: payload.source_group_name,
                    target_group_name: payload.target_group_name,
                    cron_schedule: payload.cron_schedule,
                    last_sync_at: None,
                    mode: r->Ok_0.row.mode,
                    is_active: payload.is_active,
                    owner_key_id: Some(caller.id),
                    created_at: now,
                    updated_at: now,
                })
                &&& r->Ok_0.target_rows@ == payload.targets@.map_values(
                    |target: TargetSpec| target_row(id, target),
                )
                &&& resources::is_full_permission(
                    r->Ok_0.permission,
                    permission_id,
                    caller.id,
                    RESOURCE_SYNC_TASK@,
                    id,
                    now,
                )
            },
        },
{
    match guard_resource_creation(caller, caller.can_manage_vaults) {
        Ok(_) => {},
        Err(e) => return Err(e),
    }
    match check_cron(payload.cron_schedule.as_str()) {
        Ok(_) => {},
        Err(e) => return Err(e),
    }
    let target_rows = target_rows(id, &payload.targets);
    let permission = grant_full_permission(
        permission_id,
        caller.id,
        RESOURCE_SYNC_TASK,
        id,
        now,
    );
    let row = vault_sync_task::Model {
        id,
        name: payload.name,
        source_vault_id: payload.source_vault_id,
        source_group_name: payload.source_group_name,
        target_group_name: payload.target_group_name,
        cron_schedule: payload.cron_schedule,
        last_sync_at: None,
        mode: BatchMode::Upsert.as_str().to_owned(),
        is_active: payload.is_active,
        owner_key_id: Some(caller.id),
        created_at: now,
        updated_at: now,
    };
    Ok(CreatedVaultSyncTask { row, target_rows, permission })
}

/// What is said where a task's name is taken.
pub fn task_name_taken(name: &str) -> (e: AppError)
    ensures
        e@ == AppFault::Conflict("a sync task named '"@ + name@ + "' already exists"@),
{
    AppError::Conflict(text::concat3("a sync task named '", name, "' already exists"))
}

/// What stands against changing a task, if anything.
pub open spec fn update_refusal(
    caller: api_key::Model,
    existing: Option<vault_sync_task::Model>,
    permission: Option<&api_key_sync_permission::Model>,
    payload: UpdateVaultSyncTaskPayload,
) -> Option<AppFault> {
    match existing {
        None => Some(AppFault::NotFound),
        Some(existing) => match resources::change_refusal(
            caller,
            existing.owner_key_id,
            permission,
            resources::renames(payload.name, existing.name),
        ) {
            Some(fault) => Some(fault),
            None => match payload.cron_schedule {
                Some(cron) => resources::cron_refusal(cron@),
                None => None,
            },
        },
    }
}

/// A task after a change.
pub open spec fn updated_task(
    existing: vault_sync_task::Model,
    payload: UpdateVaultSyncTaskPayload,
    now: Timestamp,
) -> vault_sync_task::Model {
    vault_sync_task::Model {
        name: support::or_kept(payload.name, existing.name),
        source_vault_id: support::or_kept(payload.source_vault_id, existing.source_vault_id),
        source_group_name: support::or_kept(payload.source_group_name, existing.source_group_name),
        target_group_name: support::or_kept(payload.target_group_name, existing.target_group_name),
        cron_schedule: support::or_kept(payload.cron_schedule, existing.cron_schedule),
        is_active: support::or_kept(payload.is_active, existing.is_active),
        updated_at: now,
        ..existing
    }
}

/// A task that was changed, with its new targets where they were replaced.
#[derive(Debug)]
pub struct UpdatedVaultSyncTask {
    /// The task's row.
    pub row: vault_sync_task::Model,
    /// The rows of its new targets, or nothing where the targets stay.
    pub target_rows: Option<Vec<vault_sync_task_target::Model>>,
}

/// Changes a task.
pub fn update_vault_sync_task(
    caller: &api_key::Model,
    existing: Option<vault_sync_task::Model>,
    permission: Option<&api_key_sync_permission::Model>,
    payload: UpdateVaultSyncTaskPayload,
    now: Timestamp,
) -> (r: Result<UpdatedVaultSyncTask, AppError>)
    ensures
        match update_refusal(*caller, existing, permission, payload) {
            Some(fault) => r is Err && r->Err_0@ == fault,
            None => {
                &&& r is Ok
                &&& r->Ok_0.row == updated_task(existing->Some_0, payload, now)
                &&& match payload.targets {
                    Some(targets) => {
                        &&& r->Ok_0.target_rows is Some
                        &&& r->Ok_0.target_rows->Some_0@ == targets@.map_values(
                            |target: TargetSpec| target_row(existing->Some_0.id, target),
                        )
                    },
                    None => r->Ok_0.target_rows is None,
                }
            },
        },
{
    let existing = match existing {
        Some(existing) => existing,
        None => return Err(AppError::NotFound),
    };
    let renaming = is_rename(&payload.name, &existing.name);
    match check_change(caller, existing.owner_key_id, permission, renaming) {
        Ok(_) => {},
        Err(e) => return Err(e),
    }
    if let Some(cron) = &payload.cron_schedule {
        match check_cron(cron.as_str()) {
            Ok(_) => {},
            Err(e) => return Err(e),
        }
    }
    let target_rows = match &payload.targets {
        Some(targets) => Some(target_rows(existing.id, targets)),
        None => None,
    };
    let row = vault_sync_task::Model {
        id: existing.id,
        name: or_keep(payload.name, existing.name),
        source_vault_id: or_keep(payload.source_vault_id, existing.source_vault_id),
        source_group_name: or_keep(payload.source_group_name, existing.source_group_name),
        target_group_name: or_keep(payload.target_group_name, existing.target_group_name),
        cron_schedule: or_keep(payload.cron_schedule, existing.cron_schedule),
        last_sync_at: existing.last_sync_at,
        mode: existing.mode,
        is_active: or_keep(payload.is_active, existing.is_active),
        owner_key_id: existing.owner_key_id,
        created_at: existing.created_at,
        updated_at: now,
    };
    Ok(UpdatedVaultSyncTask { row, target_rows })
}

/// Whether the caller may delete a task. Gives its name, for the audit trail.
pub fn delete_vault_sync_task(caller: &api_key::Model, existing: Option<vault_sync_task::Model>) -> (r:
    Result<String, AppError>)
    ensures
        match existing {
            None => r is Err && r->Err_0@ == AppFault::NotFound,
            Some(existing) => if guards::may_end(*caller, existing.owner_key_id) {
                r == Ok::<String, AppError>(existing.name)
            } else {
                r is Err && r->Err_0@ == AppFault::Forbidden(
                    "only the Master key or this resource's owner may delete or rename it (RBAC §3)"@,
                )
            },
        },
{
    let existing = match existing {
        Some(existing) => existing,
        None => return Err(AppError::NotFound),
    };
    match guard_resource_lifecycle(caller, existing.owner_key_id) {
        Ok(_) => Ok(existing.name),
        Err(e) => Err(e),
    }
}

/// Claims a task for a run on demand. The claim is given back with
/// [`RunningJobs::release`] when the run has ended.
pub fn trigger_vault_sync_task(
    caller: &api_key::Model,
    existing: Option<&vault_sync_task::Model>,
    permission: Option<&api_key_sync_permission::Model>,
    jobs: &mut RunningJobs,
) -> (r: Result<JobGuard, AppError>)
    ensures
        match existing {
            None => r is Err && r->Err_0@ == AppFault::NotFound && final(jobs)@ == old(jobs)@,
            Some(existing) => {
                &&& final(jobs)@ == if r is Ok {
                    old(jobs)@.insert(existing.id)
                } else {
                    old(jobs)@
                }
                &&& match resources::run_refusal(
                    *caller,
                    permission,
                    old(jobs)@.contains(existing.id),
                    "task"@,
                ) {
                    Some(fault) => r is Err && r->Err_0@ == fault,
                    None => r is Ok && r->Ok_0.resource() == existing.id,
                }
            },
        },
{
    match existing {
        Some(existing) => start_run(
            caller,
            permission,
            existing.id,
            jobs,
            "task",
        ),
        None => Err(AppError::NotFound),
    }
}

/// A task that is accepted can run: its schedule can be scheduled.
pub proof fn law_created_tasks_can_run(
    caller: api_key::Model,
    payload: CreateVaultSyncTaskPayload,
)
    requires
        creation_refusal(caller, payload) is None,
    ensures
        scheduler::schedule_fault(payload.cron_schedule@) is None,
{
}

/// A change that is accepted leaves a task that can run able to run, and touches neither its mode
/// nor its high-water mark: no request can make a task replace records, or skip changes.
pub proof fn law_changed_tasks_can_run(
    caller: api_key::Model,
    existing: vault_sync_task::Model,
    permission: Option<&api_key_sync_permission::Model>,
    payload: UpdateVaultSyncTaskPayload,
    now: Timestamp,
)
    requires
        update_refusal(caller, Some(existing), permission, payload) is None,
        scheduler::schedule_fault(existing.cron_schedule@) is None,
    ensures
        scheduler::schedule_fault(updated_task(existing, payload, now).cron_schedule@) is None,
        updated_task(existing, payload, now).mode == existing.mode,
        updated_task(existing, payload, now).last_sync_at == existing.last_sync_at,
        updated_task(existing, payload, now).id == existing.id,
        updated_task(existing, payload, now).owner_key_id == existing.owner_key_id,
{
}

/// A change makes exactly what it names: every value that it gives is the row's afterwards, and every
/// other value is as it was.
pub proof fn law_changes_are_made_as_asked(
    existing: vault_sync_task::Model,
    payload: UpdateVaultSyncTaskPayload,
    now: Timestamp,
)
    ensures
        ({
            let after = updated_task(existing, payload, now);
            &&& payload.name matches Some(v) ==> after.name == v
            &&& payload.name is None ==> after.name == existing.name
            &&& payload.source_vault_id matches Some(v) ==> after.source_vault_id == v
            &&& payload.source_vault_id is None ==> after.source_vault_id == existing.source_vault_id
            &&& payload.source_group_name matches Some(v) ==> after.source_group_name == v
            &&& payload.source_group_name is None ==> after.source_group_name == existing.source_group_name
            &&& payload.target_group_name matches Some(v) ==> after.target_group_name == v
            &&& payload.target_group_name is None ==> after.target_group_name == existing.target_group_name
            &&& payload.cron_schedule matches Some(v) ==> after.cron_schedule == v
            &&& payload.cron_schedule is None ==> after.cron_schedule == existing.cron_schedule
            &&& payload.is_active matches Some(v) ==> after.is_active == v
            &&& payload.is_active is None ==> after.is_active == existing.is_active
            &&& after.id == existing.id
            &&& after.owner_key_id == existing.owner_key_id
            &&& after.last_sync_at == existing.last_sync_at
            &&& after.mode == existing.mode
            &&& after.created_at == existing.created_at
            &&& after.updated_at == now
        }),
{
}

/// A task is shown as it is stored, with its targets.
pub proof fn law_tasks_are_shown_as_they_are(m: vault_sync_task::Model, targets: Vec<TargetSpec>)
    ensures
        ({
            let r = shown_task(m, targets);
            &&& r.id == m.id
            &&& r.name == m.name
            &&& r.source_vault_id == m.source_vault_id
            &&& r.source_group_name == m.source_group_name
            &&& r.target_group_name == m.target_group_name
            &&& r.cron_schedule == m.cron_schedule
            &&& r.last_sync_at == m.last_sync_at
            &&& r.mode == m.mode
            &&& r.is_active == m.is_active
            &&& r.owner_key_id == m.owner_key_id
            &&& r.created_at == m.created_at
            &&& r.updated_at == m.updated_at
            &&& r.targets == targets
        }),
{
}

/// Whether a row is the task that was asked for: every value of the payload is the row's, the caller
/// owns it, it upserts, and it has not run.
pub open spec fn is_created_task(
    row: vault_sync_task::Model,
    caller: api_key::Model,
    payload: CreateVaultSyncTaskPayload,
    id: u128,
    now: Timestamp,
) -> bool {
    &&& row.id == id
    &&& row.name == payload.name
    &&& row.source_vault_id == payload.source_vault_id
    &&& row.source_group_name == payload.source_group_name
    &&& row.target_group_name == payload.target_group_name
    &&& row.cron_schedule == payload.cron_schedule
    &&& row.last_sync_at is None
    &&& row.mode@ == BatchMode::Upsert.text()
    &&& row.is_active == payload.is_active
    &&& row.owner_key_id == Some(caller.id)
    &&& row.created_at == now
    &&& row.updated_at == now
}

/// A task is created as it was asked for, and always upserts: no task ever replaces what its targets
/// hold.
pub proof fn law_tasks_are_created_as_asked(
    row: vault_sync_task::Model,
    caller: api_key::Model,
    payload: CreateVaultSyncTaskPayload,
    id: u128,
    now: Timestamp,
)
    requires
        is_created_task(row, caller, payload, id, now),
    ensures
        row.id == id && row.owner_key_id == Some(caller.id) && row.last_sync_at is None,
        row.name == payload.name,
        row.source_vault_id == payload.source_vault_id,
        row.source_group_name == payload.source_group_name,
        row.target_group_name == payload.target_group_name,
        row.cron_schedule == payload.cron_schedule,
        row.is_active == payload.is_active,
        row.created_at == now && row.updated_at == now,
        row.mode@ == seq!['u', 'p', 's', 'e', 'r', 't'],
{
    reveal_strlit("upsert");
    assert("upsert"@ =~= seq!['u', 'p', 's', 'e', 'r', 't']);
}

/// Every target is stored under its task, with its vault and its own group.
pub proof fn law_targets_are_stored_as_asked(task_id: u128, target: TargetSpec)
    ensures
        target_row(task_id, target).vault_sync_task_id == task_id,
        target_row(task_id, target).target_vault_id == target.vault_endpoint_id,
        target_row(task_id, target).target_group_name == target.target_group_name,
{
}

/// A task may be created by the Master and by whoever holds the right to register vaults, on a
/// schedule that can be scheduled; and by nobody else and in no other way.
pub proof fn law_who_creates_tasks(caller: api_key::Model, payload: CreateVaultSyncTaskPayload)
    ensures
        creation_refusal(caller, payload) is None <==> (caller.is_master
            || caller.can_manage_vaults) && scheduler::schedule_fault(payload.cron_schedule@)
            is None,
        !(caller.is_master || caller.can_manage_vaults) ==> creation_refusal(caller, payload)
            matches Some(AppFault::Forbidden(_)),
{
}

/// A change of a task is accepted from whoever may change it, if its schedule is valid, and from
/// nobody else; a task that is not there is not found.
pub proof fn law_who_changes_tasks(
    caller: api_key::Model,
    existing: vault_sync_task::Model,
    permission: Option<&api_key_sync_permission::Model>,
    payload: UpdateVaultSyncTaskPayload,
)
    ensures
        update_refusal(caller, None, permission, payload) == Some(AppFault::NotFound),
        update_refusal(caller, Some(existing), permission, payload) is None <==> {
            &&& caller.is_master || (caller.can_manage_keys && permission is Some
                && permission->0.can_manage)
            &&& payload.name is Some && payload.name->0@ != existing.name@ ==> caller.is_master
                || existing.owner_key_id == Some(caller.id)
            &&& payload.cron_schedule is Some ==> scheduler::schedule_fault(
                payload.cron_schedule->0@,
            ) is None
        },
{
}

/// What stands against a new task, or a change of one, is said.
pub proof fn law_refusals_say_why(
    caller: api_key::Model,
    created: CreateVaultSyncTaskPayload,
    permission: Option<&api_key_sync_permission::Model>,
    changed: UpdateVaultSyncTaskPayload,
)
    ensures
        !guards::may_create(caller, caller.can_manage_vaults) ==> creation_refusal(caller, created)
            == Some(AppFault::Forbidden("missing the resource-creation right for this action"@)),
        update_refusal(caller, None, permission, changed) == Some(AppFault::NotFound),
{
}

} // verus!
