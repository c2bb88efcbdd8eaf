//! What the three kinds of resources (external sources, sync tasks, vault endpoints) share.

use vstd::prelude::*;

use crate::api::guards;
use crate::api::guards::{guard_resource_lifecycle, guard_resource_manage};
use crate::api::support;
use crate::entities::{api_key, api_key_sync_permission};
use crate::error::{AppError, AppFault};
use crate::jobs::{try_start_job, JobGuard, JobSummary, RunningJobs};
use crate::json::{Json, JsonValue};
use crate::scheduler;
use crate::text;
use crate::time::Timestamp;

verus! {

/// Whether a resource is visible to the caller: to the Master, to its owner, and to every key that
/// holds a permission row on it.
pub open spec fn is_visible(
    caller: api_key::Model,
    owner_key_id: Option<u128>,
    has_permission: bool,
) -> bool {
    caller.is_master || owner_key_id == Some(caller.id) || has_permission
}

/// Whether a resource is visible to the caller.
pub fn visible_to(caller: &api_key::Model, owner_key_id: Option<u128>, has_permission: bool) -> (b:
    bool)
    ensures
        b == is_visible(*caller, owner_key_id, has_permission),
{
    let owns = match owner_key_id {
        Some(owner) => owner == caller.id,
        None => false,
    };
    caller.is_master || owns || has_permission
}

/// Whether `row` gives a key every right on a resource.
pub open spec fn is_full_permission(
    row: api_key_sync_permission::Model,
    id: u128,
    api_key_id: u128,
    resource_type: Seq<char>,
    resource_id: u128,
    now: Timestamp,
) -> bool {
    &&& row.id == id
    &&& row.api_key_id == api_key_id
    &&& row.resource_type@ == resource_type
    &&& row.resource_id == resource_id
    &&& row.can_sync
    &&& row.can_manage
    &&& row.can_view_logs
    &&& row.created_at == now
}

/// Whether a payload renames a resource.
pub open spec fn renames(new_name: Option<String>, name: String) -> bool {
    new_name matches Some(n) && n@ != name@
}

/// Whether a payload renames a resource.
pub fn is_rename(new_name: &Option<String>, name: &String) -> (b: bool)
    ensures
        b == renames(*new_name, *name),
{
    match new_name {
        Some(n) => !text::same_text(n.as_str(), name.as_str()),
        None => false,
    }
}

/// What stands against changing a resource, if anything: managing it takes the right to manage it,
/// and renaming it takes lifecycle authority as well.
pub open spec fn change_refusal(
    caller: api_key::Model,
    owner_key_id: Option<u128>,
    permission: Option<&api_key_sync_permission::Model>,
    renaming: bool,
) -> Option<AppFault> {
    if !guards::may_manage(caller, permission) {
        Some(
            AppFault::Forbidden(
                "managing this resource requires can_manage_keys and a can_manage grant on it (RBAC R2)"@,
            ),
        )
    } else if renaming && !guards::may_end(caller, owner_key_id) {
        Some(
            AppFault::Forbidden(
                "only the Master key or this resource's owner may delete or rename it (RBAC §3)"@,
            ),
        )
    } else {
        None
    }
}

/// Checks whether the caller may change a resource.
pub fn check_change(
    caller: &api_key::Model,
    owner_key_id: Option<u128>,
    permission: Option<&api_key_sync_permission::Model>,
    renaming: bool,
) -> (r: Result<(), AppError>)
    ensures
        match change_refusal(*caller, owner_key_id, permission, renaming) {
            Some(fault) => r is Err && r->Err_0@ == fault,
            None => r is Ok,
        },
{
    match guard_resource_manage(caller, permission) {
        Ok(_) => {},
        Err(e) => return Err(e),
    }
    if renaming {
        return guard_resource_lifecycle(caller, owner_key_id);
    }
    Ok(())
}

/// The right to manage a resource does not reach its name or its end: without lifecycle authority,
/// nobody renames it.
pub proof fn law_managers_cannot_rename(
    caller: api_key::Model,
    owner_key_id: Option<u128>,
    permission: Option<&api_key_sync_permission::Model>,
)
    requires
        !guards::may_end(caller, owner_key_id),
    ensures
        change_refusal(caller, owner_key_id, permission, true) is Some,
{
}

/// Whoever creates a resource owns it and holds every right on it: the creator sees it, triggers
/// it, reads its logs and ends it.
pub proof fn law_creator_holds_every_right(
    caller: api_key::Model,
    permission: api_key_sync_permission::Model,
    permission_id: u128,
    resource_type: Seq<char>,
    resource_id: u128,
    now: Timestamp,
)
    requires
        is_full_permission(permission, permission_id, caller.id, resource_type, resource_id, now),
    ensures
        is_visible(caller, Some(caller.id), true),
        guards::may_sync(caller, Some(&permission)),
        guards::holds_view_logs(Some(&permission)),
        guards::holds_manage(Some(&permission)),
        guards::may_end(caller, Some(caller.id)),
{
}

/// What stands against a schedule in a payload, if anything.
pub open spec fn cron_refusal(cron_schedule: Seq<char>) -> Option<AppFault> {
    match scheduler::schedule_fault(cron_schedule) {
        Some(fault) => Some(AppFault::InvalidInput("invalid cron_schedule: "@ + fault)),
        None => None,
    }
}

/// Checks a schedule in a payload.
pub fn check_cron(cron_schedule: &str) -> (r: Result<(), AppError>)
    ensures
        match cron_refusal(cron_schedule@) {
            Some(fault) => r is Err && r->Err_0@ == fault,
            None => r is Ok,
        },
{
    match scheduler::validate_cron_expression(cron_schedule) {
        Ok(_) => Ok(()),
        Err(fault) => Err(
            AppError::InvalidInput(text::concat("invalid cron_schedule: ", fault.as_str())),
        ),
    }
}

/// Starts a run on demand: the caller must hold `can_sync` on the resource, and no other run of it
/// may be in progress.
pub(crate) fn start_run(
    caller: &api_key::Model,
    permission: Option<&api_key_sync_permission::Model>,
    id: u128,
    jobs: &mut RunningJobs,
    kind: &str,
) -> (r: Result<JobGuard, AppError>)
    ensures
        final(jobs)@ == if r is Ok {
            old(jobs)@.insert(id)
        } else {
            old(jobs)@
        },
        match run_refusal(*caller, permission, old(jobs)@.contains(id), kind@) {
            Some(fault) => r is Err && r->Err_0@ == fault,
            None => r is Ok && r->Ok_0.resource() == id,
        },
{
    match guards::guard_can_sync(caller, permission) {
        Ok(_) => {},
        Err(e) => return Err(e),
    }
    match try_start_job(jobs, id) {
        Some(guard) => Ok(guard),
        None => {
            assert(old(jobs)@.insert(id) =~= old(jobs)@);
            Err(
                AppError::Conflict(
                    text::concat3("a sync for this ", kind, " is already in progress"),
                ),
            )
        },
    }
}

/// What stands against a run on demand of a resource of a kind, if anything.
pub open spec fn run_refusal(
    caller: api_key::Model,
    permission: Option<&api_key_sync_permission::Model>,
    is_running: bool,
    kind: Seq<char>,
) -> Option<AppFault> {
    if !guards::may_sync(caller, permission) {
        Some(AppFault::Forbidden("missing can_sync permission on this resource"@))
    } else if is_running {
        Some(
            AppFault::Conflict("a sync for this "@ + kind + " is already in progress"@),
        )
    } else {
        None
    }
}

/// What a run on demand answers.
pub open spec fn summary_json(summary: JobSummary) -> Json {
    Json::Object(
        seq![
            ("status"@, Json::Text(summary.status@)),
            ("items_processed"@, Json::Number(text::signed_decimal(summary.items_processed as int))),
            ("chunks_sent"@, Json::Number(text::signed_decimal(summary.chunks_sent as int))),
            ("duration_ms"@, Json::Number(text::signed_decimal(summary.duration_ms as int))),
            (
                "error_message"@,
                match summary.error_message {
                    Some(m) => Json::Text(m@),
                    None => Json::Null,
                },
            ),
        ],
    )
}

/// What a run on demand answers.
pub fn summary_body(summary: JobSummary) -> (r: JsonValue)
    ensures
        r@ == summary_json(summary),
{
    let error_message = match summary.error_message {
        Some(m) => JsonValue::Text(m),
        None => JsonValue::Null,
    };
    let mut entries: Vec<(String, JsonValue)> = Vec::new();
    entries.push(("status".to_owned(), JsonValue::Text(summary.status.to_owned())));
    entries.push(
        (
            "items_processed".to_owned(),
            JsonValue::Number(text::signed_string(summary.items_processed as i64)),
        ),
    );
    entries.push(
        (
            "chunks_sent".to_owned(),
            JsonValue::Number(text::signed_string(summary.chunks_sent as i64)),
        ),
    );
    entries.push(
        (
            "duration_ms".to_owned(),
            JsonValue::Number(text::signed_string(summary.duration_ms as i64)),
        ),
    );
    entries.push(("error_message".to_owned(), error_message));
    let r = JsonValue::Object(entries);
    proof {
        reveal_with_fuel(<JsonValue as View>::view, 2);
        assert(r@->Object_0 =~= summary_json(summary)->Object_0);
    }
    r
}

/// The Master sees every resource, an owner those it owns, the holder of a permission row those it
/// holds one on, and nobody sees any other.
pub proof fn law_who_sees_a_resource(
    caller: api_key::Model,
    owner_key_id: Option<u128>,
    has_permission: bool,
)
    ensures
        caller.is_master ==> is_visible(caller, owner_key_id, has_permission),
        owner_key_id == Some(caller.id) ==> is_visible(caller, owner_key_id, has_permission),
        has_permission ==> is_visible(caller, owner_key_id, has_permission),
        !caller.is_master && owner_key_id != Some(caller.id) && !has_permission ==> !is_visible(
            caller,
            owner_key_id,
            has_permission,
        ),
{
}

/// A name is changed by naming another, and by nothing else.
pub proof fn law_what_renames(new_name: Option<String>, name: String)
    ensures
        new_name is None ==> !renames(new_name, name),
        new_name matches Some(n) ==> (renames(new_name, name) <==> n@ != name@),
{
}

/// Whoever manages a resource may change it without renaming it, and whoever also has authority over
/// its life may rename it; nobody else may.
pub proof fn law_who_changes_a_resource(
    caller: api_key::Model,
    owner_key_id: Option<u128>,
    permission: Option<&api_key_sync_permission::Model>,
)
    ensures
        change_refusal(caller, owner_key_id, permission, false) is None <==> caller.is_master || (
        caller.can_manage_keys && permission is Some && permission->0.can_manage),
        change_refusal(caller, owner_key_id, permission, true) is None <==> caller.is_master || (
        caller.can_manage_keys && permission is Some && permission->0.can_manage && owner_key_id
            == Some(caller.id)),
        change_refusal(caller, owner_key_id, permission, false) matches Some(fault)
            ==> fault is Forbidden,
        change_refusal(caller, owner_key_id, permission, true) matches Some(fault)
            ==> fault is Forbidden,
{
}

/// A run on demand takes the right to trigger and an idle resource, and nothing else.
pub proof fn law_who_runs_a_resource(
    caller: api_key::Model,
    permission: Option<&api_key_sync_permission::Model>,
    is_running: bool,
    kind: Seq<char>,
)
    ensures
        run_refusal(caller, permission, is_running, kind) is None <==> !is_running && (
        caller.is_master || (permission is Some && permission->0.can_sync)),
        !caller.is_master && !(permission is Some && permission->0.can_sync) ==> run_refusal(
            caller,
            permission,
            is_running,
            kind,
        ) matches Some(AppFault::Forbidden(_)),
        (caller.is_master || (permission is Some && permission->0.can_sync)) && is_running
            ==> run_refusal(caller, permission, is_running, kind) matches Some(
            AppFault::Conflict(_),
        ),
{
}

/// A schedule is refused exactly where the scheduler has something against it, and as invalid input.
pub proof fn law_bad_schedules_are_invalid_input(cron_schedule: Seq<char>)
    ensures
        cron_refusal(cron_schedule) is None <==> scheduler::schedule_fault(cron_schedule) is None,
        cron_refusal(cron_schedule) matches Some(fault) ==> fault is InvalidInput,
{
}

/// What a run on demand answers gives each figure of the summary under its own name.
pub proof fn law_summaries_are_answered_in_full(summary: JobSummary)
    ensures
        summary_json(summary) is Object,
        summary_json(summary).field("status"@) == Some(Json::Text(summary.status@)),
        summary_json(summary).field("items_processed"@) == Some(
            Json::Number(text::signed_decimal(summary.items_processed as int)),
        ),
        summary_json(summary).field("chunks_sent"@) == Some(
            Json::Number(text::signed_decimal(summary.chunks_sent as int)),
        ),
        summary_json(summary).field("duration_ms"@) == Some(
            Json::Number(text::signed_decimal(summary.duration_ms as int)),
        ),
        summary.error_message matches Some(m) ==> summary_json(summary).field("error_message"@)
            == Some(Json::Text(m@)),
        summary.error_message is None ==> summary_json(summary).field("error_message"@) == Some(
            Json::Null,
        ),
{
    reveal_strlit("status");
    reveal_strlit("items_processed");
    reveal_strlit("chunks_sent");
    reveal_strlit("duration_ms");
    reveal_strlit("error_message");
    assert("status"@.len() == 6 && "items_processed"@.len() == 15 && "chunks_sent"@.len() == 11
        && "duration_ms"@.len() == 11 && "error_message"@.len() == 13);
    assert("chunks_sent"@[0] == 'c' && "duration_ms"@[0] == 'd');
    let json = summary_json(summary);
    crate::json::law_fields_are_found(json, "status"@, 0);
    crate::json::law_fields_are_found(json, "items_processed"@, 1);
    crate::json::law_fields_are_found(json, "chunks_sent"@, 2);
    crate::json::law_fields_are_found(json, "duration_ms"@, 3);
    crate::json::law_fields_are_found(json, "error_message"@, 4);
}

/// What stands against a change, a run or a schedule is said.
pub proof fn law_refusals_say_why(
    caller: api_key::Model,
    owner_key_id: Option<u128>,
    permission: Option<&api_key_sync_permission::Model>,
    renaming: bool,
    is_running: bool,
    kind: Seq<char>,
    cron_schedule: Seq<char>,
    fault: Seq<char>,
)
    ensures
        !guards::may_manage(caller, permission) ==> change_refusal(
            caller,
            owner_key_id,
            permission,
            renaming,
        ) == Some(
            AppFault::Forbidden(
                "managing this resource requires can_manage_keys and a can_manage grant on it (RBAC R2)"@,
            ),
        ),
        guards::may_manage(caller, permission) && renaming && !guards::may_end(caller, owner_key_id)
            ==> change_refusal(caller, owner_key_id, permission, renaming) == Some(
            AppFault::Forbidden(
                "only the Master key or this resource's owner may delete or rename it (RBAC §3)"@,
            ),
        ),
        !guards::may_sync(caller, permission) ==> run_refusal(caller, permission, is_running, kind)
            == Some(AppFault::Forbidden("missing can_sync permission on this resource"@)),
        guards::may_sync(caller, permission) && is_running ==> run_refusal(
            caller,
            permission,
            is_running,
            kind,
        ) == Some(AppFault::Conflict("a sync for this "@ + kind + " is already in progress"@)),
        scheduler::schedule_fault(cron_schedule) == Some(fault) ==> cron_refusal(cron_schedule)
            == Some(AppFault::InvalidInput("invalid cron_schedule: "@ + fault)),
{
}

/// Whoever creates a resource is found to hold every right on it, and on no other.
pub proof fn law_creators_hold_every_right(
    row: api_key_sync_permission::Model,
    id: u128,
    api_key_id: u128,
    resource_type: Seq<char>,
    resource_id: u128,
    now: Timestamp,
    other: u128,
)
    requires
        is_full_permission(row, id, api_key_id, resource_type, resource_id, now),
    ensures
        ({
            let held = support::permission_on(seq![row], api_key_id, resource_type, resource_id);
            held is Some && held->0.can_sync && held->0.can_manage && held->0.can_view_logs
        }),
        other != resource_id ==> support::permission_on(seq![row], api_key_id, resource_type, other) is None,
        other != api_key_id ==> support::permission_on(seq![row], other, resource_type, resource_id) is None,
        row.id == id,
        row.created_at == now,
{
    reveal_with_fuel(support::permission_on, 2);
    assert(seq![row].drop_last() =~= Seq::<api_key_sync_permission::Model>::empty());
    assert(seq![row].drop_first() =~= Seq::<api_key_sync_permission::Model>::empty());
}

} // verus!
