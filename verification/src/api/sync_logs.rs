//! The execution history of feed ingestion and inter-vault sync jobs.

use vstd::prelude::*;

use crate::api::guards::guard_can_view_logs;
use crate::api::support;
use crate::api::support::{find_permission, RESOURCE_EXTERNAL_SOURCE, RESOURCE_SYNC_TASK};
use crate::entities::{api_key, api_key_sync_permission, sync_log};
use crate::text;

verus! {

/// Which rows of the history are asked for.
#[derive(Debug)]
pub struct SyncLogQuery {
    /// Only this job type: `"EXTERNAL_FEED"` or `"VAULT_SYNC"`.
    pub job_type: Option<String>,
    /// Only this external source or sync task.
    pub job_id: Option<u128>,
    /// Most rows to return.
    pub limit: Option<u64>,
    /// Rows to skip.
    pub offset: Option<u64>,
}

/// Rows returned where a query does not say how many.
pub const DEFAULT_PAGE_ROWS: u64 = 100;

/// Most rows ever returned.
pub const MAX_PAGE_ROWS: u64 = 1_000;

/// How many rows a query is given.
pub open spec fn page_rows(limit: Option<u64>) -> u64 {
    let asked = support::or_kept(limit, DEFAULT_PAGE_ROWS);
    if asked <= MAX_PAGE_ROWS {
        asked
    } else {
        MAX_PAGE_ROWS
    }
}

/// How many rows to return, and how many to skip.
pub fn page(limit: Option<u64>, offset: Option<u64>) -> (r: (u64, u64))
    ensures
        r.0 == page_rows(limit),
        r.1 == support::or_kept(offset, 0),
        r.0 <= MAX_PAGE_ROWS,
{
    let asked: u64 = support::or_keep(limit, DEFAULT_PAGE_ROWS);
    let rows: u64 = if asked <= MAX_PAGE_ROWS {
        asked
    } else {
        MAX_PAGE_ROWS
    };
    (rows, support::or_keep(offset, 0))
}

/// The resource type that a job type runs on.
pub open spec fn job_resource(job_type: Seq<char>) -> Option<Seq<char>> {
    if job_type == "EXTERNAL_FEED"@ {
        Some(RESOURCE_EXTERNAL_SOURCE@)
    } else if job_type == "VAULT_SYNC"@ {
        Some(RESOURCE_SYNC_TASK@)
    } else {
        None
    }
}

/// The resource type that a job type runs on.
pub fn resource_type_for(job_type: &str) -> (r: Option<&'static str>)
    ensures
        text::optional(r) == job_resource(job_type@),
{
    if text::same_text(job_type, "EXTERNAL_FEED") {
        Some(RESOURCE_EXTERNAL_SOURCE)
    } else if text::same_text(job_type, "VAULT_SYNC") {
        Some(RESOURCE_SYNC_TASK)
    } else {
        None
    }
}

/// Whether the caller may read a row: the Master reads every row, every other key those of the
/// resources it holds `can_view_logs` on.
pub open spec fn may_read(
    caller: api_key::Model,
    permissions: Seq<api_key_sync_permission::Model>,
    row: sync_log::Model,
) -> bool {
    caller.is_master || match job_resource(row.job_type@) {
        Some(resource_type) => match support::permission_on(
            permissions,
            caller.id,
            resource_type,
            row.job_id,
        ) {
            Some(permission) => permission.can_view_logs,
            None => false,
        },
        None => false,
    }
}

/// The rows that the caller may read, in order. `permissions` are the caller's permission rows.
pub fn list_sync_logs(
    caller: &api_key::Model,
    permissions: &Vec<api_key_sync_permission::Model>,
    rows: Vec<sync_log::Model>,
) -> (r: Vec<sync_log::Model>)
    ensures
        r@ == rows@.filter(|row: sync_log::Model| may_read(*caller, permissions@, row)),
{
    let ghost all = rows@;
    let ghost readable = |row: sync_log::Model| may_read(*caller, permissions@, row);
    let mut r: Vec<sync_log::Model> = Vec::new();
    proof {
        reveal(Seq::filter);
        assert(r@ =~= all.take(0).filter(readable));
    }
    for row in it: rows
        invariant
            it.seq() == all,
            readable == (|row: sync_log::Model| may_read(*caller, permissions@, row)),
            r@ == all.take(it.index()).filter(readable),
    {
        let ghost i = it.index();
        proof {
            reveal(Seq::filter);
            assert(all.take(i + 1).drop_last() =~= all.take(i));
            assert(all.take(i + 1).last() == row);
        }
        let visible = if caller.is_master {
            true
        } else {
            match resource_type_for(row.job_type.as_str()) {
                Some(resource_type) => guard_can_view_logs(
                    caller,
                    find_permission(permissions, caller.id, resource_type, row.job_id),
                ),
                None => false,
            }
        };
        if visible {
            r.push(row);
        }
    }
    assert(all.take(all.len() as int) =~= all);
    r
}

/// A key without any permission row reads nothing of the history, unless it is the Master.
pub proof fn law_no_permission_no_history(caller: api_key::Model, row: sync_log::Model)
    ensures
        may_read(caller, Seq::empty(), row) == caller.is_master,
{
}

/// A page has as many rows as were asked for, a hundred where nothing was asked, and never more than a
/// thousand.
pub proof fn law_pages_are_as_asked(limit: Option<u64>)
    ensures
        limit is None ==> page_rows(limit) == 100,
        limit matches Some(n) ==> n <= 1_000 ==> page_rows(limit) == n,
        limit matches Some(n) ==> n > 1_000 ==> page_rows(limit) == 1_000,
{
}

/// A row of the history is read by the Master, and by a key that holds a permission row with the right
/// to view logs on the source or task that ran; and by nobody else.
pub proof fn law_who_reads_the_history(
    caller: api_key::Model,
    permissions: Seq<api_key_sync_permission::Model>,
    row: sync_log::Model,
)
    ensures
        caller.is_master ==> may_read(caller, permissions, row),
        !caller.is_master && may_read(caller, permissions, row) ==> exists|i: int|
            0 <= i < permissions.len() && (#[trigger] permissions[i]).api_key_id == caller.id
                && permissions[i].resource_id == row.job_id && permissions[i].can_view_logs && ((
            row.job_type@ == "EXTERNAL_FEED"@ && permissions[i].resource_type@
                == RESOURCE_EXTERNAL_SOURCE@) || (row.job_type@ == "VAULT_SYNC"@
                && permissions[i].resource_type@ == RESOURCE_SYNC_TASK@)),
        row.job_type@ == "EXTERNAL_FEED"@ && !caller.is_master ==> ({
            let held = support::permission_on(
                permissions,
                caller.id,
                RESOURCE_EXTERNAL_SOURCE@,
                row.job_id,
            );
            may_read(caller, permissions, row) <==> held is Some && held->0.can_view_logs
        }),
        row.job_type@ == "VAULT_SYNC"@ && !caller.is_master ==> ({
            let held = support::permission_on(
                permissions,
                caller.id,
                RESOURCE_SYNC_TASK@,
                row.job_id,
            );
            may_read(caller, permissions, row) <==> held is Some && held->0.can_view_logs
        }),
{
    reveal_strlit("EXTERNAL_FEED");
    reveal_strlit("VAULT_SYNC");
    assert("EXTERNAL_FEED"@.len() != "VAULT_SYNC"@.len());
    support::law_permissions_are_found(
        permissions,
        caller.id,
        RESOURCE_EXTERNAL_SOURCE@,
        row.job_id,
    );
    support::law_permissions_are_found(permissions, caller.id, RESOURCE_SYNC_TASK@, row.job_id);
}

/// A feed runs on a source and a sync on a task; no other job runs on anything.
pub proof fn law_what_jobs_run_on(job_type: Seq<char>)
    ensures
        job_resource("EXTERNAL_FEED"@) == Some("external_source"@),
        job_resource("VAULT_SYNC"@) == Some("sync_task"@),
        job_type != "EXTERNAL_FEED"@ && job_type != "VAULT_SYNC"@ ==> job_resource(
            job_type,
        ) is None,
{
    reveal_strlit("EXTERNAL_FEED");
    reveal_strlit("VAULT_SYNC");
    assert("EXTERNAL_FEED"@.len() != "VAULT_SYNC"@.len());
}

} // verus!
