//! Inter-vault delta replication: fetch a source vault's delta, tombstones included, since the
//! task's high-water mark, chunk it, and push it to every configured target vault.

use vstd::prelude::*;

use crate::client::{BatchRecordInput, ClientError, IpRecordResponse};
use crate::entities::vault_sync_task;
use crate::jobs::JobSummary;
use crate::text;
use crate::time::Timestamp;

verus! {

/// The record that a delta record is sent on as. Tombstones stay tombstones.
pub open spec fn replicated(record: IpRecordResponse) -> BatchRecordInput {
    BatchRecordInput {
        target_address: record.target_address,
        cause: record.cause,
        is_deleted: Some(record.is_deleted),
        created_at: record.created_at,
        updated_at: record.updated_at,
        last_seen_at: record.last_seen_at,
        deleted_at: record.deleted_at,
    }
}

/// The records that a delta is sent on as, in the same order.
pub fn replicate(delta: Vec<IpRecordResponse>) -> (records: Vec<BatchRecordInput>)
    ensures
        records@ == delta@.map_values(|record: IpRecordResponse| replicated(record)),
        records@.len() == delta@.len(),
        forall|i: int|
            0 <= i < delta@.len() ==> (#[trigger] records@[i]).target_address
                == delta@[i].target_address && records@[i].is_deleted == Some(
                delta@[i].is_deleted,
            ),
{
    let ghost all = delta@;
    let mut records: Vec<BatchRecordInput> = Vec::new();
    for record in it: delta
        invariant
            it.seq() == all,
            records@ == all.take(it.index()).map_values(
                |record: IpRecordResponse| replicated(record),
            ),
    {
        let ghost i = it.index();
        records.push(
            BatchRecordInput {
                target_address: record.target_address,
                cause: record.cause,
                is_deleted: Some(record.is_deleted),
                created_at: record.created_at,
                updated_at: record.updated_at,
                last_seen_at: record.last_seen_at,
                deleted_at: record.deleted_at,
            },
        );
        assert(records@ =~= all.take(i + 1).map_values(
            |record: IpRecordResponse| replicated(record),
        ));
    }
    assert(all.take(all.len() as int) =~= all);
    records
}

/// The outcome where the source vault no longer exists.
pub fn source_missing(duration_ms: u64) -> (r: JobSummary)
    ensures
        r.status@ == "FAILED"@,
        r.items_processed == 0,
        r.chunks_sent == 0,
        r.duration_ms == duration_ms as i32,
        r.error_message is Some,
        r.error_message->0@ == "source vault endpoint no longer exists"@,
{
    JobSummary::failed("source vault endpoint no longer exists".to_owned(), duration_ms)
}

/// The outcome where the delta could not be fetched.
pub fn delta_failed(source_name: &str, e: &ClientError, duration_ms: u64) -> (r: JobSummary)
    ensures
        r.status@ == "FAILED"@,
        r.items_processed == 0,
        r.chunks_sent == 0,
        r.duration_ms == duration_ms as i32,
        r.error_message is Some,
        r.error_message->0@ == "delta fetch from '"@ + source_name@ + "' failed: "@ + e@.text(),
{
    let head = text::concat3("delta fetch from '", source_name, "' failed: ");
    JobSummary::failed(text::concat(head.as_str(), e.message().as_str()), duration_ms)
}

/// The task after a run that started at `started_at`.
pub open spec fn after_run(
    task: vault_sync_task::Model,
    started_at: Timestamp,
    all_targets_succeeded: bool,
) -> vault_sync_task::Model {
    if all_targets_succeeded {
        vault_sync_task::Model { last_sync_at: Some(started_at), ..task }
    } else {
        task
    }
}

/// The task after a run. The high-water mark advances only where every target succeeded: a partial
/// delivery must not skip the undelivered records on the next run.
pub fn record_run(
    task: vault_sync_task::Model,
    started_at: Timestamp,
    all_targets_succeeded: bool,
) -> (r: vault_sync_task::Model)
    ensures
        r == after_run(task, started_at, all_targets_succeeded),
{
    if all_targets_succeeded {
        vault_sync_task::Model { last_sync_at: Some(started_at), ..task }
    } else {
        task
    }
}

/// The high-water mark moves only where every target got everything, and nothing else of a task
/// ever changes by a run.
pub proof fn law_high_water_mark_waits_for_every_target(
    task: vault_sync_task::Model,
    started_at: Timestamp,
    all_targets_succeeded: bool,
)
    ensures
        !all_targets_succeeded ==> after_run(task, started_at, all_targets_succeeded) == task,
        all_targets_succeeded ==> after_run(task, started_at, all_targets_succeeded).last_sync_at
            == Some(started_at),
        after_run(task, started_at, all_targets_succeeded) == (vault_sync_task::Model {
            last_sync_at: after_run(task, started_at, all_targets_succeeded).last_sync_at,
            ..task
        }),
{
}

/// Replication sends every record of a delta on, in its place and as it is: what is live at the
/// source is sent as live and a tombstone as a tombstone, and the address, the cause and the four
/// times are those of the record.
pub proof fn law_replication_sends_records_as_they_are(
    delta: Seq<IpRecordResponse>,
    records: Seq<BatchRecordInput>,
    i: int,
)
    requires
        records == delta.map_values(|record: IpRecordResponse| replicated(record)),
        0 <= i < delta.len(),
    ensures
        records.len() == delta.len(),
        records[i].target_address == delta[i].target_address,
        records[i].cause == delta[i].cause,
        delta[i].is_deleted ==> records[i].is_deleted == Some(true),
        !delta[i].is_deleted ==> records[i].is_deleted == Some(false),
        records[i].created_at == delta[i].created_at,
        records[i].updated_at == delta[i].updated_at,
        records[i].last_seen_at == delta[i].last_seen_at,
        records[i].deleted_at == delta[i].deleted_at,
{
}

} // verus!
