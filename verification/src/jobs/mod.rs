//! Background execution pipelines: external feed ingestion and inter-vault delta replication.

use std::collections::HashSet;

use vstd::prelude::*;

use crate::client::BatchMode;
use crate::entities::sync_log;
use crate::time::Timestamp;

pub mod decompress;
pub mod delivery;
pub mod external_ingestion;
pub mod vault_sync;

verus! {

broadcast use vstd::std_specs::hash::group_hash_axioms;

/// The ids of the resources with a job in flight. Prevents two overlapping executions of the same
/// resource from pushing interleaved batches to the same target group.
pub struct RunningJobs {
    ids: HashSet<u128>,
}

impl View for RunningJobs {
    type V = Set<u128>;

    closed spec fn view(&self) -> Set<u128> {
        self.ids@
    }
}

/// The right to run a job for one resource. There is one as long as the job is in flight.
#[derive(Debug)]
pub struct JobGuard {
    id: u128,
}

impl JobGuard {
    /// The resource that the job is for.
    pub closed spec fn resource(self) -> u128 {
        self.id
    }
}

impl RunningJobs {
    /// No job in flight.
    pub fn new() -> (jobs: Self)
        ensures
            jobs@ == Set::<u128>::empty(),
    {
        RunningJobs { ids: HashSet::new() }
    }

    /// Gives back a job's slot.
    pub fn release(&mut self, guard: JobGuard)
        ensures
            final(self)@ == old(self)@.remove(guard.resource()),
    {
        let _ = self.ids.remove(&guard.id);
    }
}

/// Attempts to claim the slot of `id`. Nothing if a job for it is already running.
pub fn try_start_job(jobs: &mut RunningJobs, id: u128) -> (r: Option<JobGuard>)
    ensures
        r is None <==> old(jobs)@.contains(id),
        final(jobs)@ == old(jobs)@.insert(id),
        r matches Some(guard) ==> guard.resource() == id,
{
    if jobs.ids.insert(id) {
        Some(JobGuard { id })
    } else {
        assert(jobs@ =~= old(jobs)@.insert(id));
        None
    }
}

/// Releasing a slot undoes claiming it, so that the resource can be claimed again, and no other
/// resource's slot is touched by either.
pub proof fn law_release_undoes_start(running: Set<u128>, id: u128, other: u128)
    requires
        !running.contains(id),
        other != id,
    ensures
        running.insert(id).contains(id),
        running.insert(id).remove(id) == running,
        running.insert(id).contains(other) == running.contains(other),
{
    assert(running.insert(id).remove(id) =~= running);
}

/// Most records in one batch.
pub const MAX_BATCH_SIZE: usize = 5_000;

/// `items` in pieces of `max`, the last one shorter if need be.
pub open spec fn chunked<T>(items: Seq<T>, max: nat) -> Seq<Seq<T>>
    decreases items.len(),
{
    if items.len() == 0 || max == 0 {
        Seq::empty()
    } else if items.len() <= max {
        seq![items]
    } else {
        seq![items.take(max as int)] + chunked(items.skip(max as int), max)
    }
}

/// The contents of a vector of vectors.
pub open spec fn contents<T>(chunks: Seq<Vec<T>>) -> Seq<Seq<T>> {
    Seq::new(chunks.len(), |i: int| chunks[i]@)
}

/// Splits `items` into chunks of at most `max` elements. An empty input yields no chunks.
pub fn chunk_records<T>(items: Vec<T>, max: usize) -> (chunks: Vec<Vec<T>>)
    ensures
        contents(chunks@) == chunked(items@, max as nat),
{
    let mut chunks: Vec<Vec<T>> = Vec::new();
    if max == 0 {
        assert(contents(chunks@) =~= chunked(items@, max as nat));
        return chunks;
    }
    let ghost all = items@;
    let mut rest = items;
    assert(contents(chunks@) + chunked(rest@, max as nat) =~= chunked(all, max as nat));
    while rest.len() > max
        invariant
            max > 0,
            contents(chunks@) + chunked(rest@, max as nat) == chunked(all, max as nat),
        decreases rest@.len(),
    {
        let ghost before = rest@;
        let ghost done = contents(chunks@);
        let tail = rest.split_off(max);
        assert(rest@ =~= before.take(max as int));
        assert(tail@ =~= before.skip(max as int));
        chunks.push(rest);
        assert(contents(chunks@) =~= done.push(before.take(max as int)));
        rest = tail;
        assert(contents(chunks@) + chunked(rest@, max as nat) =~= done + chunked(
            before,
            max as nat,
        ));
    }
    let ghost done = contents(chunks@);
    if rest.len() > 0 {
        let ghost last = rest@;
        chunks.push(rest);
        assert(contents(chunks@) =~= done.push(last));
        assert(done.push(last) =~= done + seq![last]);
    } else {
        assert(done + chunked(rest@, max as nat) =~= done);
    }
    chunks
}

/// Chunking loses nothing and reorders nothing: the chunks one after another are the items.
pub proof fn law_chunks_are_the_items<T>(items: Seq<T>, max: nat)
    requires
        max > 0,
    ensures
        chunked(items, max).flatten() == items,
    decreases items.len(),
{
    let chunks = chunked(items, max);
    if items.len() == 0 {
        assert(chunks.flatten() =~= items);
    } else if items.len() <= max {
        assert(chunks.drop_first() =~= Seq::empty());
        assert(chunks.drop_first().flatten() =~= Seq::empty());
        assert(chunks.flatten() =~= items);
    } else {
        law_chunks_are_the_items(items.skip(max as int), max);
        assert(chunks.drop_first() =~= chunked(items.skip(max as int), max));
        assert(chunks.flatten() =~= items.take(max as int) + items.skip(max as int));
        assert(items.take(max as int) + items.skip(max as int) =~= items);
    }
}

/// No chunk is empty or too long, and every chunk but the last is full.
pub proof fn law_chunks_are_full<T>(items: Seq<T>, max: nat, i: int)
    requires
        0 <= i < chunked(items, max).len(),
    ensures
        0 < chunked(items, max)[i].len() <= max,
        i < chunked(items, max).len() - 1 ==> chunked(items, max)[i].len() == max,
    decreases items.len(),
{
    if items.len() > max && i > 0 {
        let rest = chunked(items.skip(max as int), max);
        assert(chunked(items, max)[i] == rest[i - 1]);
        law_chunks_are_full(items.skip(max as int), max, i - 1);
    }
}

/// The mode of a chunk: the run's own mode for the first, and `Upsert` for every later one.
pub open spec fn chunk_mode(base_mode: BatchMode, chunk_index: nat) -> BatchMode {
    if chunk_index == 0 {
        base_mode
    } else {
        BatchMode::Upsert
    }
}

/// The mode that the chunk at `chunk_index` of one target's chunks is sent with. `FullReplace`
/// deletes whatever a batch does not name, so a later chunk sent with it would erase what the
/// earlier ones delivered.
pub fn mode_for_chunk_index(base_mode: BatchMode, chunk_index: usize) -> (mode: BatchMode)
    ensures
        mode == chunk_mode(base_mode, chunk_index as nat),
{
    if chunk_index == 0 {
        base_mode
    } else {
        BatchMode::Upsert
    }
}

/// Only the first chunk of a run can replace a group's contents.
pub proof fn law_only_the_first_chunk_replaces(base_mode: BatchMode, chunk_index: nat)
    ensures
        chunk_mode(base_mode, chunk_index) == BatchMode::FullReplace ==> chunk_index == 0
            && base_mode == BatchMode::FullReplace,
        chunk_mode(BatchMode::Upsert, chunk_index) == BatchMode::Upsert,
{
}

/// The outcome of one job execution.
#[derive(Debug)]
pub struct JobSummary {
    /// `"SUCCESS"`, `"PARTIAL"`, or `"FAILED"`.
    pub status: &'static str,
    /// Records parsed and sent.
    pub items_processed: i32,
    /// Batches delivered.
    pub chunks_sent: i32,
    /// Total processing time in milliseconds.
    pub duration_ms: i32,
    /// Error details, if any target failed or the fetch or parse step failed.
    pub error_message: Option<String>,
}

impl JobSummary {
    /// The outcome of an execution that failed before anything was delivered.
    pub fn failed(message: String, duration_ms: u64) -> (r: Self)
        ensures
            r.status@ == "FAILED"@,
            r.items_processed == 0,
            r.chunks_sent == 0,
            r.duration_ms == duration_ms as i32,
            r.error_message == Some(message),
    {
        JobSummary {
            status: "FAILED",
            items_processed: 0,
            chunks_sent: 0,
            duration_ms: #[verifier::truncate] (duration_ms as i32),
            error_message: Some(message),
        }
    }
}

/// Whether `row` is the log row of an execution.
pub open spec fn is_log_row(
    row: sync_log::Model,
    id: u128,
    job_type: Seq<char>,
    job_id: u128,
    job_name: Seq<char>,
    summary: JobSummary,
    started_at: Timestamp,
) -> bool {
    &&& row.id == id
    &&& row.job_type@ == job_type
    &&& row.job_id == job_id
    &&& row.job_name@ == job_name
    &&& row.status@ == summary.status@
    &&& row.items_processed == summary.items_processed
    &&& row.chunks_sent == summary.chunks_sent
    &&& row.duration_ms == summary.duration_ms
    &&& row.error_message == summary.error_message
    &&& row.timestamp == started_at
}

/// Two rows of one execution say the same, so that a row is decided by the job, its summary and its
/// start; and what a row says of the outcome is what the summary says.
pub proof fn law_the_log_says_what_happened(
    row: sync_log::Model,
    other: sync_log::Model,
    id: u128,
    job_type: Seq<char>,
    job_id: u128,
    job_name: Seq<char>,
    summary: JobSummary,
    started_at: Timestamp,
)
    requires
        is_log_row(row, id, job_type, job_id, job_name, summary, started_at),
        is_log_row(other, id, job_type, job_id, job_name, summary, started_at),
    ensures
        row.id == other.id && row.job_type@ == other.job_type@ && row.job_id == other.job_id
            && row.job_name@ == other.job_name@ && row.status@ == other.status@
            && row.items_processed == other.items_processed && row.chunks_sent == other.chunks_sent
            && row.duration_ms == other.duration_ms && row.error_message == other.error_message
            && row.timestamp == other.timestamp,
        row.job_type@ == job_type && row.job_id == job_id && row.job_name@ == job_name,
        row.status@ == summary.status@ && row.error_message == summary.error_message,
        row.items_processed == summary.items_processed && row.chunks_sent == summary.chunks_sent
            && row.duration_ms == summary.duration_ms,
        row.timestamp == started_at,
{
}

/// The log row of a completed job execution.
pub fn sync_log_row(
    id: u128,
    job_type: &str,
    job_id: u128,
    job_name: &str,
    summary: &JobSummary,
    started_at: Timestamp,
) -> (row: sync_log::Model)
    ensures
        row.id == id,
        row.job_type@ == job_type@,
        row.job_id == job_id,
        row.job_name@ == job_name@,
        row.status@ == summary.status@,
        row.items_processed == summary.items_processed,
        row.chunks_sent == summary.chunks_sent,
        row.duration_ms == summary.duration_ms,
        row.error_message == summary.error_message,
        row.timestamp == started_at,
        is_log_row(row, id, job_type@, job_id, job_name@, *summary, started_at),
{
    let error_message = match &summary.error_message {
        Some(m) => Some(m.clone()),
        None => None,
    };
    sync_log::Model {
        id,
        job_type: job_type.to_owned(),
        job_id,
        job_name: job_name.to_owned(),
        status: summary.status.to_owned(),
        items_processed: summary.items_processed,
        chunks_sent: summary.chunks_sent,
        duration_ms: summary.duration_ms,
        error_message,
        timestamp: started_at,
    }
}

/// The first chunk is sent in the mode of the run, and every later one upserts.
pub proof fn law_modes_of_chunks(base_mode: BatchMode, chunk_index: nat)
    ensures
        chunk_mode(base_mode, 0) == base_mode,
        chunk_index > 0 ==> chunk_mode(base_mode, chunk_index) == BatchMode::Upsert,
{
}

/// No batch holds more than five thousand records.
pub proof fn law_batches_are_small_enough<T>(items: Seq<T>, i: int)
    requires
        0 <= i < chunked(items, MAX_BATCH_SIZE as nat).len(),
    ensures
        chunked(items, MAX_BATCH_SIZE as nat)[i].len() <= 5_000,
{
    law_chunks_are_full(items, MAX_BATCH_SIZE as nat, i);
}

} // verus!
