//! Delivery of a run's chunks to its target vaults.
//!
//! The chunks go to one target after the other. A target whose vault no longer exists is an error;
//! a chunk that fails ends its target, and the next target is tried.

use vstd::prelude::*;

use crate::client::BatchMode;
use crate::entities::vault_endpoint;
use crate::ids;
use crate::jobs;
use crate::jobs::{mode_for_chunk_index, JobSummary};
use crate::text;

verus! {

/// One target of a delivery.
#[derive(Debug)]
pub struct DeliveryTarget {
    /// Id of the target vault.
    pub vault_id: u128,
    /// Name of the target vault, if it still exists.
    pub vault_name: Option<String>,
    /// Group that the records land in.
    pub group_name: String,
}

/// What a delivery needs to know of a target.
#[verifier::ext_equal]
pub struct TargetView {
    /// Id of the target vault.
    pub vault_id: u128,
    /// Name of the target vault, if it still exists.
    pub vault_name: Option<Seq<char>>,
    /// Group that the records land in.
    pub group_name: Seq<char>,
}

impl View for DeliveryTarget {
    type V = TargetView;

    open spec fn view(&self) -> TargetView {
        TargetView {
            vault_id: self.vault_id,
            vault_name: match self.vault_name {
                Some(name) => Some(name@),
                None => None,
            },
            group_name: self.group_name@,
        }
    }
}

/// A target with the name of its vault, if that still exists, and its group.
pub open spec fn target_of(
    vault_id: u128,
    vault_name: Option<Seq<char>>,
    own_group: Option<Seq<char>>,
    default_group: Seq<char>,
) -> TargetView {
    TargetView {
        vault_id,
        vault_name,
        group_name: match own_group {
            Some(group) => group,
            None => default_group,
        },
    }
}

/// Records land in the group of their target, or in the default where it has none; a target is that
/// of its vault, by name as long as the vault exists.
pub proof fn law_records_land_in_the_group_of_their_target(
    vault_id: u128,
    vault_name: Option<Seq<char>>,
    group: Seq<char>,
    default_group: Seq<char>,
)
    ensures
        target_of(vault_id, vault_name, Some(group), default_group).group_name == group,
        target_of(vault_id, vault_name, None, default_group).group_name == default_group,
        target_of(vault_id, vault_name, Some(group), default_group).vault_id == vault_id,
        target_of(vault_id, vault_name, Some(group), default_group).vault_name == vault_name,
        target_of(vault_id, vault_name, None, default_group).vault_id == vault_id,
        target_of(vault_id, vault_name, None, default_group).vault_name == vault_name,
{
}

impl DeliveryTarget {
    /// A target with its vault, if that still exists. The group is the target's own, or the
    /// default.
    pub fn resolve(
        vault_id: u128,
        vault: Option<&vault_endpoint::Model>,
        own_group: Option<String>,
        default_group: &String,
    ) -> (r: Self)
        ensures
            r.vault_id == vault_id,
            match vault {
                Some(v) => r.vault_name == Some(v.name),
                None => r.vault_name is None,
            },
            r.group_name == match own_group {
                Some(group) => group,
                None => *default_group,
            },
            r@ == target_of(
                vault_id,
                match vault {
                    Some(v) => Some(v.name@),
                    None => None,
                },
                match own_group {
                    Some(group) => Some(group@),
                    None => None,
                },
                default_group@,
            ),
    {
        let vault_name = match vault {
            Some(v) => Some(v.name.clone()),
            None => None,
        };
        let group_name = match own_group {
            Some(group) => group,
            None => default_group.clone(),
        };
        DeliveryTarget { vault_id, vault_name, group_name }
    }
}

/// What a delivery has achieved.
#[verifier::ext_equal]
pub struct Tally {
    /// Batches delivered.
    pub sent: nat,
    /// What went wrong, in order.
    pub errors: Seq<Seq<char>>,
    /// Whether some target got everything, or there is none.
    pub any_success: bool,
    /// Whether no target has failed.
    pub all_succeeded: bool,
}

/// What is said of a target whose vault no longer exists.
pub open spec fn missing_vault(vault_id: u128) -> Seq<char> {
    "target vault "@ + ids::id_text(vault_id) + " no longer exists"@
}

/// What is said of a vault that a chunk did not reach.
pub open spec fn failed_vault(name: Seq<char>, error: Seq<char>) -> Seq<char> {
    "vault '"@ + name + "': "@ + error
}

/// Where a delivery stands.
#[verifier::ext_equal]
pub struct DeliveryState {
    /// The targets, in order.
    pub targets: Seq<TargetView>,
    /// How many chunks each target gets.
    pub chunks: nat,
    /// The mode of each target's first chunk.
    pub base: BatchMode,
    /// The current target.
    pub target: nat,
    /// The current chunk.
    pub chunk: nat,
    /// What was achieved.
    pub tally: Tally,
}

impl DeliveryState {
    /// A delivery of which nothing has been sent.
    pub open spec fn fresh(targets: Seq<TargetView>, chunks: nat, base: BatchMode) -> Self {
        DeliveryState { targets, chunks, base, target: 0, chunk: 0, tally: no_tally(targets) }
    }

    /// Whether every target has been dealt with.
    pub open spec fn is_done(self) -> bool {
        self.target >= self.targets.len()
    }

    /// The state once targets that need nothing sent are passed: a missing vault is an error, and
    /// a target that got every chunk is a success.
    pub open spec fn settled(self) -> Self
        decreases self.targets.len() - self.target,
    {
        if self.target >= self.targets.len() {
            self
        } else if self.targets[self.target as int].vault_name is None {
            self.next_target(
                Some(missing_vault(self.targets[self.target as int].vault_id)),
            ).settled()
        } else if self.chunk >= self.chunks {
            self.next_target(None).settled()
        } else {
            self
        }
    }

    /// The state at the start of the next target, after a success or an error on this one.
    pub open spec fn next_target(self, error: Option<Seq<char>>) -> Self {
        DeliveryState {
            target: self.target + 1,
            chunk: 0,
            tally: match error {
                Some(e) => Tally {
                    errors: self.tally.errors.push(e),
                    all_succeeded: false,
                    ..self.tally
                },
                None => Tally { any_success: true, ..self.tally },
            },
            ..self
        }
    }

    /// The state after the reply to the current chunk: nothing, or an error.
    pub open spec fn after(self, error: Option<Seq<char>>) -> Self {
        match error {
            None => (DeliveryState {
                chunk: self.chunk + 1,
                tally: Tally { sent: self.tally.sent + 1, ..self.tally },
                ..self
            }).settled(),
            Some(e) => self.next_target(
                Some(failed_vault(self.targets[self.target as int].vault_name->0, e)),
            ).settled(),
        }
    }

    /// Whether something is left to send and `target` and `chunk` name it.
    pub open spec fn is_settled(self) -> bool {
        self.settled() == self
    }
}

/// Nothing sent yet. Without targets a delivery counts as a success.
pub open spec fn no_tally(targets: Seq<TargetView>) -> Tally {
    Tally {
        sent: 0,
        errors: Seq::empty(),
        any_success: targets.len() == 0,
        all_succeeded: true,
    }
}

/// Settling twice is settling once.
proof fn lemma_settled_is_settled(state: DeliveryState)
    ensures
        state.settled().is_settled(),
        state.settled().targets == state.targets,
        state.settled().chunks == state.chunks,
        state.settled().base == state.base,
        state.target <= state.settled().target,
        state.target <= state.targets.len() ==> state.settled().target <= state.targets.len(),
        !state.settled().is_done() ==> state.settled().chunk < state.chunks
            && state.targets[state.settled().target as int].vault_name is Some,
    decreases state.targets.len() - state.target,
{
    if state.target < state.targets.len() {
        if state.targets[state.target as int].vault_name is None {
            lemma_settled_is_settled(
                state.next_target(
                    Some(missing_vault(state.targets[state.target as int].vault_id)),
                ),
            );
        } else if state.chunk >= state.chunks {
            lemma_settled_is_settled(state.next_target(None));
        }
    }
}

/// The chunks of one target more are at least as many as those of a part of it.
proof fn lemma_next_row(target: int, chunk: int, chunks: int)
    requires
        0 <= chunk <= chunks,
    ensures
        target * chunks + chunk <= (target + 1) * chunks,
{
    assert((target + 1) * chunks == target * chunks + chunks) by (nonlinear_arith);
}

/// One chunk for one target.
#[derive(Clone, Copy, Debug, PartialEq, Eq, Structural)]
pub struct Shipment {
    /// Which target.
    pub target: usize,
    /// Which chunk.
    pub chunk: usize,
    /// The mode it is sent in.
    pub mode: BatchMode,
}

/// A delivery of a run's chunks to its targets.
pub struct Delivery {
    targets: Vec<DeliveryTarget>,
    chunks: usize,
    base: BatchMode,
    target: usize,
    chunk: usize,
    sent: u128,
    errors: Vec<String>,
    any_success: bool,
    all_succeeded: bool,
}

impl View for Delivery {
    type V = DeliveryState;

    closed spec fn view(&self) -> DeliveryState {
        DeliveryState {
            targets: Seq::new(self.targets@.len(), |i: int| self.targets@[i]@),
            chunks: self.chunks as nat,
            base: self.base,
            target: self.target as nat,
            chunk: self.chunk as nat,
            tally: Tally {
                sent: self.sent as nat,
                errors: text::texts(self.errors@),
                any_success: self.any_success,
                all_succeeded: self.all_succeeded,
            },
        }
    }
}

/// The targets of a delivery as it sees them.
pub open spec fn target_views(targets: Seq<DeliveryTarget>) -> Seq<TargetView> {
    Seq::new(targets.len(), |i: int| targets[i]@)
}

impl Delivery {
    /// A delivery of `chunks` chunks to each of `targets`.
    pub fn new(targets: Vec<DeliveryTarget>, chunks: usize, base: BatchMode) -> (d: Self)
        ensures
            d@ == DeliveryState::fresh(target_views(targets@), chunks as nat, base).settled(),
            d@.targets == target_views(targets@),
            d.well_formed(),
    {
        let ghost views = target_views(targets@);
        let any_success = targets.len() == 0;
        let mut d = Delivery {
            targets,
            chunks,
            base,
            target: 0,
            chunk: 0,
            sent: 0,
            errors: Vec::new(),
            any_success,
            all_succeeded: true,
        };
        assert(d@ =~= DeliveryState::fresh(views, chunks as nat, base));
        proof {
            lemma_settled_is_settled(d@);
        }
        d.settle();
        d
    }

    /// The delivery names something to send, or is done, and the count of what was sent cannot
    /// overflow.
    pub closed spec fn well_formed(self) -> bool {
        &&& self@.is_settled()
        &&& self.counted()
    }

    /// No more was sent than there are chunks for the targets up to this one.
    spec fn counted(self) -> bool {
        &&& self.target <= self.targets@.len()
        &&& self.chunk <= self.chunks
        &&& self.sent <= self.target * self.chunks + self.chunk
    }

    /// Passes the targets that need nothing sent.
    fn settle(&mut self)
        requires
            old(self).counted(),
        ensures
            final(self)@ == old(self)@.settled(),
            final(self).well_formed(),
    {
        let ghost start = self@;
        while self.target < self.targets.len() && (self.targets[self.target].vault_name.is_none()
            || self.chunk >= self.chunks)
            invariant
                self@.settled() == start.settled(),
                self.counted(),
            decreases self.targets@.len() - self.target,
        {
            let ghost before = self@;
            proof {
                lemma_next_row(self.target as int, self.chunk as int, self.chunks as int);
            }
            let vault_id: u128 = self.targets[self.target].vault_id;
            assert(before.targets[self.target as int] == self.targets@[self.target as int]@);
            if self.targets[self.target].vault_name.is_none() {
                let message = text::concat3(
                    "target vault ",
                    ids::id_string(vault_id).as_str(),
                    " no longer exists",
                );
                let ghost errors = text::texts(self.errors@);
                self.errors.push(message);
                assert(text::texts(self.errors@) =~= errors.push(missing_vault(vault_id)));
                self.all_succeeded = false;
                self.target = self.target + 1;
                self.chunk = 0;
                assert(self@ =~= before.next_target(Some(missing_vault(vault_id))));
            } else {
                self.any_success = true;
                self.target = self.target + 1;
                self.chunk = 0;
                assert(self@ =~= before.next_target(None));
            }
        }
        proof {
            if self.target < self.targets@.len() {
                assert(self@.targets[self.target as int] == self.targets@[self.target as int]@);
            }
            lemma_settled_is_settled(start);
        }
    }

    /// What to send next, or nothing once every target has been dealt with.
    pub fn next(&self) -> (r: Option<Shipment>)
        requires
            self.well_formed(),
        ensures
            r is None <==> self@.is_done(),
            r matches Some(s) ==> {
                &&& s.target == self@.target
                &&& s.chunk == self@.chunk
                &&& s.chunk < self@.chunks
                &&& s.mode == jobs::chunk_mode(self@.base, self@.chunk)
                &&& self@.targets[s.target as int].vault_name is Some
            },
    {
        proof {
            lemma_settled_is_settled(self@);
        }
        if self.target >= self.targets.len() {
            None
        } else {
            Some(
                Shipment {
                    target: self.target,
                    chunk: self.chunk,
                    mode: mode_for_chunk_index(self.base, self.chunk),
                },
            )
        }
    }

    /// Takes the reply to what [`Delivery::next`] named: nothing if it was delivered, else what
    /// went wrong.
    pub fn record(&mut self, error: Option<String>)
        requires
            old(self).well_formed(),
            !old(self)@.is_done(),
        ensures
            final(self).well_formed(),
            final(self)@ == old(self)@.after(
                match error {
                    Some(e) => Some(e@),
                    None => None,
                },
            ),
            final(self)@.targets == old(self)@.targets,
    {
        let ghost before = self@;
        let count: usize = self.targets.len();
        proof {
            lemma_settled_is_settled(self@);
            assert(before.targets[self.target as int] == self.targets@[self.target as int]@);
            lemma_next_row(self.target as int, self.chunk as int, self.chunks as int);
            assert(self.target < count);
            assert((self.target + 1) * self.chunks <= usize::MAX * usize::MAX) by (nonlinear_arith)
                requires
                    0 <= self.target + 1 <= usize::MAX,
                    0 <= self.chunks <= usize::MAX,
            ;
            assert(usize::MAX * usize::MAX < u128::MAX) by (nonlinear_arith)
                requires
                    usize::MAX <= 0xffff_ffff_ffff_ffff,
            ;
        }
        match error {
            None => {
                self.sent = self.sent + 1;
                self.chunk = self.chunk + 1;
                assert(self@ =~= (DeliveryState {
                    chunk: before.chunk + 1,
                    tally: Tally { sent: before.tally.sent + 1, ..before.tally },
                    ..before
                }));
            },
            Some(e) => {
                let name: &str = match &self.targets[self.target].vault_name {
                    Some(name) => name.as_str(),
                    None => "",
                };
                let head = text::concat3("vault '", name, "': ");
                let message = text::concat(head.as_str(), e.as_str());
                let ghost failure = failed_vault(before.targets[self.target as int].vault_name->0, e@);
                let ghost errors = text::texts(self.errors@);
                self.errors.push(message);
                assert(text::texts(self.errors@) =~= errors.push(failure));
                self.all_succeeded = false;
                self.target = self.target + 1;
                self.chunk = 0;
                assert(self@ =~= before.next_target(Some(failure)));
            },
        }
        proof {
            lemma_settled_is_settled(self@);
        }
        self.settle();
    }

    /// The group that a target's records land in.
    pub fn group_name(&self, target: usize) -> (r: Option<&str>)
        ensures
            text::optional(r) == if target < self@.targets.len() {
                Some(self@.targets[target as int].group_name)
            } else {
                None::<Seq<char>>
            },
    {
        if target < self.targets.len() {
            assert(self@.targets[target as int] == self.targets@[target as int]@);
            Some(self.targets[target].group_name.as_str())
        } else {
            None
        }
    }

    /// The summary of a delivery that is done, and whether every target got everything.
    pub fn finish(self, items_processed: usize, duration_ms: u64) -> (r: (JobSummary, bool))
        requires
            self.well_formed(),
            self@.is_done(),
        ensures
            summarizes(r.0, self@.tally, items_processed, duration_ms),
            r.1 == self@.tally.all_succeeded,
    {
        let status = if self.errors.len() == 0 {
            "SUCCESS"
        } else if self.any_success {
            "PARTIAL"
        } else {
            "FAILED"
        };
        let error_message = if self.errors.len() == 0 {
            None
        } else {
            Some(text::join(&self.errors, "; "))
        };
        (
            JobSummary {
                status,
                items_processed: #[verifier::truncate] (items_processed as i32),
                chunks_sent: #[verifier::truncate] (self.sent as i32),
                duration_ms: #[verifier::truncate] (duration_ms as i32),
                error_message,
            },
            self.all_succeeded,
        )
    }
}

/// The status of a delivery.
pub open spec fn delivery_status(tally: Tally) -> Seq<char> {
    if tally.errors.len() == 0 {
        "SUCCESS"@
    } else if tally.any_success {
        "PARTIAL"@
    } else {
        "FAILED"@
    }
}

/// Whether `summary` says what `tally` holds.
pub open spec fn summarizes(
    summary: JobSummary,
    tally: Tally,
    items_processed: usize,
    duration_ms: u64,
) -> bool {
    &&& summary.status@ == delivery_status(tally)
    &&& summary.items_processed == items_processed as i32
    &&& summary.chunks_sent == tally.sent as i32
    &&& summary.duration_ms == duration_ms as i32
    &&& match summary.error_message {
        Some(m) => tally.errors.len() > 0 && m@ == text::joined(tally.errors, "; "@),
        None => tally.errors.len() == 0,
    }
}

// ---------------------------------------------------------------------------
// What a whole delivery comes to
// ---------------------------------------------------------------------------
/// How many of its chunks a target takes before the first that fails, where `replies` says what each
/// target answers to each chunk: nothing, or an error.
pub open spec fn chunks_taken(
    replies: spec_fn(int, int) -> Option<Seq<char>>,
    target: int,
    chunks: nat,
) -> nat
    decreases chunks,
{
    if chunks == 0 {
        0
    } else {
        let before = chunks_taken(replies, target, (chunks - 1) as nat);
        if before == chunks - 1 && replies(target, chunks - 1) is None {
            chunks
        } else {
            before
        }
    }
}

/// What a target comes to: how many chunks it takes before the first that fails, and the error.
pub open spec fn target_outcome(
    targets: Seq<TargetView>,
    chunks: nat,
    replies: spec_fn(int, int) -> Option<Seq<char>>,
    target: int,
) -> (nat, Option<Seq<char>>) {
    match targets[target].vault_name {
        None => (0, Some(missing_vault(targets[target].vault_id))),
        Some(name) => {
            let taken = chunks_taken(replies, target, chunks);
            if taken == chunks {
                (taken, None)
            } else {
                (taken, Some(failed_vault(name, replies(target, taken as int)->0)))
            }
        },
    }
}

/// What the first `n` targets come to together.
pub open spec fn total_outcome(
    targets: Seq<TargetView>,
    chunks: nat,
    replies: spec_fn(int, int) -> Option<Seq<char>>,
    n: nat,
) -> Tally
    decreases n,
{
    if n == 0 {
        no_tally(targets)
    } else {
        let before = total_outcome(targets, chunks, replies, (n - 1) as nat);
        let (taken, error) = target_outcome(targets, chunks, replies, n - 1);
        match error {
            None => Tally { sent: before.sent + taken, any_success: true, ..before },
            Some(e) => Tally {
                sent: before.sent + taken,
                errors: before.errors.push(e),
                all_succeeded: false,
                ..before
            },
        }
    }
}

/// Whether a delivery has gone as `replies` would have it so far.
pub open spec fn follows(
    state: DeliveryState,
    replies: spec_fn(int, int) -> Option<Seq<char>>,
) -> bool {
    let before = total_outcome(state.targets, state.chunks, replies, state.target);
    &&& state.target <= state.targets.len()
    &&& state.chunk <= state.chunks
    &&& state.is_done() ==> state.chunk == 0
    &&& state.tally == (Tally { sent: before.sent + state.chunk, ..before })
    &&& forall|c: int|
        0 <= c < state.chunk ==> (#[trigger] replies(state.target as int, c)) is None
}

/// As many chunks are taken as succeed in a row.
proof fn lemma_chunks_taken(
    replies: spec_fn(int, int) -> Option<Seq<char>>,
    target: int,
    n: nat,
    chunks: nat,
)
    requires
        n <= chunks,
        forall|c: int| 0 <= c < n ==> (#[trigger] replies(target, c)) is None,
        n < chunks ==> replies(target, n as int) is Some,
    ensures
        chunks_taken(replies, target, chunks) == n,
    decreases chunks,
{
    if chunks > n {
        lemma_chunks_taken(replies, target, n, (chunks - 1) as nat);
    } else if n > 0 {
        lemma_chunks_taken(replies, target, (n - 1) as nat, (n - 1) as nat);
        assert(replies(target, n - 1) is None);
    }
}

/// Passing a target that needs nothing sent keeps a delivery on its course.
proof fn lemma_settled_follows(
    state: DeliveryState,
    replies: spec_fn(int, int) -> Option<Seq<char>>,
)
    requires
        follows(state, replies),
        state.target < state.targets.len() && state.targets[state.target as int].vault_name is None
            ==> state.chunk == 0,
    ensures
        follows(state.settled(), replies),
    decreases state.targets.len() - state.target,
{
    if state.target < state.targets.len() {
        let t = state.target as int;
        if state.targets[t].vault_name is None {
            let next = state.next_target(Some(missing_vault(state.targets[t].vault_id)));
            assert(next.tally =~= total_outcome(
                state.targets,
                state.chunks,
                replies,
                next.target,
            ));
            lemma_settled_follows(next, replies);
        } else if state.chunk >= state.chunks {
            lemma_chunks_taken(replies, t, state.chunks, state.chunks);
            let next = state.next_target(None);
            assert(next.tally =~= total_outcome(
                state.targets,
                state.chunks,
                replies,
                next.target,
            ));
            lemma_settled_follows(next, replies);
        }
    }
}

/// A delivery that takes each reply as it comes stays on the course of the replies.
proof fn lemma_delivery_follows(
    state: DeliveryState,
    replies: spec_fn(int, int) -> Option<Seq<char>>,
)
    requires
        follows(state, replies),
        state.is_settled(),
        !state.is_done(),
    ensures
        follows(state.after(replies(state.target as int, state.chunk as int)), replies),
{
    lemma_settled_is_settled(state);
    let t = state.target as int;
    match replies(t, state.chunk as int) {
        None => {
            let next = DeliveryState {
                chunk: state.chunk + 1,
                tally: Tally { sent: state.tally.sent + 1, ..state.tally },
                ..state
            };
            assert(follows(next, replies));
            lemma_settled_follows(next, replies);
        },
        Some(e) => {
            lemma_chunks_taken(replies, t, state.chunk, state.chunks);
            let next = state.next_target(Some(failed_vault(state.targets[t].vault_name->0, e)));
            assert(next.tally =~= total_outcome(
                state.targets,
                state.chunks,
                replies,
                next.target,
            ));
            lemma_settled_follows(next, replies);
        },
    }
}

/// Every reply brings a delivery to its next chunk or to a later target.
proof fn lemma_delivery_moves_on(state: DeliveryState, error: Option<Seq<char>>)
    requires
        state.is_settled(),
        !state.is_done(),
    ensures
        ({
            let next = state.after(error);
            &&& next.is_settled()
            &&& next.targets == state.targets
            &&& next.chunks == state.chunks
            &&& next.target <= next.targets.len()
            &&& next.target > state.target || (next.target == state.target && next.chunk
                == state.chunk + 1 && next.chunk < next.chunks)
        }),
{
    lemma_settled_is_settled(state);
    let t = state.target as int;
    match error {
        None => {
            let next = DeliveryState {
                chunk: state.chunk + 1,
                tally: Tally { sent: state.tally.sent + 1, ..state.tally },
                ..state
            };
            lemma_settled_is_settled(next);
            if next.chunk >= next.chunks {
                lemma_settled_is_settled(next.next_target(None));
            }
        },
        Some(e) => {
            lemma_settled_is_settled(
                state.next_target(Some(failed_vault(state.targets[t].vault_name->0, e))),
            );
        },
    }
}

/// How a delivery ends that takes each reply as it comes.
pub open spec fn ended(
    state: DeliveryState,
    replies: spec_fn(int, int) -> Option<Seq<char>>,
) -> DeliveryState
    decreases state.targets.len() - state.target, state.chunks - state.chunk,
    when state.is_settled()
    via ended_decreases
{
    if state.is_done() {
        state
    } else {
        ended(state.after(replies(state.target as int, state.chunk as int)), replies)
    }
}

/// A delivery comes to an end.
#[via_fn]
proof fn ended_decreases(
    state: DeliveryState,
    replies: spec_fn(int, int) -> Option<Seq<char>>,
) {
    if !state.is_done() {
        lemma_delivery_moves_on(state, replies(state.target as int, state.chunk as int));
    }
}

/// A delivery on the course of the replies ends on it.
proof fn lemma_ended_follows(
    state: DeliveryState,
    replies: spec_fn(int, int) -> Option<Seq<char>>,
)
    requires
        follows(state, replies),
        state.is_settled(),
    ensures
        follows(ended(state, replies), replies),
        ended(state, replies).is_done(),
        ended(state, replies).targets == state.targets,
        ended(state, replies).chunks == state.chunks,
    decreases state.targets.len() - state.target, state.chunks - state.chunk,
{
    if !state.is_done() {
        let error = replies(state.target as int, state.chunk as int);
        lemma_delivery_moves_on(state, error);
        lemma_delivery_follows(state, replies);
        lemma_ended_follows(state.after(error), replies);
    }
}

/// Whatever the targets reply, a delivery comes to an end, and to exactly what the replies amount
/// to: every target is tried, whatever becomes of the others, each until its first failure.
pub proof fn law_every_target_is_tried(
    targets: Seq<TargetView>,
    chunks: nat,
    base: BatchMode,
    replies: spec_fn(int, int) -> Option<Seq<char>>,
)
    ensures
        ({
            let end = ended(DeliveryState::fresh(targets, chunks, base).settled(), replies);
            &&& end.is_done()
            &&& end.tally == total_outcome(targets, chunks, replies, targets.len())
        }),
{
    let start = DeliveryState::fresh(targets, chunks, base);
    lemma_settled_follows(start, replies);
    lemma_settled_is_settled(start);
    lemma_ended_follows(start.settled(), replies);
    let end = ended(start.settled(), replies);
    assert(end.tally =~= total_outcome(targets, chunks, replies, targets.len()));
}

/// Every target got everything exactly where no error was noted, and then the status is
/// `SUCCESS`.
pub proof fn law_all_succeeded_means_no_errors(
    targets: Seq<TargetView>,
    chunks: nat,
    replies: spec_fn(int, int) -> Option<Seq<char>>,
    n: nat,
)
    ensures
        total_outcome(targets, chunks, replies, n).all_succeeded <==> total_outcome(
            targets,
            chunks,
            replies,
            n,
        ).errors.len() == 0,
        total_outcome(targets, chunks, replies, n).all_succeeded ==> delivery_status(
            total_outcome(targets, chunks, replies, n),
        ) == "SUCCESS"@,
    decreases n,
{
    if n > 0 {
        law_all_succeeded_means_no_errors(targets, chunks, replies, (n - 1) as nat);
    }
}

/// A target takes its chunks in order up to the first that fails, and all of them if none does.
pub proof fn law_targets_take_chunks_up_to_the_first_failure(
    replies: spec_fn(int, int) -> Option<Seq<char>>,
    target: int,
    n: nat,
    chunks: nat,
)
    requires
        n <= chunks,
        forall|c: int| 0 <= c < n ==> (#[trigger] replies(target, c)) is None,
        n < chunks ==> replies(target, n as int) is Some,
    ensures
        chunks_taken(replies, target, chunks) == n,
{
    lemma_chunks_taken(replies, target, n, chunks);
}

/// A target whose vault is gone takes nothing and is an error that names the vault; one that takes
/// every chunk is none; and one that fails is an error that names it and says what went wrong.
pub proof fn law_what_a_target_comes_to(
    targets: Seq<TargetView>,
    chunks: nat,
    replies: spec_fn(int, int) -> Option<Seq<char>>,
    target: int,
    n: nat,
)
    requires
        n <= chunks,
        forall|c: int| 0 <= c < n ==> (#[trigger] replies(target, c)) is None,
        n < chunks ==> replies(target, n as int) is Some,
    ensures
        targets[target].vault_name is None ==> target_outcome(targets, chunks, replies, target) == (
            0nat,
            Some("target vault "@ + ids::id_text(targets[target].vault_id) + " no longer exists"@),
        ),
        targets[target].vault_name is Some ==> target_outcome(targets, chunks, replies, target).0
            == n,
        targets[target].vault_name is Some && n == chunks ==> target_outcome(
            targets,
            chunks,
            replies,
            target,
        ).1 is None,
        targets[target].vault_name is Some && n < chunks ==> target_outcome(
            targets,
            chunks,
            replies,
            target,
        ).1 == Some(
            "vault '"@ + targets[target].vault_name->0 + "': "@ + replies(target, n as int)->0,
        ),
{
    lemma_chunks_taken(replies, target, n, chunks);
}

/// Every target counts, whatever becomes of the others: what was sent is what each of them took, the
/// errors are those of the targets in order, all of them succeeded where none is an error, and some
/// did where one is none.
pub proof fn law_every_target_counts(
    targets: Seq<TargetView>,
    chunks: nat,
    replies: spec_fn(int, int) -> Option<Seq<char>>,
    n: nat,
)
    ensures
        ({
            let total = total_outcome(targets, chunks, replies, n);
            let next = total_outcome(targets, chunks, replies, n + 1);
            let errors = Seq::new(
                n,
                |t: int| target_outcome(targets, chunks, replies, t).1,
            );
            &&& n == 0 ==> total.sent == 0
            &&& next.sent == total.sent + target_outcome(targets, chunks, replies, n as int).0
            &&& total.errors == errors.filter_map(|e: Option<Seq<char>>| e)
            &&& total.all_succeeded <==> (forall|t: int|
                0 <= t < n ==> (#[trigger] target_outcome(targets, chunks, replies, t)).1 is None)
            &&& total.any_success <==> targets.len() == 0 || (exists|t: int|
                0 <= t < n && (#[trigger] target_outcome(targets, chunks, replies, t)).1 is None)
        }),
    decreases n,
{
    let errors = Seq::new(n, |t: int| target_outcome(targets, chunks, replies, t).1);
    assert((n + 1 - 1) as nat == n);
    if n > 0 {
        let shorter = Seq::new(
            (n - 1) as nat,
            |t: int| target_outcome(targets, chunks, replies, t).1,
        );
        law_every_target_counts(targets, chunks, replies, (n - 1) as nat);
        assert(errors.drop_last() =~= shorter);
        assert(errors.last() == target_outcome(targets, chunks, replies, n - 1).1);
        let before = total_outcome(targets, chunks, replies, (n - 1) as nat);
        let total = total_outcome(targets, chunks, replies, n);
        match target_outcome(targets, chunks, replies, n - 1).1 {
            Some(e) => {
                assert(before.errors.push(e) =~= before.errors + seq![e]);
                if total.any_success && targets.len() > 0 {
                    let t = choose|t: int|
                        0 <= t < n - 1 && (#[trigger] target_outcome(
                            targets,
                            chunks,
                            replies,
                            t,
                        )).1 is None;
                    assert(target_outcome(targets, chunks, replies, t).1 is None);
                }
            },
            None => {
                assert(before.errors + Seq::<Seq<char>>::empty() =~= before.errors);
            },
        }
        assert(total.errors =~= errors.filter_map(|e: Option<Seq<char>>| e)) by {
            assert(before.errors + Seq::<Seq<char>>::empty() =~= before.errors);
        }
    } else {
        assert(errors =~= Seq::<Option<Seq<char>>>::empty());
    }
}

/// A delivery succeeds where nothing went wrong, partly where some target got everything all the
/// same, and fails otherwise.
pub proof fn law_the_status_says_what_happened(tally: Tally)
    ensures
        delivery_status(tally) == "SUCCESS"@ <==> tally.errors.len() == 0,
        delivery_status(tally) == "PARTIAL"@ <==> tally.errors.len() > 0 && tally.any_success,
        delivery_status(tally) == "FAILED"@ <==> tally.errors.len() > 0 && !tally.any_success,
{
    reveal_strlit("SUCCESS");
    reveal_strlit("PARTIAL");
    reveal_strlit("FAILED");
    assert("SUCCESS"@[0] == 'S' && "PARTIAL"@[0] == 'P' && "FAILED"@[0] == 'F');
}

/// A summary counts the records of the run, the batches that were delivered and the time it took, and
/// gives every error, in order.
pub proof fn law_summaries_give_every_error(
    summary: JobSummary,
    tally: Tally,
    items_processed: usize,
    duration_ms: u64,
    i: int,
)
    requires
        summarizes(summary, tally, items_processed, duration_ms),
    ensures
        items_processed <= i32::MAX ==> summary.items_processed == items_processed,
        tally.sent <= i32::MAX ==> summary.chunks_sent == tally.sent,
        duration_ms <= i32::MAX ==> summary.duration_ms == duration_ms,
        summary.status@ == "SUCCESS"@ <==> tally.errors.len() == 0,
        summary.error_message is None <==> tally.errors.len() == 0,
        summary.error_message matches Some(m) ==> m@ == text::joined(tally.errors, "; "@),
{
    law_the_status_says_what_happened(tally);
}

/// Whatever is replied, a delivery keeps its targets, its chunks and its mode, and what went wrong
/// before stays noted; a chunk that was delivered counts as one more sent, and one that failed does
/// not.
pub proof fn law_deliveries_keep_what_they_have(state: DeliveryState, error: Option<Seq<char>>)
    requires
        state.target < state.targets.len(),
        state.targets[state.target as int].vault_name is Some,
    ensures
        state.after(error).targets == state.targets,
        state.after(error).chunks == state.chunks,
        state.after(error).base == state.base,
        error is None ==> state.after(error).tally.sent == state.tally.sent + 1,
        error is Some ==> state.after(error).tally.sent == state.tally.sent,
        state.tally.errors.is_prefix_of(state.after(error).tally.errors),
        error is Some ==> state.after(error).tally.errors.len() > state.tally.errors.len()
            && state.after(error).tally.errors[state.tally.errors.len() as int] == "vault '"@
            + state.targets[state.target as int].vault_name->0 + "': "@ + error->0,
        error is Some ==> !state.after(error).tally.all_succeeded,
        error is Some ==> state.after(error).target > state.target,
        error is None && state.chunk + 1 < state.chunks ==> state.after(error).target
            == state.target && state.after(error).chunk == state.chunk + 1
            && state.after(error).tally.errors == state.tally.errors,
{
    let next = match error {
        None => DeliveryState {
            chunk: state.chunk + 1,
            tally: Tally { sent: state.tally.sent + 1, ..state.tally },
            ..state
        },
        Some(e) => state.next_target(
            Some(failed_vault(state.targets[state.target as int].vault_name->0, e)),
        ),
    };
    lemma_settled_is_settled(next);
    lemma_settling_only_adds_errors(next);
    let n = state.tally.errors.len() as int;
    let errors = next.settled().tally.errors;
    assert(next.tally.errors =~= errors.take(next.tally.errors.len() as int));
    if error is Some {
        assert(next.tally.errors[n] == errors.take(next.tally.errors.len() as int)[n]);
    }
}

/// Passing targets that need nothing sent counts nothing as sent and forgets no error.
proof fn lemma_settling_only_adds_errors(state: DeliveryState)
    ensures
        state.settled().tally.sent == state.tally.sent,
        state.tally.errors.is_prefix_of(state.settled().tally.errors),
        !state.tally.all_succeeded ==> !state.settled().tally.all_succeeded,
    decreases state.targets.len() - state.target,
{
    if state.target < state.targets.len() {
        if state.targets[state.target as int].vault_name is None {
            let next = state.next_target(
                Some(missing_vault(state.targets[state.target as int].vault_id)),
            );
            lemma_settling_only_adds_errors(next);
            assert(state.tally.errors.is_prefix_of(next.tally.errors));
        } else if state.chunk >= state.chunks {
            lemma_settling_only_adds_errors(state.next_target(None));
        }
    }
}

/// A delivery knows of its targets what they are.
pub proof fn law_targets_are_seen_as_they_are(targets: Seq<DeliveryTarget>, i: int)
    requires
        0 <= i < targets.len(),
    ensures
        target_views(targets).len() == targets.len(),
        target_views(targets)[i].vault_id == targets[i].vault_id,
        target_views(targets)[i].group_name == targets[i].group_name@,
        target_views(targets)[i].vault_name is None <==> targets[i].vault_name is None,
        targets[i].vault_name matches Some(name) ==> target_views(targets)[i].vault_name == Some(
            name@,
        ),
{
}

} // verus!
