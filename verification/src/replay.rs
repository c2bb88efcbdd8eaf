//! Anti-replay guard: remembers accepted signatures for the freshness window and refuses repeats.
//!
//! It is consulted only after a signature has been verified: recording a digest that was not
//! verified would let anyone block a request before its sender made it.

use vstd::prelude::*;

use crate::crypto::MAX_TIMESTAMP_SKEW_SECS;

verus! {

/// A signature that was accepted: the key that made it and the decoded digest, never the header
/// text, so that two spellings of one digest count as one.
struct SeenSignature {
    key_id: u128,
    digest: Vec<u8>,
    expires_at: u128,
}

/// Tracked signatures above which every call removes the expired ones.
pub const MAX_TRACKED_SIGNATURES: usize = 100_000;

/// A memory of the signatures that were used. Times are milliseconds of a clock that never goes
/// back.
pub struct ReplayGuard {
    seen: Vec<SeenSignature>,
    window_ms: u64,
    last_sweep: u64,
}

/// Until when each of the signatures is remembered.
spec fn expiries(seen: Seq<SeenSignature>) -> Map<(u128, Seq<u8>), nat>
    decreases seen.len(),
{
    if seen.len() == 0 {
        Map::empty()
    } else {
        expiries(seen.drop_last()).insert(
            (seen.last().key_id, seen.last().digest@),
            seen.last().expires_at as nat,
        )
    }
}

/// Whether no signature stands twice.
spec fn distinct(seen: Seq<SeenSignature>) -> bool {
    forall|i: int, j: int|
        0 <= i < j < seen.len() ==> !(#[trigger] seen[i].key_id == #[trigger] seen[j].key_id
            && seen[i].digest@ == seen[j].digest@)
}

/// Leaving the last one out keeps signatures distinct.
proof fn lemma_distinct_shorter(seen: Seq<SeenSignature>)
    requires
        distinct(seen),
        seen.len() > 0,
    ensures
        distinct(seen.drop_last()),
{
    let shorter = seen.drop_last();
    assert forall|i: int, j: int| 0 <= i < j < shorter.len() implies !(#[trigger] shorter[i].key_id
        == #[trigger] shorter[j].key_id && shorter[i].digest@ == shorter[j].digest@) by {
        assert(!(seen[i].key_id == seen[j].key_id && seen[i].digest@ == seen[j].digest@));
    }
}

/// A signature is remembered exactly where it stands among the seen ones.
proof fn lemma_expiries(seen: Seq<SeenSignature>, id: (u128, Seq<u8>))
    requires
        distinct(seen),
    ensures
        expiries(seen).contains_key(id) <==> exists|i: int|
            0 <= i < seen.len() && (#[trigger] seen[i].key_id, seen[i].digest@) == id,
        forall|i: int|
            0 <= i < seen.len() && (#[trigger] seen[i].key_id, seen[i].digest@) == id ==> expiries(
                seen,
            )[id] == seen[i].expires_at,
    decreases seen.len(),
{
    if seen.len() > 0 {
        let shorter = seen.drop_last();
        lemma_distinct_shorter(seen);
        lemma_expiries(shorter, id);
        let last = seen.len() - 1;
        if (seen[last].key_id, seen[last].digest@) == id {
            assert forall|i: int|
                0 <= i < seen.len() && (#[trigger] seen[i].key_id, seen[i].digest@)
                    == id implies expiries(seen)[id] == seen[i].expires_at by {
                if i < last {
                    assert(!(seen[i].key_id == seen[last].key_id && seen[i].digest@
                        == seen[last].digest@));
                }
            }
        } else {
            if expiries(seen).contains_key(id) {
                let i = choose|i: int|
                    0 <= i < shorter.len() && (#[trigger] shorter[i].key_id, shorter[i].digest@)
                        == id;
                assert(seen[i] == shorter[i]);
            }
            assert forall|i: int|
                0 <= i < seen.len() && (#[trigger] seen[i].key_id, seen[i].digest@)
                    == id implies expiries(seen).contains_key(id) && expiries(seen)[id]
                == seen[i].expires_at by {
                assert(shorter[i] == seen[i]);
                assert(shorter[i].key_id == seen[i].key_id);
            }
        }
    }
}

/// As many signatures are remembered as stand among the seen ones.
proof fn lemma_expiries_len(seen: Seq<SeenSignature>)
    requires
        distinct(seen),
    ensures
        expiries(seen).dom().finite(),
        expiries(seen).len() == seen.len(),
    decreases seen.len(),
{
    if seen.len() > 0 {
        let shorter = seen.drop_last();
        let last = seen.len() - 1;
        let id = (seen[last].key_id, seen[last].digest@);
        lemma_distinct_shorter(seen);
        lemma_expiries_len(shorter);
        lemma_expiries(shorter, id);
        assert forall|i: int| 0 <= i < shorter.len() implies (
        #[trigger] shorter[i].key_id, shorter[i].digest@) != id by {
            assert(!(seen[i].key_id == seen[last].key_id && seen[i].digest@ == seen[last].digest@));
        }
        assert(!expiries(shorter).contains_key(id));
    }
}

/// When a signature was used.
pub struct Use {
    /// The key that made the signature, and its digest.
    pub id: (u128, Seq<u8>),
    /// The time.
    pub now: nat,
}

/// What a guard knows.
#[verifier::ext_equal]
pub struct GuardState {
    /// Until when each signature is remembered.
    pub remembered: Map<(u128, Seq<u8>), nat>,
    /// How long a signature is remembered, in milliseconds.
    pub window: nat,
    /// When the expired signatures were last removed as a matter of routine.
    pub swept_at: nat,
}

impl GuardState {
    /// Whether a signature is refused at `now`.
    pub open spec fn refuses(self, id: (u128, Seq<u8>), now: nat) -> bool {
        self.remembered.contains_key(id) && self.remembered[id] > now
    }

    /// Whether a quarter of the window has passed since the expired signatures were removed.
    pub open spec fn is_due(self, now: nat) -> bool {
        now - self.swept_at >= self.window / 4
    }

    /// What is remembered once the expired signatures were removed. They are removed when that is
    /// due or when too many signatures are tracked; no other signature ever is.
    pub open spec fn swept(self, now: nat) -> Map<(u128, Seq<u8>), nat> {
        if self.is_due(now) || self.remembered.len() >= MAX_TRACKED_SIGNATURES {
            Map::new(
                |id: (u128, Seq<u8>)| self.refuses(id, now),
                |id: (u128, Seq<u8>)| self.remembered[id],
            )
        } else {
            self.remembered
        }
    }

    /// What a guard knows after a signature was used. One that is refused is not renewed.
    pub open spec fn after(self, id: (u128, Seq<u8>), now: nat) -> GuardState {
        GuardState {
            remembered: if self.refuses(id, now) {
                self.swept(now)
            } else {
                self.swept(now).insert(id, now + self.window)
            },
            swept_at: if self.is_due(now) {
                now
            } else {
                self.swept_at
            },
            ..self
        }
    }
}

impl View for ReplayGuard {
    type V = GuardState;

    /// What the guard knows.
    closed spec fn view(&self) -> GuardState {
        GuardState {
            remembered: expiries(self.seen@),
            window: self.window_ms as nat,
            swept_at: self.last_sweep as nat,
        }
    }
}

/// Whether two byte strings are the same.
fn same_bytes(a: &[u8], b: &[u8]) -> (same: bool)
    ensures
        same == (a@ == b@),
{
    if a.len() != b.len() {
        return false;
    }
    for i in 0..a.len()
        invariant
            a@.len() == b@.len(),
            forall|j: int| 0 <= j < i ==> a@[j] == b@[j],
    {
        if a[i] != b[i] {
            return false;
        }
    }
    assert(a@ =~= b@);
    true
}

/// The freshness window in seconds, kept between a second and an hour.
pub open spec fn clamped_window(window_secs: i64) -> nat {
    if window_secs < 1 {
        1
    } else if window_secs > 3600 {
        3600
    } else {
        window_secs as nat
    }
}

impl ReplayGuard {
    /// No signature stands twice, and the window is at least a second.
    pub closed spec fn well_formed(self) -> bool {
        distinct(self.seen@) && self.window_ms >= 1000
    }

    /// A guard with the given freshness window, clamped to between a second and an hour.
    pub fn new(window_secs: i64, now: u64) -> (guard: Self)
        ensures
            guard.well_formed(),
            guard@ == (GuardState {
                remembered: Map::empty(),
                window: 1000 * clamped_window(window_secs),
                swept_at: now as nat,
            }),
    {
        let secs: u64 = if window_secs < 1 {
            1
        } else if window_secs > 3600 {
            3600
        } else {
            window_secs as u64
        };
        ReplayGuard { seen: Vec::new(), window_ms: 1000 * secs, last_sweep: now }
    }

    /// A guard whose window is the permitted clock skew.
    pub fn with_default_window(now: u64) -> (guard: Self)
        ensures
            guard.well_formed(),
            guard@ == (GuardState {
                remembered: Map::empty(),
                window: 1000 * MAX_TIMESTAMP_SKEW_SECS as nat,
                swept_at: now as nat,
            }),
    {
        Self::new(MAX_TIMESTAMP_SKEW_SECS, now)
    }

    /// Checks whether a signature has been used within the window and, if not, records it. `true`
    /// on first use, `false` on replay.
    ///
    /// Whatever is still remembered stays remembered, however full the memory is: forgetting
    /// everything at once would let every signature be used again.
    pub fn check_and_record(&mut self, key_id: u128, digest: &[u8], now: u64) -> (first_use: bool)
        requires
            old(self).well_formed(),
        ensures
            final(self).well_formed(),
            first_use == !old(self)@.refuses((key_id, digest@), now as nat),
            final(self)@ == old(self)@.after((key_id, digest@), now as nat),
    {
        self.prune_if_due(now);
        let ghost before = old(self)@;
        let ghost pruned = self.seen@;
        let ghost id = (key_id, digest@);
        let expires_at: u128 = now as u128 + self.window_ms as u128;
        let mut found: Option<usize> = None;
        let n: usize = self.seen.len();
        for i in 0..n
            invariant
                n == self.seen@.len(),
                self.seen@ == pruned,
                match found {
                    Some(k) => k < n && (pruned[k as int].key_id, pruned[k as int].digest@) == (
                        key_id,
                        digest@,
                    ),
                    None => forall|j: int|
                        0 <= j < i ==> (#[trigger] pruned[j].key_id, pruned[j].digest@) != (
                            key_id,
                            digest@,
                        ),
                },
        {
            if found.is_none() && self.seen[i].key_id == key_id && same_bytes(
                self.seen[i].digest.as_slice(),
                digest,
            ) {
                found = Some(i);
            }
        }
        let ghost remembered = expiries(pruned);
        proof {
            lemma_expiries(pruned, id);
            assert(remembered == before.swept(now as nat));
            assert(before.refuses(id, now as nat) ==> remembered.contains_key(id));
        }
        match found {
            Some(k) => {
                assert((pruned[k as int].key_id, pruned[k as int].digest@) == id);
                assert(remembered.contains_key(id));
                if self.seen[k].expires_at > now as u128 {
                    assert(self@ =~= before.after(id, now as nat));
                    return false;
                }
                let entry = SeenSignature {
                    key_id,
                    digest: vstd::slice::slice_to_vec(digest),
                    expires_at,
                };
                self.seen.set(k, entry);
                proof {
                    lemma_replaced(pruned, k as int, entry);
                    assert(self@ =~= before.after(id, now as nat));
                }
                true
            },
            None => {
                assert(!remembered.contains_key(id));
                let entry = SeenSignature {
                    key_id,
                    digest: vstd::slice::slice_to_vec(digest),
                    expires_at,
                };
                self.seen.push(entry);
                proof {
                    assert(self.seen@.drop_last() =~= pruned);
                    assert forall|i: int, j: int| 0 <= i < j < self.seen@.len() implies !(
                    #[trigger] self.seen@[i].key_id == #[trigger] self.seen@[j].key_id
                        && self.seen@[i].digest@ == self.seen@[j].digest@) by {
                        if j < pruned.len() {
                            assert(!(pruned[i].key_id == pruned[j].key_id && pruned[i].digest@
                                == pruned[j].digest@));
                        } else {
                            assert((pruned[i].key_id, pruned[i].digest@) != (key_id, digest@));
                        }
                    }
                    assert(self@ =~= before.after(id, now as nat));
                }
                true
            },
        }
    }

    /// Removes the expired signatures, if a quarter of the window has passed since that was last
    /// done or too many are tracked.
    fn prune_if_due(&mut self, now: u64)
        requires
            old(self).well_formed(),
        ensures
            final(self).well_formed(),
            final(self)@ == (GuardState {
                remembered: old(self)@.swept(now as nat),
                swept_at: if old(self)@.is_due(now as nat) {
                    now as nat
                } else {
                    old(self)@.swept_at
                },
                ..old(self)@
            }),
    {
        let due = now.saturating_sub(self.last_sweep) >= self.window_ms / 4;
        assert(due == old(self)@.is_due(now as nat));
        proof {
            lemma_expiries_len(self.seen@);
        }
        if due {
            self.last_sweep = now;
        }
        if !due && self.seen.len() < MAX_TRACKED_SIGNATURES {
            return ;
        }
        let ghost before = self.seen@;
        let ghost swept = old(self)@.swept(now as nat);
        let mut i: usize = 0;
        while i < self.seen.len()
            invariant
                i <= self.seen@.len(),
                distinct(before),
                distinct(self.seen@),
                self.window_ms == old(self).window_ms,
                self.window_ms >= 1000,
                self.last_sweep == if due {
                    now
                } else {
                    old(self).last_sweep
                },
                before == old(self).seen@,
                forall|k: int| 0 <= k < i ==> (#[trigger] self.seen@[k]).expires_at > now,
                forall|k: int| 0 <= k < self.seen@.len() ==> before.contains(#[trigger] self.seen@[k]),
                forall|k: int|
                    0 <= k < before.len() && #[trigger] before[k].expires_at > now
                        ==> self.seen@.contains(before[k]),
            decreases self.seen@.len() - i,
        {
            if self.seen[i].expires_at > now as u128 {
                i = i + 1;
            } else {
                let ghost here = self.seen@;
                let _ = self.seen.swap_remove(i);
                proof {
                    lemma_swap_removed(here, i as int, self.seen@);
                    assert forall|k: int|
                        0 <= k < before.len() && #[trigger] before[k].expires_at
                            > now implies self.seen@.contains(before[k]) by {
                        let m = choose|m: int| 0 <= m < here.len() && here[m] == before[k];
                        assert(m != i);
                        if m == here.len() - 1 {
                            assert(self.seen@[i as int] == before[k]);
                        } else {
                            assert(self.seen@[m] == before[k]);
                        }
                    }
                    assert forall|k: int| 0 <= k < self.seen@.len() implies before.contains(
                        #[trigger] self.seen@[k],
                    ) by {
                        if k == i {
                            assert(before.contains(here[here.len() - 1]));
                        } else {
                            assert(before.contains(here[k]));
                        }
                    }
                }
            }
        }
        proof {
            let after = self.seen@;
            assert forall|id: (u128, Seq<u8>)|
                #![trigger swept.contains_key(id)]
                #![trigger expiries(after).contains_key(id)]
                swept.contains_key(id) == expiries(after).contains_key(id) && (swept.contains_key(id)
                    ==> swept[id] == expiries(after)[id]) by {
                lemma_expiries(before, id);
                lemma_expiries(after, id);
                if swept.contains_key(id) {
                    let k = choose|k: int|
                        0 <= k < before.len() && (#[trigger] before[k].key_id, before[k].digest@)
                            == id;
                    assert(before[k].expires_at > now);
                    let m = choose|m: int| 0 <= m < after.len() && after[m] == before[k];
                    assert((after[m].key_id, after[m].digest@) == id);
                }
                if expiries(after).contains_key(id) {
                    let m = choose|m: int|
                        0 <= m < after.len() && (#[trigger] after[m].key_id, after[m].digest@)
                            == id;
                    assert(after[m].expires_at > now);
                    assert(before.contains(after[m]));
                    let k = choose|k: int| 0 <= k < before.len() && before[k] == after[m];
                    assert((before[k].key_id, before[k].digest@) == id);
                }
            }
            assert(expiries(after) =~= swept);
        }
    }
}

/// Removing one signature keeps the others distinct.
proof fn lemma_swap_removed(before: Seq<SeenSignature>, i: int, after: Seq<SeenSignature>)
    requires
        distinct(before),
        0 <= i < before.len(),
        after == before.update(i, before.last()).drop_last(),
    ensures
        distinct(after),
{
    assert forall|a: int, b: int| 0 <= a < b < after.len() implies !(#[trigger] after[a].key_id
        == #[trigger] after[b].key_id && after[a].digest@ == after[b].digest@) by {
        let last = before.len() - 1;
        let x = if a == i {
            last
        } else {
            a
        };
        let y = if b == i {
            last
        } else {
            b
        };
        if x < y {
            assert(!(before[x].key_id == before[y].key_id && before[x].digest@
                == before[y].digest@));
        } else {
            assert(!(before[y].key_id == before[x].key_id && before[y].digest@
                == before[x].digest@));
        }
    }
}

/// Renewing one signature changes nothing about the others.
proof fn lemma_replaced(before: Seq<SeenSignature>, k: int, entry: SeenSignature)
    requires
        distinct(before),
        0 <= k < before.len(),
        before[k].key_id == entry.key_id,
        before[k].digest@ == entry.digest@,
    ensures
        distinct(before.update(k, entry)),
        expiries(before.update(k, entry)) == expiries(before).insert(
            (entry.key_id, entry.digest@),
            entry.expires_at as nat,
        ),
{
    let after = before.update(k, entry);
    assert forall|i: int, j: int| 0 <= i < j < after.len() implies !(#[trigger] after[i].key_id
        == #[trigger] after[j].key_id && after[i].digest@ == after[j].digest@) by {
        assert(!(before[i].key_id == before[j].key_id && before[i].digest@ == before[j].digest@));
    }
    let want = expiries(before).insert((entry.key_id, entry.digest@), entry.expires_at as nat);
    assert forall|id: (u128, Seq<u8>)|
        expiries(after).dom().contains(id) == #[trigger] want.dom().contains(id) && (
        want.dom().contains(id) ==> expiries(after)[id] == want[id]) by {
        lemma_expiries(before, id);
        lemma_expiries(after, id);
        if (entry.key_id, entry.digest@) == id {
            assert((after[k].key_id, after[k].digest@) == id);
        } else {
            if expiries(before).contains_key(id) {
                let i = choose|i: int|
                    0 <= i < before.len() && (#[trigger] before[i].key_id, before[i].digest@) == id;
                assert((after[i].key_id, after[i].digest@) == id);
            }
            if expiries(after).contains_key(id) {
                let i = choose|i: int|
                    0 <= i < after.len() && (#[trigger] after[i].key_id, after[i].digest@) == id;
                assert((before[i].key_id, before[i].digest@) == id);
            }
        }
    }
    assert forall|id: (u128, Seq<u8>)|
        #[trigger] expiries(after).dom().contains(id) <==> want.dom().contains(id) by {}
    assert(expiries(after).dom() =~= want.dom());
    assert forall|id: (u128, Seq<u8>)| want.dom().contains(id) implies #[trigger] expiries(
        after,
    )[id] == want[id] by {}
    assert(expiries(after) =~= want);
}

/// What a guard knows before the `i`-th of several uses.
pub open spec fn state_before(start: GuardState, uses: Seq<Use>, i: int) -> GuardState
    decreases i,
{
    if i <= 0 {
        start
    } else {
        state_before(start, uses, i - 1).after(uses[i - 1].id, uses[i - 1].now)
    }
}

/// Whether the `i`-th of several uses is accepted.
pub open spec fn accepted(start: GuardState, uses: Seq<Use>, i: int) -> bool {
    !state_before(start, uses, i).refuses(uses[i].id, uses[i].now)
}

/// Whether the clock never goes back.
pub open spec fn in_order(uses: Seq<Use>) -> bool {
    forall|i: int, j: int|
        0 <= i <= j < uses.len() ==> (#[trigger] uses[i]).now <= (#[trigger] uses[j]).now
}

/// The window of a guard never changes.
proof fn lemma_window_stays(start: GuardState, uses: Seq<Use>, i: int)
    ensures
        state_before(start, uses, i).window == start.window,
    decreases i,
{
    if i > 0 {
        lemma_window_stays(start, uses, i - 1);
    }
}

/// A signature that was accepted stays remembered until its window has passed.
proof fn lemma_stays_remembered(start: GuardState, uses: Seq<Use>, i: int, k: int)
    requires
        in_order(uses),
        0 <= i < k < uses.len(),
        accepted(start, uses, i),
        uses[k - 1].now < uses[i].now + start.window,
    ensures
        state_before(start, uses, k).remembered.contains_key(uses[i].id),
        state_before(start, uses, k).remembered[uses[i].id] == uses[i].now + start.window,
    decreases k,
{
    lemma_window_stays(start, uses, i);
    if k > i + 1 {
        assert(uses[k - 2].now <= uses[k - 1].now);
        lemma_stays_remembered(start, uses, i, k - 1);
        assert(state_before(start, uses, k - 1).refuses(uses[i].id, uses[k - 1].now));
    }
}

/// Whatever signatures are used in between, however many of them: one that was accepted is refused
/// until its window has passed.
pub proof fn law_second_use_is_refused(start: GuardState, uses: Seq<Use>, i: int, j: int)
    requires
        in_order(uses),
        0 <= i < j < uses.len(),
        uses[i].id == uses[j].id,
        accepted(start, uses, i),
        uses[j].now < uses[i].now + start.window,
    ensures
        !accepted(start, uses, j),
{
    assert(uses[j - 1].now <= uses[j].now);
    lemma_stays_remembered(start, uses, i, j);
}

/// A signature that was accepted is remembered under no other expiry until it is accepted again: a use
/// that is refused does not renew it.
proof fn lemma_keeps_its_expiry(start: GuardState, uses: Seq<Use>, i: int, k: int)
    requires
        0 <= i < k <= uses.len(),
        accepted(start, uses, i),
        forall|m: int|
            i < m < k && (#[trigger] uses[m]).id == uses[i].id ==> !accepted(start, uses, m),
    ensures
        state_before(start, uses, k).remembered.contains_key(uses[i].id) ==> state_before(
            start,
            uses,
            k,
        ).remembered[uses[i].id] == uses[i].now + start.window,
    decreases k,
{
    lemma_window_stays(start, uses, i);
    if k > i + 1 {
        lemma_keeps_its_expiry(start, uses, i, k - 1);
        assert(uses[k - 1].id == uses[i].id ==> !accepted(start, uses, k - 1));
    }
}

/// Once its window has passed, a signature that was not accepted meanwhile is accepted again, however
/// often it was refused.
pub proof fn law_entry_expires_after_window(start: GuardState, uses: Seq<Use>, i: int, j: int)
    requires
        0 <= i < j < uses.len(),
        uses[i].id == uses[j].id,
        accepted(start, uses, i),
        forall|m: int|
            i < m < j && (#[trigger] uses[m]).id == uses[i].id ==> !accepted(start, uses, m),
        uses[i].now + start.window <= uses[j].now,
    ensures
        accepted(start, uses, j),
{
    lemma_keeps_its_expiry(start, uses, i, j);
}

/// One key's signature never blocks another key's, even over the same digest.
pub proof fn law_keys_do_not_collide(
    state: GuardState,
    key_id: u128,
    other: u128,
    digest: Seq<u8>,
    now: nat,
    later: nat,
)
    requires
        key_id != other,
        now <= later,
    ensures
        state.after((key_id, digest), now).refuses((other, digest), later) == state.refuses(
            (other, digest),
            later,
        ),
{
}

/// A signature that is not remembered is accepted, and one that is remembered is refused until it
/// expires.
pub proof fn law_which_signatures_are_refused(
    state: GuardState,
    id: (u128, Seq<u8>),
    until: nat,
    now: nat,
)
    ensures
        !state.remembered.contains_key(id) ==> !state.refuses(id, now),
        state.remembered.contains_key(id) && state.remembered[id] == until ==> (state.refuses(
            id,
            now,
        ) <==> now < until),
{
}

/// Using a signature for the first time has it refused for the length of the window; it changes
/// nothing about any other, and neither does a use that is refused.
pub proof fn law_a_use_is_remembered_for_the_window(
    state: GuardState,
    id: (u128, Seq<u8>),
    other: (u128, Seq<u8>),
    now: nat,
    later: nat,
)
    requires
        now <= later,
    ensures
        state.after(id, now).window == state.window,
        !state.refuses(id, now) ==> (state.after(id, now).refuses(id, later) <==> later < now
            + state.window),
        state.refuses(id, now) ==> (state.after(id, now).refuses(id, later) <==> state.refuses(
            id,
            later,
        )),
        other != id ==> (state.after(id, now).refuses(other, later) <==> state.refuses(
            other,
            later,
        )),
{
}

/// What has expired is forgotten once a quarter of the window has passed since that was last done, or
/// once a hundred thousand signatures are tracked.
pub proof fn law_expired_signatures_are_forgotten(
    state: GuardState,
    id: (u128, Seq<u8>),
    now: nat,
)
    ensures
        now - state.swept_at >= state.window / 4 || state.remembered.len() >= 100_000 ==> (
        state.swept(now).contains_key(id) <==> state.refuses(id, now)),
        now - state.swept_at >= state.window / 4 ==> state.after(id, now).swept_at == now,
        now - state.swept_at < state.window / 4 ==> state.after(id, now).swept_at == state.swept_at,
{
}

/// A window from a second to an hour is taken as it is; a shorter one is a second, a longer one an
/// hour.
pub proof fn law_windows_are_kept_in_bounds(window_secs: i64)
    ensures
        1 <= clamped_window(window_secs) <= 3600,
        1 <= window_secs <= 3600 ==> clamped_window(window_secs) == window_secs,
        window_secs < 1 ==> clamped_window(window_secs) == 1,
        window_secs > 3600 ==> clamped_window(window_secs) == 3600,
        MAX_TIMESTAMP_SKEW_SECS == 300,
{
}

} // verus!
