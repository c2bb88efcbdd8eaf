//! Exponential-backoff-with-jitter retry policy for outbound calls, shared by calls to remote
//! vaults and by feed fetches.

use rand::RngExt;
use vstd::arithmetic::power2::pow2;
use vstd::prelude::*;

verus! {

/// The status codes that often resolve themselves: rate limiting and gateway errors.
pub open spec fn is_transient(status: u16) -> bool {
    status == 429 || status == 502 || status == 503 || status == 504
}

/// Whether a status is transient and worth retrying unchanged. Excludes `500`, which a retry is
/// unlikely to mend, and `413`, which an unchanged retry never does.
pub fn is_transient_status(status: u16) -> (b: bool)
    ensures
        b == is_transient(status),
{
    status == 429 || status == 502 || status == 503 || status == 504
}

/// The longest delay, in milliseconds, before jitter.
pub const MAX_BACKOFF_MS: u64 = 30_000;

/// The delay before retry `attempt` (the first is `1`), without jitter: the base delay doubled for
/// every attempt after the first, ten times at most, and never above the cap.
pub open spec fn backoff(base_ms: u64, attempt: u32) -> nat {
    let doublings = if attempt == 0 {
        0nat
    } else if attempt > 11 {
        10nat
    } else {
        (attempt - 1) as nat
    };
    let delay = base_ms * pow2(doublings);
    if delay > MAX_BACKOFF_MS {
        MAX_BACKOFF_MS as nat
    } else {
        delay as nat
    }
}

/// Whether a delay is `base` with nothing but up to half of it added.
pub open spec fn is_jittered(delay: nat, base: nat) -> bool {
    base <= delay && 2 * delay <= 3 * base
}

/// Calls `random_range` on the thread's generator: any value up to `ceiling`, both ends included.
#[verifier::external_body]
fn random_up_to(ceiling: u64) -> (r: u64)
    ensures
        r <= ceiling,
{
    rand::rng().random_range(0..=ceiling)
}

/// The delay before retry `attempt`, without jitter.
pub fn capped_backoff(base_ms: u64, attempt: u32) -> (delay: u64)
    ensures
        delay == backoff(base_ms, attempt),
{
    let doublings: u32 = if attempt == 0 {
        0
    } else if attempt > 11 {
        10
    } else {
        attempt - 1
    };
    proof {
        vstd::arithmetic::power2::lemma2_to64();
    }
    let mut multiplier: u64 = 1;
    for i in 0..doublings
        invariant
            doublings <= 10,
            multiplier == pow2(i as nat),
            i <= 10 ==> multiplier <= 1024,
    {
        proof {
            vstd::arithmetic::power2::lemma2_to64();
            vstd::arithmetic::power2::lemma_pow2_unfold((i + 1) as nat);
            if i < 9 {
                vstd::arithmetic::power2::lemma_pow2_strictly_increases((i + 1) as nat, 10);
            }
        }
        multiplier = multiplier * 2;
    }
    assert(base_ms * multiplier <= u64::MAX * 1024) by (nonlinear_arith)
        requires
            base_ms <= u64::MAX,
            multiplier <= 1024,
    ;
    let delay: u128 = base_ms as u128 * multiplier as u128;
    if delay > MAX_BACKOFF_MS as u128 {
        MAX_BACKOFF_MS
    } else {
        delay as u64
    }
}

/// The delay in milliseconds before retry `attempt`, with up to half of it added as jitter so that
/// jobs that failed together do not retry together.
pub fn backoff_with_jitter(base_ms: u64, attempt: u32) -> (delay: u64)
    ensures
        is_jittered(delay as nat, backoff(base_ms, attempt)),
{
    let capped: u64 = capped_backoff(base_ms, attempt);
    capped + random_up_to(capped / 2)
}

/// No delay exceeds the cap by more than half, whatever the base and the attempt are.
pub proof fn law_backoff_is_bounded(base_ms: u64, attempt: u32, delay: nat)
    requires
        is_jittered(delay, backoff(base_ms, attempt)),
    ensures
        delay <= MAX_BACKOFF_MS + MAX_BACKOFF_MS / 2,
{
}

/// A later attempt never waits less, jitter aside.
pub proof fn law_backoff_grows(base_ms: u64, earlier: u32, later: u32)
    requires
        earlier <= later,
    ensures
        backoff(base_ms, earlier) <= backoff(base_ms, later),
{
    let doublings = |attempt: u32|
        if attempt == 0 {
            0nat
        } else if attempt > 11 {
            10nat
        } else {
            (attempt - 1) as nat
        };
    let a = doublings(earlier);
    let b = doublings(later);
    if a < b {
        vstd::arithmetic::power2::lemma_pow2_strictly_increases(a, b);
    }
    assert(base_ms * pow2(a) <= base_ms * pow2(b)) by (nonlinear_arith)
        requires
            pow2(a) <= pow2(b),
            base_ms >= 0,
    ;
}

/// The first retry waits for the base delay, and the second for twice that, below the cap.
pub proof fn law_backoff_doubles(base_ms: u64)
    requires
        2 * base_ms <= MAX_BACKOFF_MS,
    ensures
        backoff(base_ms, 1) == base_ms,
        backoff(base_ms, 2) == 2 * base_ms,
{
    vstd::arithmetic::power2::lemma2_to64();
    assert(base_ms * pow2(0) == base_ms) by (nonlinear_arith)
        requires
            pow2(0) == 1,
    ;
    assert(base_ms * pow2(1) == 2 * base_ms) by (nonlinear_arith)
        requires
            pow2(1) == 2,
    ;
}

/// The statuses worth a retry are 429, 502, 503 and 504, and no other.
pub proof fn law_transient_statuses(status: u16)
    ensures
        is_transient(status) <==> status == 429 || status == 502 || status == 503 || status == 504,
{
}

/// The delay before the n-th retry is the base delay doubled n - 1 times, and never above half a
/// minute.
pub proof fn law_backoff_is_the_base_doubled(base_ms: u64, attempt: u32)
    requires
        1 <= attempt <= 11,
    ensures
        base_ms * pow2((attempt - 1) as nat) <= 30_000 ==> backoff(base_ms, attempt) == base_ms
            * pow2((attempt - 1) as nat),
        base_ms * pow2((attempt - 1) as nat) > 30_000 ==> backoff(base_ms, attempt) == 30_000,
{
}

/// Jitter only ever adds, and at most half.
pub proof fn law_jitter_adds_at_most_half(delay: nat, base: nat)
    requires
        is_jittered(delay, base),
    ensures
        base <= delay,
        delay - base <= base / 2,
{
}

/// Every delay from the base to half as much again is a jittered one, and no other is.
pub proof fn law_which_delays_are_jittered(delay: nat, base: nat)
    ensures
        is_jittered(base, base),
        is_jittered(delay, base) <==> base <= delay <= base + base / 2,
{
}

} // verus!
