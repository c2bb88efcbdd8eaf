//! Cron schedules, and which scheduled job belongs to which resource.

use std::collections::HashMap;

use vstd::prelude::*;

use crate::text;

verus! {

broadcast use vstd::std_specs::hash::group_hash_axioms;

/// A conventional expression of five fields with a seconds field before it; every other expression
/// as it is.
pub open spec fn normalized_cron(expr: Seq<char>) -> Seq<char> {
    if text::words(expr).len() == 5 {
        "0 "@ + expr
    } else {
        expr
    }
}

/// Converts a conventional expression of five fields into the form of six fields, seconds first,
/// that the scheduler requires. Every other expression passes through unchanged.
pub fn normalize_cron(expr: &str) -> (r: String)
    ensures
        r@ == normalized_cron(expr@),
{
    let words = text::split_whitespace(expr);
    assert(words@.len() == text::texts(words@).len());
    if words.len() == 5 {
        text::concat("0 ", expr)
    } else {
        expr.to_owned()
    }
}

/// What the scheduler's parser has to say against an expression of six fields, if anything.
pub uninterp spec fn cron_fault(expr: Seq<char>) -> Option<Seq<char>>;

/// Calls `Cron::new` and `Cron::parse`, with seconds required and day of month and day of week
/// combined, as the scheduler does. Whether the expression parses, and what is said where it does
/// not, is a function of the expression.
#[verifier::external_body]
fn parse_cron(expr: &str) -> (r: Result<(), String>)
    ensures
        match r {
            Ok(_) => cron_fault(expr@) is None,
            Err(fault) => cron_fault(expr@) == Some(fault@),
        },
{
    match croner::Cron::new(expr).with_seconds_required().with_dom_and_dow().parse() {
        Ok(_) => Ok(()),
        Err(e) => Err(e.to_string()),
    }
}

/// What stands against a schedule, if anything.
pub open spec fn schedule_fault(expr: Seq<char>) -> Option<Seq<char>> {
    if text::trimmed(expr).len() == 0 {
        Some("cron_schedule must not be empty"@)
    } else {
        cron_fault(normalized_cron(expr))
    }
}

/// Validates a schedule as the scheduler will read it, so that what is accepted can be scheduled.
pub fn validate_cron_expression(expr: &str) -> (r: Result<(), String>)
    ensures
        match r {
            Ok(_) => schedule_fault(expr@) is None,
            Err(fault) => schedule_fault(expr@) == Some(fault@),
        },
{
    if text::trim(expr).is_empty() {
        return Err("cron_schedule must not be empty".to_owned());
    }
    let normalized = normalize_cron(expr);
    parse_cron(normalized.as_str())
}

/// Which scheduled job belongs to which resource. A resource has at most one.
pub struct JobRegistry {
    jobs: HashMap<u128, u128>,
}

impl View for JobRegistry {
    type V = Map<u128, u128>;

    closed spec fn view(&self) -> Map<u128, u128> {
        self.jobs@
    }
}

impl JobRegistry {
    /// No job registered.
    pub fn new() -> (r: Self)
        ensures
            r@ == Map::<u128, u128>::empty(),
    {
        JobRegistry { jobs: HashMap::new() }
    }

    /// Takes a resource's job out, to be removed from the scheduler.
    pub fn withdraw(&mut self, resource: u128) -> (job: Option<u128>)
        ensures
            final(self)@ == old(self)@.remove(resource),
            job == if old(self)@.contains_key(resource) {
                Some(old(self)@[resource])
            } else {
                None::<u128>
            },
    {
        let job = self.jobs.remove(&resource);
        assert(self@ =~= old(self)@.remove(resource));
        job
    }

    /// Registers the job that the scheduler has given a resource.
    pub fn enlist(&mut self, resource: u128, job: u128)
        ensures
            final(self)@ == old(self)@.insert(resource, job),
    {
        let _ = self.jobs.insert(resource, job);
    }
}

/// The expression to schedule a resource by, if it is active.
pub fn schedule_for(is_active: bool, cron_schedule: &str) -> (r: Option<String>)
    ensures
        match r {
            Some(expr) => is_active && expr@ == normalized_cron(cron_schedule@),
            None => !is_active,
        },
{
    if is_active {
        Some(normalize_cron(cron_schedule))
    } else {
        None
    }
}

/// Whatever is accepted can be scheduled: the expression that an accepted schedule is scheduled by
/// has nothing against it.
pub proof fn law_accepted_schedules_can_be_scheduled(expr: Seq<char>)
    requires
        schedule_fault(expr) is None,
    ensures
        cron_fault(normalized_cron(expr)) is None,
{
}

/// Rescheduling a resource takes its old job out before the new one is registered, so that no
/// resource ever has two, and touches no other resource.
pub proof fn law_rescheduling_replaces_one_job(
    jobs: Map<u128, u128>,
    resource: u128,
    job: u128,
    other: u128,
)
    requires
        other != resource,
    ensures
        !jobs.remove(resource).contains_key(resource),
        jobs.remove(resource).insert(resource, job)[resource] == job,
        jobs.remove(resource).insert(resource, job).contains_key(other) == jobs.contains_key(other),
        jobs.contains_key(other) ==> jobs.remove(resource).insert(resource, job)[other]
            == jobs[other],
{
}

/// A conventional schedule fires at second zero: what it is scheduled by is a zero and then its own
/// five fields. Every other schedule is left as it is.
pub proof fn law_five_fields_fire_at_second_zero(expr: Seq<char>)
    ensures
        text::words(expr).len() == 5 ==> text::words(normalized_cron(expr)) == seq![seq!['0']]
            + text::words(expr),
        text::words(expr).len() != 5 ==> normalized_cron(expr) == expr,
{
    if text::words(expr).len() == 5 {
        reveal_strlit("0 ");
        let zero = seq!['0'];
        assert(normalized_cron(expr) =~= zero.push(' ') + expr);
        text::law_white_space_parts_words(zero, ' ', expr);
        assert forall|i: int| 0 <= i < zero.len() implies !text::is_white_space(
            #[trigger] zero[i],
        ) by {}
        text::law_text_without_white_space_is_a_word(zero);
    }
}

/// A blank schedule is refused; every other is refused exactly where the scheduler's parser refuses
/// what it is scheduled by, and in the same words.
pub proof fn law_schedules_are_judged_as_they_are_scheduled(expr: Seq<char>)
    ensures
        text::trimmed(expr).len() == 0 ==> schedule_fault(expr) is Some,
        text::trimmed(expr).len() > 0 && text::words(expr).len() != 5 ==> schedule_fault(expr)
            == cron_fault(expr),
        text::trimmed(expr).len() > 0 && text::words(expr).len() == 5 ==> schedule_fault(expr)
            == cron_fault(seq!['0', ' '] + expr),
{
    reveal_strlit("0 ");
    assert("0 "@ =~= seq!['0', ' ']);
}

/// A blank schedule is refused as an empty one.
pub proof fn law_blank_schedules_are_empty(expr: Seq<char>)
    requires
        text::trimmed(expr).len() == 0,
    ensures
        schedule_fault(expr) == Some("cron_schedule must not be empty"@),
{
}

} // verus!
