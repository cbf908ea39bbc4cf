use vstd::prelude::*;

use crate::models::Shortlink;
use crate::store::InsertOutcome;

verus! {

/// How many candidate names canonical creation tries before it gives up.
pub const MAX_ATTEMPTS: u32 = 10;

/// Canonical creation could not find a free name within `MAX_ATTEMPTS` tries.
pub enum AllocationError {
    NamesExhausted,
}

/// What an attempt to store a canonical entry reported, in a store whose own
/// constraints decide uniqueness.
pub enum InsertReport {
    /// The entry was stored.
    Stored,
    /// The name is already a custom name; nothing was stored.
    NameInCustom,
    /// A uniqueness constraint refused the entry; carries the canonical entry
    /// for the target if one exists.
    UniqueViolation(Option<Shortlink>),
}

/// Reads an insert report as an outcome: a refused entry whose target has a
/// canonical entry is a target collision, any other refusal a name collision.
pub fn classify_insert(report: InsertReport) -> (r: InsertOutcome)
    ensures
        match report {
            InsertReport::Stored => r is Inserted,
            InsertReport::NameInCustom => r is NameAlreadyExists,
            InsertReport::UniqueViolation(Some(e)) => r matches InsertOutcome::TargetAlreadyExists(l) && l.name@ == e.name@
                && l.target@ == e.target@,
            InsertReport::UniqueViolation(None) => r is NameAlreadyExists,
        },
{
    match report {
        InsertReport::Stored => InsertOutcome::Inserted,
        InsertReport::NameInCustom => InsertOutcome::NameAlreadyExists,
        InsertReport::UniqueViolation(Some(existing)) => InsertOutcome::TargetAlreadyExists(existing),
        InsertReport::UniqueViolation(None) => InsertOutcome::NameAlreadyExists,
    }
}

/// A custom name may be stored only when no entry of either namespace uses it.
pub fn custom_name_is_free(uses_in_either_namespace: i64) -> (r: bool)
    ensures
        r == (uses_in_either_namespace == 0),
{
    uses_in_either_namespace == 0
}

/// What canonical creation does after one insert attempt.
pub enum CanonicalStep {
    /// Creation is over: this is the canonical entry for the target.
    Done(Shortlink),
    /// The candidate collided: draw another and try again.
    Retry,
    /// The candidate collided on the last allowed attempt.
    GiveUp,
}

/// Decides the next step of canonical creation after attempt number `attempt`
/// (counted from 0) inserted `candidate` for `target` with the given outcome.
pub fn next_canonical_step(attempt: u32, outcome: InsertOutcome, candidate: &String, target: &String) -> (r: CanonicalStep)
    requires
        attempt < MAX_ATTEMPTS,
    ensures
        match outcome {
            InsertOutcome::Inserted => r matches CanonicalStep::Done(l) && l.name@ == candidate@ && l.target@ == target@,
            InsertOutcome::TargetAlreadyExists(e) => r matches CanonicalStep::Done(l) && l.name@ == e.name@ && l.target@ == e.target@,
            InsertOutcome::NameAlreadyExists => if attempt + 1 < MAX_ATTEMPTS {
                r is Retry
            } else {
                r is GiveUp
            },
        },
{
    match outcome {
        InsertOutcome::Inserted => CanonicalStep::Done(Shortlink { name: candidate.clone(), target: target.clone() }),
        InsertOutcome::TargetAlreadyExists(existing) => CanonicalStep::Done(existing),
        InsertOutcome::NameAlreadyExists => {
            if attempt + 1 < MAX_ATTEMPTS {
                CanonicalStep::Retry
            } else {
                CanonicalStep::GiveUp
            }
        },
    }
}

} // verus!
