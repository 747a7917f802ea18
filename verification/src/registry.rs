//! The decision rule of the ledger polling loop.
//!
//! Retrieving helper data means walking candidate registration
//! transactions, newest first, until one is confirmed, successful and
//! decodable. The walking itself is I/O and lives with the caller: it
//! observes each candidate, reports the outcome here, and acts on the
//! step returned. The rule makes the loop bounded: every non-accepting
//! step either consumes a candidate or gives up.

use vstd::prelude::*;

verus! {

/// What the caller observed of one candidate registration transaction.
#[derive(Clone, Copy, Debug, PartialEq, Eq, Structural)]
pub enum CandidateOutcome {
    /// Confirmed with success status and a decodable payload.
    Confirmed,
    /// Confirmed but reverted: to be skipped.
    Reverted,
    /// Transaction, receipt or payload unavailable: a transient failure,
    /// to be skipped.
    Unavailable,
}

/// What the polling loop does next.
#[derive(Clone, Copy, Debug, PartialEq, Eq, Structural)]
pub enum PollStep {
    /// Consume this candidate's helper values.
    Accept,
    /// Move on to the next candidate.
    Skip,
    /// The candidate set is exhausted: surface `LedgerQueryFailure`.
    GiveUp,
}

/// One step of the bounded retry over candidate transactions: only a
/// confirmed, successful, decodable registration is consumed; reverted
/// or unavailable candidates are skipped while any remain; an exhausted
/// candidate set surfaces failure, never a silent default.
pub fn poll_step(remaining: usize, outcome: CandidateOutcome) -> (step: PollStep)
    ensures
        step == PollStep::Accept <==> outcome == CandidateOutcome::Confirmed,
        step == PollStep::GiveUp <==> (outcome != CandidateOutcome::Confirmed && remaining == 0),
        step == PollStep::Skip <==> (outcome != CandidateOutcome::Confirmed && remaining > 0),
{
    match outcome {
        CandidateOutcome::Confirmed => PollStep::Accept,
        _ => {
            if remaining == 0 {
                PollStep::GiveUp
            } else {
                PollStep::Skip
            }
        },
    }
}

} // verus!
