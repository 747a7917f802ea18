use rust_rbe::registry::{poll_step, CandidateOutcome, PollStep};

#[test]
fn poll_accepts_confirmed() {
    assert_eq!(poll_step(5, CandidateOutcome::Confirmed), PollStep::Accept);
    assert_eq!(poll_step(0, CandidateOutcome::Confirmed), PollStep::Accept);
}

#[test]
fn poll_skips_while_candidates_remain() {
    assert_eq!(poll_step(3, CandidateOutcome::Reverted), PollStep::Skip);
    assert_eq!(poll_step(1, CandidateOutcome::Unavailable), PollStep::Skip);
}

#[test]
fn poll_gives_up_when_exhausted() {
    assert_eq!(poll_step(0, CandidateOutcome::Reverted), PollStep::GiveUp);
    assert_eq!(poll_step(0, CandidateOutcome::Unavailable), PollStep::GiveUp);
}
