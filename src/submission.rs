//! Submission pipeline: the checks a ballot passes before it is recorded.
use vstd::prelude::*;
use crate::model::{CoreError, Proposal, Submission};

verus! {

/// A ballot as handed in by a voter.
#[derive(Clone, Debug)]
pub struct SubmitVoteRequest {
    pub proof_hash: String,
    pub note_commitment: String,
    pub nullifier_hash: String,
}

/// Some ballot in `subs` was cast against `pid` with nullifier `nullifier`.
pub open spec fn nullifier_in(subs: Seq<Submission>, pid: u128, nullifier: Seq<char>) -> bool {
    exists|i: int| 0 <= i < subs.len() && subs[i].proposal_id == pid && #[trigger] subs[i].nullifier_hash@ == nullifier
}

/// Whether `nullifier` was already consumed for proposal `pid`.
pub fn nullifier_used(subs: &Vec<Submission>, pid: u128, nullifier: &String) -> (r: bool)
    ensures
        r == nullifier_in(subs@, pid, nullifier@),
{
    let mut i: usize = 0;
    while i < subs.len()
        invariant
            i <= subs.len(),
            forall|j: int| 0 <= j < i ==> !(subs@[j].proposal_id == pid && subs@[j].nullifier_hash@ == nullifier@),
        decreases subs.len() - i,
    {
        if subs[i].proposal_id == pid && subs[i].nullifier_hash == *nullifier {
            return true;
        }
        i = i + 1;
    }
    false
}

/// The lifecycle guard and the double-voting check, in that order: a ballot outside the
/// open window is refused whatever else holds of it.
pub fn check_ballot(proposal: &Proposal, now: i64, nullifier_taken: bool) -> (r: Result<(), CoreError>)
    ensures
        !proposal.open_for_ballots(now as int) ==> r == Err::<(), CoreError>(CoreError::VotingClosed),
        proposal.open_for_ballots(now as int) && nullifier_taken ==> r == Err::<(), CoreError>(
            CoreError::DuplicateNullifier,
        ),
        proposal.open_for_ballots(now as int) && !nullifier_taken ==> r is Ok,
{
    if !proposal.accepts_ballots(now) {
        Err(CoreError::VotingClosed)
    } else if nullifier_taken {
        Err(CoreError::DuplicateNullifier)
    } else {
        Ok(())
    }
}

/// The ballot record for `req`: `verified` is the proof verifier's answer, and the
/// verification time `now` is kept only when it is `true`.
pub fn record_ballot(id: u128, proposal_id: u128, req: &SubmitVoteRequest, verified: bool, now: i64) -> (r: Submission)
    ensures
        r.id == id,
        r.proposal_id == proposal_id,
        r.proof_hash@ == req.proof_hash@,
        r.note_commitment@ == req.note_commitment@,
        r.nullifier_hash@ == req.nullifier_hash@,
        r.verified_bool == verified,
        r.verified_at == (if verified { Some(now) } else { None::<i64> }),
        r.wf(),
{
    Submission {
        id,
        proposal_id,
        proof_hash: req.proof_hash.clone(),
        note_commitment: req.note_commitment.clone(),
        nullifier_hash: req.nullifier_hash.clone(),
        verified_bool: verified,
        verified_at: if verified { Some(now) } else { None },
    }
}

} // verus!
