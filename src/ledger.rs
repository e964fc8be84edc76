//! The ballot ledger: proposals, ballots and tallies under the core's invariants.
//! Every operation either applies its whole effect or leaves the ledger unchanged.
use vstd::prelude::*;
use crate::model::{CoreError, Proposal, ProposalState, Role, Submission, Tally};
use crate::sources::{clock_now, fresh_id};
use crate::submission::{check_ballot, nullifier_in, nullifier_used, record_ballot, SubmitVoteRequest};
use crate::tally::{plan_tally, quorum_reached, single_choice_results, summary_of, verified_count};

verus! {

/// The ballots of `subs` cast against `pid`, in their order.
pub open spec fn ballots_of(subs: Seq<Submission>, pid: u128) -> Seq<Submission>
    decreases subs.len(),
{
    if subs.len() == 0 {
        Seq::empty()
    } else {
        let rest = ballots_of(subs.drop_last(), pid);
        if subs.last().proposal_id == pid {
            rest.push(subs.last())
        } else {
            rest
        }
    }
}

/// Some tally of `tallies` belongs to `pid`.
pub open spec fn has_tally(tallies: Seq<Tally>, pid: u128) -> bool {
    exists|t: int| 0 <= t < tallies.len() && #[trigger] tallies[t].proposal_id == pid
}

/// Persisted state of the ballot core.
pub struct Ledger {
    pub proposals: Vec<Proposal>,
    pub submissions: Vec<Submission>,
    pub tallies: Vec<Tally>,
}

impl Ledger {
    /// Some proposal has identifier `pid`.
    pub open spec fn has_proposal(&self, pid: u128) -> bool {
        exists|i: int| 0 <= i < self.proposals@.len() && #[trigger] self.proposals@[i].id == pid
    }

    /// Position of the proposal with identifier `pid`.
    pub open spec fn index_of(&self, pid: u128) -> int {
        choose|i: int| 0 <= i < self.proposals@.len() && #[trigger] self.proposals@[i].id == pid
    }

    /// The proposal with identifier `pid`.
    pub open spec fn lookup(&self, pid: u128) -> Proposal {
        self.proposals@[self.index_of(pid)]
    }

    /// The invariants of the ledger:
    /// proposal identifiers are unique and each proposal is well formed;
    /// each ballot's timestamp is present iff it was verified;
    /// no two ballots of one proposal share a nullifier;
    /// there is at most one tally per proposal, and a tally exactly for the tallied proposals.
    pub open spec fn wf(&self) -> bool {
        &&& forall|i: int, j: int|
            0 <= i < j < self.proposals@.len() ==> #[trigger] self.proposals@[i].id
                != #[trigger] self.proposals@[j].id
        &&& forall|i: int| 0 <= i < self.proposals@.len() ==> #[trigger] self.proposals@[i].wf()
        &&& forall|i: int| 0 <= i < self.submissions@.len() ==> #[trigger] self.submissions@[i].wf()
        &&& forall|i: int, j: int|
            0 <= i < j < self.submissions@.len() && #[trigger] self.submissions@[i].proposal_id
                == #[trigger] self.submissions@[j].proposal_id ==> self.submissions@[i].nullifier_hash@
                != self.submissions@[j].nullifier_hash@
        &&& forall|i: int, j: int|
            0 <= i < j < self.tallies@.len() ==> #[trigger] self.tallies@[i].proposal_id
                != #[trigger] self.tallies@[j].proposal_id
        &&& forall|i: int|
            0 <= i < self.proposals@.len() ==> (#[trigger] self.proposals@[i].state == ProposalState::Tallied
                <==> has_tally(self.tallies@, self.proposals@[i].id))
        &&& forall|t: int|
            0 <= t < self.tallies@.len() ==> self.has_proposal(#[trigger] self.tallies@[t].proposal_id)
    }

    /// An empty ledger.
    pub fn new() -> (r: Ledger)
        ensures
            r.wf(),
            r.proposals@.len() == 0,
            r.submissions@.len() == 0,
            r.tallies@.len() == 0,
    {
        Ledger { proposals: Vec::new(), submissions: Vec::new(), tallies: Vec::new() }
    }

    /// Position of the proposal with identifier `pid`, if any.
    pub fn find_proposal(&self, pid: u128) -> (r: Option<usize>)
        requires
            self.wf(),
        ensures
            r is None <==> !self.has_proposal(pid),
            r matches Some(i) ==> i < self.proposals@.len() && i == self.index_of(pid)
                && self.proposals@[i as int].id == pid,
    {
        let mut i: usize = 0;
        while i < self.proposals.len()
            invariant
                self.wf(),
                i <= self.proposals@.len(),
                forall|j: int| 0 <= j < i ==> self.proposals@[j].id != pid,
            decreases self.proposals.len() - i,
        {
            if self.proposals[i].id == pid {
                assert(self.proposals@[i as int].id == pid);
                assert(self.has_proposal(pid));
                let ghost k = self.index_of(pid);
                assert(self.proposals@[k].id == pid);
                assert(k == i as int) by {
                    if k < i as int {
                        assert(self.proposals@[k].id != self.proposals@[i as int].id);
                    } else if k > i as int {
                        assert(self.proposals@[i as int].id != self.proposals@[k].id);
                    }
                }
                return Some(i);
            }
            i = i + 1;
        }
        None
    }

    /// The proposal with identifier `pid`.
    pub fn get_proposal(&self, pid: u128) -> (r: Result<Proposal, CoreError>)
        requires
            self.wf(),
        ensures
            !self.has_proposal(pid) ==> r == Err::<Proposal, CoreError>(CoreError::NotFound),
            self.has_proposal(pid) ==> r == Ok::<Proposal, CoreError>(self.lookup(pid)),
    {
        match self.find_proposal(pid) {
            Some(i) => Ok(self.proposals[i].snapshot()),
            None => Err(CoreError::NotFound),
        }
    }
    /// Records a ballot for proposal `pid`, in one atomic step: the proposal must exist
    /// and accept ballots at `now`, and the nullifier must be fresh for it. `verified`
    /// is the proof verifier's answer on `req.proof_hash`; a ballot whose proof failed
    /// is still recorded, unverified, for audit.
    pub fn submit_vote(
        &mut self,
        submission_id: u128,
        pid: u128,
        req: &SubmitVoteRequest,
        verified: bool,
        now: i64,
    ) -> (r: Result<Submission, CoreError>)
        requires
            old(self).wf(),
        ensures
            final(self).wf(),
            !old(self).has_proposal(pid) ==> r == Err::<Submission, CoreError>(CoreError::NotFound),
            old(self).has_proposal(pid) && !old(self).lookup(pid).open_for_ballots(now as int) ==> r
                == Err::<Submission, CoreError>(CoreError::VotingClosed),
            old(self).has_proposal(pid) && old(self).lookup(pid).open_for_ballots(now as int)
                && nullifier_in(old(self).submissions@, pid, req.nullifier_hash@) ==> r == Err::<
                Submission,
                CoreError,
            >(CoreError::DuplicateNullifier),
            old(self).has_proposal(pid) && old(self).lookup(pid).open_for_ballots(now as int)
                && !nullifier_in(old(self).submissions@, pid, req.nullifier_hash@) ==> r is Ok,
            r is Err ==> *final(self) == *old(self),
            r matches Ok(s) ==> {
                &&& final(self).submissions@ == old(self).submissions@.push(s)
                &&& final(self).proposals == old(self).proposals
                &&& final(self).tallies == old(self).tallies
                &&& s.id == submission_id
                &&& s.proposal_id == pid
                &&& s.proof_hash@ == req.proof_hash@
                &&& s.note_commitment@ == req.note_commitment@
                &&& s.nullifier_hash@ == req.nullifier_hash@
                &&& s.verified_bool == verified
                &&& s.verified_at == (if verified { Some(now) } else { None::<i64> })
            },
    {
        let i = match self.find_proposal(pid) {
            Some(i) => i,
            None => return Err(CoreError::NotFound),
        };
        let taken = nullifier_used(&self.submissions, pid, &req.nullifier_hash);
        check_ballot(&self.proposals[i], now, taken)?;
        let s = record_ballot(submission_id, pid, req, verified, now);
        let ghost prev = self.submissions@;
        self.submissions.push(s.snapshot());
        assert forall|a: int, b: int|
            0 <= a < b < self.submissions@.len() && #[trigger] self.submissions@[a].proposal_id
                == #[trigger] self.submissions@[b].proposal_id implies self.submissions@[a].nullifier_hash@
                != self.submissions@[b].nullifier_hash@ by {
            if b == prev.len() {
                assert(prev[a].proposal_id == pid);
            }
        }
        Ok(s)
    }

    /// The ballots cast against `pid`, in the order they were recorded.
    pub fn list_submissions(&self, pid: u128) -> (r: Vec<Submission>)
        ensures
            r@ == ballots_of(self.submissions@, pid),
    {
        let mut out: Vec<Submission> = Vec::new();
        let mut i: usize = 0;
        while i < self.submissions.len()
            invariant
                i <= self.submissions@.len(),
                out@ == ballots_of(self.submissions@.take(i as int), pid),
            decreases self.submissions.len() - i,
        {
            assert(self.submissions@.take(i as int + 1).drop_last() == self.submissions@.take(i as int));
            if self.submissions[i].proposal_id == pid {
                out.push(self.submissions[i].snapshot());
            }
            i = i + 1;
        }
        assert(self.submissions@.take(self.submissions.len() as int) == self.submissions@);
        out
    }
    /// Revokes proposal `pid` on behalf of a principal holding `role`: only a platform
    /// owner may, and only while the proposal is not in a terminal state.
    pub fn revoke_proposal(&mut self, pid: u128, role: Role) -> (r: Result<Proposal, CoreError>)
        requires
            old(self).wf(),
        ensures
            final(self).wf(),
            role != Role::PlatformOwner ==> r == Err::<Proposal, CoreError>(CoreError::Unauthorized),
            role == Role::PlatformOwner && !old(self).has_proposal(pid) ==> r == Err::<Proposal, CoreError>(
                CoreError::NotFound,
            ),
            role == Role::PlatformOwner && old(self).has_proposal(pid) && old(self).lookup(
                pid,
            ).state.is_terminal() ==> r == Err::<Proposal, CoreError>(CoreError::IllegalTransition),
            role == Role::PlatformOwner && old(self).has_proposal(pid) && !old(self).lookup(
                pid,
            ).state.is_terminal() ==> r is Ok,
            r is Err ==> *final(self) == *old(self),
            r matches Ok(p) ==> {
                &&& final(self).proposals@ == old(self).proposals@.update(old(self).index_of(pid), p)
                &&& final(self).submissions == old(self).submissions
                &&& final(self).tallies == old(self).tallies
                &&& p.same_except_lifecycle(&old(self).lookup(pid))
                &&& p.state == ProposalState::Revoked
                &&& p.revoked
            },
    {
        if role != Role::PlatformOwner {
            return Err(CoreError::Unauthorized);
        }
        let i = match self.find_proposal(pid) {
            Some(i) => i,
            None => return Err(CoreError::NotFound),
        };
        let p = self.proposals[i].revoked_by(role)?;
        let ghost prev = self.proposals@;
        self.proposals.set(i, p.snapshot());
        assert(self.proposals@ == prev.update(i as int, p));
        assert forall|a: int| 0 <= a < self.proposals@.len() implies (#[trigger] self.proposals@[a].state
            == ProposalState::Tallied <==> has_tally(self.tallies@, self.proposals@[a].id)) by {
            if a == i as int {
                assert(prev[a].state != ProposalState::Tallied);
            }
        }
        assert forall|t: int| 0 <= t < self.tallies@.len() implies self.has_proposal(
            #[trigger] self.tallies@[t].proposal_id,
        ) by {
            let w = choose|w: int| 0 <= w < prev.len() && #[trigger] prev[w].id == self.tallies@[t].proposal_id;
            assert(self.proposals@[w].id == self.tallies@[t].proposal_id);
        }
        Ok(p)
    }

    /// Tallies proposal `pid` in one atomic step: the lifecycle guard, the quorum rule
    /// over its verified ballots, the single-choice reduction and the audit summary, then the tally record and
    /// the move of the proposal to `Tallied`, together.
    pub fn tally_proposal(
        &mut self,
        tally_id: u128,
        pid: u128,
        now: i64,
    ) -> (r: Result<Tally, CoreError>)
        requires
            old(self).wf(),
        ensures
            final(self).wf(),
            !old(self).has_proposal(pid) ==> r == Err::<Tally, CoreError>(CoreError::NotFound),
            old(self).has_proposal(pid) ==> (old(self).lookup(pid).tally_guard() matches Some(e) ==> r
                == Err::<Tally, CoreError>(e)),
            old(self).has_proposal(pid) && old(self).lookup(pid).tally_guard() is None && !quorum_reached(
                verified_count(old(self).submissions@, pid) as int,
                old(self).lookup(pid).eligible_votes as int,
                old(self).lookup(pid).quorum_bps as int,
            ) ==> r == Err::<Tally, CoreError>(CoreError::QuorumNotMet),
            old(self).has_proposal(pid) && old(self).lookup(pid).tally_guard() is None && quorum_reached(
                verified_count(old(self).submissions@, pid) as int,
                old(self).lookup(pid).eligible_votes as int,
                old(self).lookup(pid).quorum_bps as int,
            ) ==> r is Ok,
            r is Err ==> *final(self) == *old(self),
            r matches Ok(t) ==> {
                &&& final(self).tallies@.len() == old(self).tallies@.len() + 1
                &&& final(self).tallies@.drop_last() == old(self).tallies@
                &&& final(self).tallies@.last().same_as(&t)
                &&& final(self).submissions == old(self).submissions
                &&& final(self).proposals@.len() == old(self).proposals@.len()
                &&& forall|j: int|
                    0 <= j < old(self).proposals@.len() && j != old(self).index_of(pid)
                        ==> #[trigger] final(self).proposals@[j] == old(self).proposals@[j]
                &&& final(self).has_proposal(pid)
                &&& final(self).lookup(pid).same_except_lifecycle(&old(self).lookup(pid))
                &&& final(self).lookup(pid).state == ProposalState::Tallied
                &&& final(self).lookup(pid).finalized
                &&& t.id == tally_id
                &&& t.proposal_id == pid
                &&& t.aggregate_proof_hash@ == summary_of(old(self).submissions@, pid)
                &&& t.verified_at == now
                &&& single_choice_results(t.results@, old(self).submissions@, pid)
            },
    {
        let i = match self.find_proposal(pid) {
            Some(i) => i,
            None => return Err(CoreError::NotFound),
        };
        let (t, p) = plan_tally(&self.proposals[i], &self.submissions, tally_id, now)?;
        let ghost prev = self.proposals@;
        let ghost prev_t = self.tallies@;
        assert(!has_tally(prev_t, pid)) by {
            assert(prev[i as int].state != ProposalState::Tallied);
        }
        self.proposals.set(i, p);
        self.tallies.push(t.snapshot());
        assert(self.tallies@.drop_last() == prev_t);
        assert(has_tally(self.tallies@, pid)) by {
            assert(self.tallies@[prev_t.len() as int].proposal_id == pid);
        }
        assert forall|a: int, b: int| 0 <= a < b < self.tallies@.len() implies #[trigger] self.tallies@[a].proposal_id
            != #[trigger] self.tallies@[b].proposal_id by {
            if b == prev_t.len() {
                assert(prev_t[a].proposal_id == prev_t[a].proposal_id);
            }
        }
        assert forall|a: int| 0 <= a < self.proposals@.len() implies (#[trigger] self.proposals@[a].state
            == ProposalState::Tallied <==> has_tally(self.tallies@, self.proposals@[a].id)) by {
            if a != i as int {
                assert(self.proposals@[a] == prev[a]);
                assert(prev[a].id != pid);
                if has_tally(prev_t, prev[a].id) {
                    let w = choose|w: int| 0 <= w < prev_t.len() && #[trigger] prev_t[w].proposal_id == prev[a].id;
                    assert(self.tallies@[w].proposal_id == prev[a].id);
                }
                if has_tally(self.tallies@, prev[a].id) {
                    let w = choose|w: int| 0 <= w < self.tallies@.len() && #[trigger] self.tallies@[w].proposal_id
                        == prev[a].id;
                    assert(prev_t[w].proposal_id == prev[a].id);
                }
            }
        }
        assert forall|w: int| 0 <= w < self.tallies@.len() implies self.has_proposal(
            #[trigger] self.tallies@[w].proposal_id,
        ) by {
            if w < prev_t.len() {
                let v = choose|v: int| 0 <= v < prev.len() && #[trigger] prev[v].id == prev_t[w].proposal_id;
                assert(self.proposals@[v].id == self.tallies@[w].proposal_id);
            } else {
                assert(self.proposals@[i as int].id == pid);
            }
        }
        assert(self.has_proposal(pid)) by {
            assert(self.proposals@[i as int].id == pid);
        }
        assert(self.index_of(pid) == i as int) by {
            let k = self.index_of(pid);
            if k < i as int {
                assert(self.proposals@[k].id != self.proposals@[i as int].id);
            } else if k > i as int {
                assert(self.proposals@[i as int].id != self.proposals@[k].id);
            }
        }
        Ok(t)
    }
    /// Records a new proposal. It must be `valid_new`, and its identifier unused.
    pub fn create_proposal(&mut self, proposal: Proposal) -> (r: Result<Proposal, CoreError>)
        requires
            old(self).wf(),
        ensures
            final(self).wf(),
            !proposal.valid_new() ==> r == Err::<Proposal, CoreError>(CoreError::ValidationError),
            proposal.valid_new() && old(self).has_proposal(proposal.id) ==> r == Err::<Proposal, CoreError>(
                CoreError::StorageError,
            ),
            proposal.valid_new() && !old(self).has_proposal(proposal.id) ==> r == Ok::<Proposal, CoreError>(
                proposal,
            ),
            r is Err ==> *final(self) == *old(self),
            r is Ok ==> {
                &&& final(self).proposals@ == old(self).proposals@.push(proposal)
                &&& final(self).submissions == old(self).submissions
                &&& final(self).tallies == old(self).tallies
            },
    {
        proposal.check_new()?;
        if self.find_proposal(proposal.id).is_some() {
            return Err(CoreError::StorageError);
        }
        let ghost prev = self.proposals@;
        self.proposals.push(proposal.snapshot());
        assert forall|a: int| 0 <= a < self.proposals@.len() implies (#[trigger] self.proposals@[a].state
            == ProposalState::Tallied <==> has_tally(self.tallies@, self.proposals@[a].id)) by {
            if a == prev.len() {
                if has_tally(self.tallies@, proposal.id) {
                    let w = choose|w: int| 0 <= w < self.tallies@.len() && #[trigger] self.tallies@[w].proposal_id
                        == proposal.id;
                    assert(self.has_proposal(proposal.id));
                }
            }
        }
        assert forall|w: int| 0 <= w < self.tallies@.len() implies self.has_proposal(
            #[trigger] self.tallies@[w].proposal_id,
        ) by {
            let v = choose|v: int| 0 <= v < prev.len() && #[trigger] prev[v].id == self.tallies@[w].proposal_id;
            assert(self.proposals@[v].id == self.tallies@[w].proposal_id);
        }
        Ok(proposal)
    }

    /// `submit_vote` with a fresh identifier and the current time. Whatever those are:
    /// an unknown proposal is `NotFound`, a revoked or terminal one `VotingClosed`, a
    /// consumed nullifier never yields a second ballot, and a recorded ballot holds
    /// the request and the verifier's answer.
    pub fn submit_ballot(&mut self, pid: u128, req: &SubmitVoteRequest, verified: bool) -> (r: Result<Submission, CoreError>)
        requires
            old(self).wf(),
        ensures
            final(self).wf(),
            !old(self).has_proposal(pid) ==> r == Err::<Submission, CoreError>(CoreError::NotFound),
            old(self).has_proposal(pid) && (old(self).lookup(pid).revoked || old(self).lookup(pid).state.is_terminal())
                ==> r == Err::<Submission, CoreError>(CoreError::VotingClosed),
            nullifier_in(old(self).submissions@, pid, req.nullifier_hash@) ==> r is Err,
            r == Err::<Submission, CoreError>(CoreError::NotFound) ==> !old(self).has_proposal(pid),
            old(self).has_proposal(pid) && !nullifier_in(old(self).submissions@, pid, req.nullifier_hash@) ==> (r is Ok
                || r == Err::<Submission, CoreError>(CoreError::VotingClosed)),
            r == Err::<Submission, CoreError>(CoreError::DuplicateNullifier) ==> nullifier_in(
                old(self).submissions@,
                pid,
                req.nullifier_hash@,
            ),
            r is Err ==> *final(self) == *old(self),
            r matches Ok(s) ==> {
                &&& final(self).submissions@ == old(self).submissions@.push(s)
                &&& final(self).proposals == old(self).proposals
                &&& final(self).tallies == old(self).tallies
                &&& s.proposal_id == pid
                &&& s.proof_hash@ == req.proof_hash@
                &&& s.note_commitment@ == req.note_commitment@
                &&& s.nullifier_hash@ == req.nullifier_hash@
                &&& s.verified_bool == verified
                &&& s.wf()
            },
    {
        let id = fresh_id();
        let now = clock_now();
        self.submit_vote(id, pid, req, verified, now)
    }

    /// `tally_proposal` with a fresh identifier and the current time. Those decide only
    /// the tally's identifier and timestamp: which error comes, and what a tally holds,
    /// depend on the ledger alone.
    pub fn tally_now(&mut self, pid: u128) -> (r: Result<Tally, CoreError>)
        requires
            old(self).wf(),
        ensures
            final(self).wf(),
            !old(self).has_proposal(pid) ==> r == Err::<Tally, CoreError>(CoreError::NotFound),
            old(self).has_proposal(pid) ==> (old(self).lookup(pid).tally_guard() matches Some(e) ==> r
                == Err::<Tally, CoreError>(e)),
            old(self).has_proposal(pid) && old(self).lookup(pid).tally_guard() is None && !quorum_reached(
                verified_count(old(self).submissions@, pid) as int,
                old(self).lookup(pid).eligible_votes as int,
                old(self).lookup(pid).quorum_bps as int,
            ) ==> r == Err::<Tally, CoreError>(CoreError::QuorumNotMet),
            old(self).has_proposal(pid) && old(self).lookup(pid).tally_guard() is None && quorum_reached(
                verified_count(old(self).submissions@, pid) as int,
                old(self).lookup(pid).eligible_votes as int,
                old(self).lookup(pid).quorum_bps as int,
            ) ==> r is Ok,
            r is Err ==> *final(self) == *old(self),
            r matches Ok(t) ==> {
                &&& final(self).tallies@.drop_last() == old(self).tallies@
                &&& final(self).tallies@.last().same_as(&t)
                &&& final(self).submissions == old(self).submissions
                &&& final(self).lookup(pid).state == ProposalState::Tallied
                &&& final(self).lookup(pid).finalized
                &&& t.proposal_id == pid
                &&& t.aggregate_proof_hash@ == summary_of(old(self).submissions@, pid)
                &&& single_choice_results(t.results@, old(self).submissions@, pid)
            },
    {
        let id = fresh_id();
        let now = clock_now();
        self.tally_proposal(id, pid, now)
    }

    /// Every proposal, for a principal allowed to see them all.
    pub fn all_proposals(&self, role: Role) -> (r: Result<Vec<Proposal>, CoreError>)
        ensures
            role == Role::PlatformOwner || role == Role::ProjectAdmin ==> (r matches Ok(v) && v@
                == self.proposals@),
            !(role == Role::PlatformOwner || role == Role::ProjectAdmin) ==> r == Err::<
                Vec<Proposal>,
                CoreError,
            >(CoreError::Unauthorized),
    {
        if !role.is_administrator() {
            return Err(CoreError::Unauthorized);
        }
        let mut out: Vec<Proposal> = Vec::new();
        let mut i: usize = 0;
        while i < self.proposals.len()
            invariant
                i <= self.proposals@.len(),
                out@ == self.proposals@.take(i as int),
            decreases self.proposals.len() - i,
        {
            out.push(self.proposals[i].snapshot());
            assert(out@ =~= self.proposals@.take(i as int + 1));
            i = i + 1;
        }
        assert(self.proposals@.take(self.proposals.len() as int) =~= self.proposals@);
        Ok(out)
    }
}

/// No two ballots recorded for one proposal carry the same nullifier: a nullifier is
/// consumed at most once per proposal, whatever the order of the submissions.
pub proof fn lemma_nullifier_consumed_once(l: &Ledger, a: int, b: int)
    requires
        l.wf(),
        0 <= a < l.submissions@.len(),
        0 <= b < l.submissions@.len(),
        a != b,
        l.submissions@[a].proposal_id == l.submissions@[b].proposal_id,
    ensures
        l.submissions@[a].nullifier_hash@ != l.submissions@[b].nullifier_hash@,
{
    if a > b {
        assert(l.submissions@[b].nullifier_hash@ != l.submissions@[a].nullifier_hash@);
    }
}

/// A ballot recorded by `submit_vote` consumes its nullifier: in the ledger that results,
/// a second ballot for the same proposal with the same nullifier meets `DuplicateNullifier`
/// (or `VotingClosed`, once the window has passed).
pub proof fn lemma_recorded_nullifier_consumed(before: Seq<Submission>, after: Seq<Submission>, s: Submission)
    requires
        after == before.push(s),
    ensures
        nullifier_in(after, s.proposal_id, s.nullifier_hash@),
{
    assert(after[before.len() as int] == s);
}

/// A recorded ballot carries a verification timestamp exactly when its proof was verified.
pub proof fn lemma_timestamp_iff_verified(l: &Ledger, a: int)
    requires
        l.wf(),
        0 <= a < l.submissions@.len(),
    ensures
        l.submissions@[a].verified_at.is_some() <==> l.submissions@[a].verified_bool,
{
    assert(l.submissions@[a].wf());
}

/// A proposal has at most one tally.
pub proof fn lemma_single_tally(l: &Ledger, a: int, b: int)
    requires
        l.wf(),
        0 <= a < l.tallies@.len(),
        0 <= b < l.tallies@.len(),
        a != b,
    ensures
        l.tallies@[a].proposal_id != l.tallies@[b].proposal_id,
{
    if a > b {
        assert(l.tallies@[b].proposal_id != l.tallies@[a].proposal_id);
    }
}

/// A proposal that has been tallied refuses any further tally with `AlreadyFinalized`,
/// so a second tally, concurrent or not, never produces a second record.
pub proof fn lemma_tallied_refuses_tally(l: &Ledger, pid: u128)
    requires
        l.wf(),
        has_tally(l.tallies@, pid),
    ensures
        l.has_proposal(pid),
        l.lookup(pid).tally_guard() == Some(CoreError::AlreadyFinalized),
{
    let t = choose|t: int| 0 <= t < l.tallies@.len() && #[trigger] l.tallies@[t].proposal_id == pid;
    assert(l.has_proposal(l.tallies@[t].proposal_id));
    let i = l.index_of(pid);
    assert(l.proposals@[i].id == pid);
    assert(l.proposals@[i].state == ProposalState::Tallied);
}

} // verus!
