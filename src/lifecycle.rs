//! Proposal lifecycle: which operations are legal in which state.
use vstd::prelude::*;
use crate::model::{CoreError, Proposal, ProposalState, Role, TallyModel, QUORUM_SCALE};

verus! {

impl Proposal {
    /// The voting window `[start_ts, end_ts)` contains `now`.
    pub open spec fn window_contains(&self, now: int) -> bool {
        self.start_ts <= now < self.end_ts
    }

    /// A ballot cast at `now` may be accepted: the proposal is not revoked,
    /// not in a terminal state, and the window is open.
    pub open spec fn open_for_ballots(&self, now: int) -> bool {
        &&& !self.revoked
        &&& (self.state == ProposalState::Draft || self.state == ProposalState::Open)
        &&& self.window_contains(now)
    }

    /// The error a tally attempt meets in the proposal's current state, if any.
    pub open spec fn tally_guard(&self) -> Option<CoreError> {
        if self.state == ProposalState::Tallied || self.finalized {
            Some(CoreError::AlreadyFinalized)
        } else if self.state == ProposalState::Closed {
            Some(CoreError::ProposalClosed)
        } else if self.revoked || self.state == ProposalState::Revoked {
            Some(CoreError::IllegalTransition)
        } else {
            None
        }
    }

    /// A proposal as first recorded: in `Draft`, neither revoked nor finalized.
    pub fn draft(
        id: u128,
        project_id: u128,
        title: String,
        choices: String,
        model: TallyModel,
        quorum_bps: u64,
        eligible_votes: u64,
        start_ts: i64,
        end_ts: i64,
    ) -> (r: Proposal)
        ensures
            r.id == id,
            r.project_id == project_id,
            r.title@ == title@,
            r.choices@ == choices@,
            r.model == model,
            r.quorum_bps == quorum_bps,
            r.eligible_votes == eligible_votes,
            r.start_ts == start_ts,
            r.end_ts == end_ts,
            r.state == ProposalState::Draft,
            !r.revoked,
            !r.finalized,
    {
        Proposal {
            id,
            project_id,
            title,
            choices,
            model,
            quorum_bps,
            eligible_votes,
            start_ts,
            end_ts,
            state: ProposalState::Draft,
            revoked: false,
            finalized: false,
        }
    }

    /// A new proposal is well formed and in `Draft`.
    pub open spec fn valid_new(&self) -> bool {
        &&& self.wf()
        &&& self.state == ProposalState::Draft
    }

    /// Decides `wf`: the flags agree with the state, the quorum is a fraction and the
    /// electorate is not empty.
    pub fn check_wf(&self) -> (r: bool)
        ensures
            r == self.wf(),
    {
        (self.revoked == (self.state == ProposalState::Revoked)) && (self.finalized == (self.state
            == ProposalState::Tallied)) && self.quorum_bps <= QUORUM_SCALE && self.eligible_votes > 0
    }

    /// Decides `valid_new`.
    pub fn check_new(&self) -> (r: Result<(), CoreError>)
        ensures
            self.valid_new() ==> r is Ok,
            !self.valid_new() ==> r == Err::<(), CoreError>(CoreError::ValidationError),
    {
        if self.state == ProposalState::Draft && !self.revoked && !self.finalized
            && self.quorum_bps <= QUORUM_SCALE && self.eligible_votes > 0 {
            Ok(())
        } else {
            Err(CoreError::ValidationError)
        }
    }

    /// A field-by-field copy.
    pub fn snapshot(&self) -> (r: Proposal)
        ensures
            r == *self,
    {
        Proposal {
            id: self.id,
            project_id: self.project_id,
            title: self.title.clone(),
            choices: self.choices.clone(),
            model: self.model,
            quorum_bps: self.quorum_bps,
            eligible_votes: self.eligible_votes,
            start_ts: self.start_ts,
            end_ts: self.end_ts,
            state: self.state,
            revoked: self.revoked,
            finalized: self.finalized,
        }
    }

    /// Whether a ballot cast at `now` is accepted by the lifecycle.
    pub fn accepts_ballots(&self, now: i64) -> (r: bool)
        ensures
            r == self.open_for_ballots(now as int),
    {
        !self.revoked && (self.state == ProposalState::Draft || self.state == ProposalState::Open)
            && self.start_ts <= now && now < self.end_ts
    }

    /// Checks that a tally may start from the current state.
    pub fn check_tallyable(&self) -> (r: Result<(), CoreError>)
        ensures
            r is Err <==> self.tally_guard() is Some,
            r matches Err(e) ==> self.tally_guard() == Some(e),
    {
        if self.state == ProposalState::Tallied || self.finalized {
            Err(CoreError::AlreadyFinalized)
        } else if self.state == ProposalState::Closed {
            Err(CoreError::ProposalClosed)
        } else if self.revoked || self.state == ProposalState::Revoked {
            Err(CoreError::IllegalTransition)
        } else {
            Ok(())
        }
    }

    /// Revocation by a principal holding `role`: only a platform owner may revoke,
    /// and only from a non-terminal state. Returns the revoked proposal.
    pub fn revoked_by(&self, role: Role) -> (r: Result<Proposal, CoreError>)
        requires
            self.wf(),
        ensures
            role != Role::PlatformOwner ==> r == Err::<Proposal, CoreError>(CoreError::Unauthorized),
            role == Role::PlatformOwner && self.state.is_terminal() ==> r == Err::<Proposal, CoreError>(
                CoreError::IllegalTransition,
            ),
            role == Role::PlatformOwner && !self.state.is_terminal() ==> r is Ok,
            r matches Ok(p) ==> {
                &&& p.same_except_lifecycle(self)
                &&& p.state == ProposalState::Revoked
                &&& p.revoked
                &&& !p.finalized
                &&& p.wf()
            },
    {
        if role != Role::PlatformOwner {
            return Err(CoreError::Unauthorized);
        }
        match self.state {
            ProposalState::Closed | ProposalState::Revoked | ProposalState::Tallied => Err(
                CoreError::IllegalTransition,
            ),
            _ => {
                let mut p = self.snapshot();
                p.state = ProposalState::Revoked;
                p.revoked = true;
                Ok(p)
            },
        }
    }
}

} // verus!
