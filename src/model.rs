//! Records of the ballot core and the error taxonomy shared by its operations.
use vstd::prelude::*;

verus! {

/// Quorum thresholds are written in basis points: 10_000 stands for the whole electorate.
pub const QUORUM_SCALE: u64 = 10000;

/// Lifecycle state of a proposal.
#[derive(Clone, Copy, Debug, PartialEq, Eq, Structural)]
pub enum ProposalState {
    Draft,
    Open,
    Closed,
    Revoked,
    Tallied,
}

impl ProposalState {
    /// Terminal for voting: no further ballots are accepted.
    pub open spec fn is_terminal(self) -> bool {
        self == ProposalState::Closed || self == ProposalState::Revoked || self == ProposalState::Tallied
    }
}

/// The rule set used to reduce verified ballots into a result.
#[derive(Clone, Copy, Debug, PartialEq, Eq, Structural)]
pub enum TallyModel {
    SingleChoice,
}

/// Capabilities a principal may hold.
#[derive(Clone, Copy, Debug, PartialEq, Eq, Structural)]
pub enum Role {
    User,
    ProjectAdmin,
    PlatformOwner,
}

/// Errors surfaced by the core.
#[derive(Clone, Copy, Debug, PartialEq, Eq, Structural)]
pub enum CoreError {
    NotFound,
    VotingClosed,
    DuplicateNullifier,
    AlreadyFinalized,
    ProposalClosed,
    IllegalTransition,
    QuorumNotMet,
    Unauthorized,
    ValidationError,
    StorageError,
}

impl CoreError {
    /// Whether the error belongs to the invalid-lifecycle-state category.
    pub fn is_invalid_state(&self) -> (r: bool)
        ensures
            r == (*self == CoreError::AlreadyFinalized || *self == CoreError::ProposalClosed
                || *self == CoreError::IllegalTransition),
    {
        match self {
            CoreError::AlreadyFinalized | CoreError::ProposalClosed | CoreError::IllegalTransition => true,
            _ => false,
        }
    }
}

/// A governance decision within a project. Timestamps are seconds since the Unix epoch.
#[derive(Clone, Debug)]
pub struct Proposal {
    pub id: u128,
    pub project_id: u128,
    pub title: String,
    /// Serialized choice set; opaque to the core.
    pub choices: String,
    pub model: TallyModel,
    /// Minimum share of eligible votes, in basis points (see `QUORUM_SCALE`).
    pub quorum_bps: u64,
    /// Size of the electorate, recorded when the proposal was opened.
    pub eligible_votes: u64,
    pub start_ts: i64,
    pub end_ts: i64,
    pub state: ProposalState,
    pub revoked: bool,
    pub finalized: bool,
}

impl Proposal {
    /// The flags agree with the lifecycle state and the quorum is a valid fraction.
    pub open spec fn wf(&self) -> bool {
        &&& self.revoked <==> self.state == ProposalState::Revoked
        &&& self.finalized <==> self.state == ProposalState::Tallied
        &&& self.quorum_bps <= QUORUM_SCALE
        &&& self.eligible_votes > 0
    }

    /// Same proposal, all fields but the lifecycle ones kept.
    pub open spec fn same_except_lifecycle(&self, other: &Proposal) -> bool {
        &&& self.id == other.id
        &&& self.project_id == other.project_id
        &&& self.title@ == other.title@
        &&& self.choices@ == other.choices@
        &&& self.model == other.model
        &&& self.quorum_bps == other.quorum_bps
        &&& self.eligible_votes == other.eligible_votes
        &&& self.start_ts == other.start_ts
        &&& self.end_ts == other.end_ts
    }
}

/// One ballot cast against a proposal.
#[derive(Clone, Debug)]
pub struct Submission {
    pub id: u128,
    pub proposal_id: u128,
    pub proof_hash: String,
    pub note_commitment: String,
    pub nullifier_hash: String,
    pub verified_bool: bool,
    /// Present exactly when the proof was verified.
    pub verified_at: Option<i64>,
}

impl Submission {
    /// The verification timestamp is present iff verification succeeded.
    pub open spec fn wf(&self) -> bool {
        self.verified_at.is_some() <==> self.verified_bool
    }

    /// A field-by-field copy.
    pub fn snapshot(&self) -> (r: Submission)
        ensures
            r == *self,
    {
        Submission {
            id: self.id,
            proposal_id: self.proposal_id,
            proof_hash: self.proof_hash.clone(),
            note_commitment: self.note_commitment.clone(),
            nullifier_hash: self.nullifier_hash.clone(),
            verified_bool: self.verified_bool,
            verified_at: self.verified_at,
        }
    }
}

/// Number of votes for one choice.
#[derive(Clone, Debug)]
pub struct ChoiceCount {
    pub choice: String,
    pub count: u64,
}

impl ChoiceCount {
    /// A field-by-field copy.
    pub fn snapshot(&self) -> (r: ChoiceCount)
        ensures
            r == *self,
    {
        ChoiceCount { choice: self.choice.clone(), count: self.count }
    }
}

/// The finalized aggregation for a proposal.
#[derive(Clone, Debug)]
pub struct Tally {
    pub id: u128,
    pub proposal_id: u128,
    pub aggregate_proof_hash: String,
    pub results: Vec<ChoiceCount>,
    pub verified_at: i64,
}

impl Tally {
    /// Equal in every field, the results compared as sequences.
    pub open spec fn same_as(&self, other: &Tally) -> bool {
        &&& self.id == other.id
        &&& self.proposal_id == other.proposal_id
        &&& self.aggregate_proof_hash@ == other.aggregate_proof_hash@
        &&& self.results@ == other.results@
        &&& self.verified_at == other.verified_at
    }

    /// A field-by-field copy.
    pub fn snapshot(&self) -> (r: Tally)
        ensures
            r.same_as(self),
    {
        let mut results: Vec<ChoiceCount> = Vec::new();
        let mut k: usize = 0;
        while k < self.results.len()
            invariant
                k <= self.results.len(),
                results@ == self.results@.take(k as int),
            decreases self.results.len() - k,
        {
            results.push(self.results[k].snapshot());
            assert(results@ =~= self.results@.take(k as int + 1));
            k = k + 1;
        }
        assert(self.results@.take(self.results.len() as int) =~= self.results@);
        Tally {
            id: self.id,
            proposal_id: self.proposal_id,
            aggregate_proof_hash: self.aggregate_proof_hash.clone(),
            results,
            verified_at: self.verified_at,
        }
    }
}

} // verus!
