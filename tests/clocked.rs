use ballot_core::ledger::Ledger;
use ballot_core::model::{CoreError, Proposal, ProposalState, Role, TallyModel};
use ballot_core::submission::SubmitVoteRequest;

const START_OF_2020: i64 = 1_577_836_800;

fn open_now(id: u128) -> Proposal {
    Proposal::draft(id, 3, "Budget".to_string(), "[]".to_string(), TallyModel::SingleChoice, 5000, 2, 0, i64::MAX)
}

fn ballot(nullifier: &str, choice: &str) -> SubmitVoteRequest {
    SubmitVoteRequest {
        proof_hash: format!("pf-{}", nullifier),
        note_commitment: choice.to_string(),
        nullifier_hash: nullifier.to_string(),
    }
}

#[test]
fn clocked_ballots_get_fresh_ids_and_current_time() {
    let mut l = Ledger::new();
    l.create_proposal(open_now(1)).unwrap();
    let a = l.submit_ballot(1, &ballot("N1", "yes"), true).unwrap();
    let b = l.submit_ballot(1, &ballot("N2", "no"), false).unwrap();
    assert_ne!(a.id, b.id);
    assert_ne!(a.id, 0);
    assert!(a.verified_at.unwrap() > START_OF_2020);
    assert_eq!(b.verified_at, None);
    assert_eq!(l.submit_ballot(1, &ballot("N1", "no"), true).unwrap_err(), CoreError::DuplicateNullifier);
    assert_eq!(l.submit_ballot(9, &ballot("N3", "no"), true).unwrap_err(), CoreError::NotFound);
    assert_eq!(l.list_submissions(1).len(), 2);
}

#[test]
fn clocked_tally_stamps_current_time() {
    let mut l = Ledger::new();
    l.create_proposal(open_now(1)).unwrap();
    l.submit_ballot(1, &ballot("N1", "yes"), true).unwrap();
    let t = l.tally_now(1).unwrap();
    assert!(t.verified_at > START_OF_2020);
    assert_ne!(t.id, 0);
    assert_eq!(t.results.len(), 1);
    assert_eq!(t.results[0].choice, "yes");
    assert_eq!(t.results[0].count, 1);
    assert_eq!(t.aggregate_proof_hash, "pf-N1;");
    assert_eq!(l.get_proposal(1).unwrap().state, ProposalState::Tallied);
    assert_eq!(l.tally_now(1).unwrap_err(), CoreError::AlreadyFinalized);
}

#[test]
fn clocked_ballot_on_revoked_proposal_is_refused() {
    let mut l = Ledger::new();
    l.create_proposal(open_now(1)).unwrap();
    l.revoke_proposal(1, Role::PlatformOwner).unwrap();
    assert_eq!(l.submit_ballot(1, &ballot("N1", "yes"), true).unwrap_err(), CoreError::VotingClosed);
    assert_eq!(l.submit_ballot(1, &ballot("N1", "yes"), false).unwrap_err(), CoreError::VotingClosed);
    assert!(l.submissions.is_empty());
}

#[test]
fn clocked_tally_below_quorum_is_refused() {
    let mut l = Ledger::new();
    l.create_proposal(open_now(1)).unwrap();
    assert_eq!(l.tally_now(1).unwrap_err(), CoreError::QuorumNotMet);
    assert_eq!(l.get_proposal(1).unwrap().state, ProposalState::Draft);
}
