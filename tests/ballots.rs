use ballot_core::auth::{require_platform_owner, RegisterUserRequest, UpdateUserRoleRequest};
use ballot_core::ledger::Ledger;
use ballot_core::model::{CoreError, Proposal, ProposalState, Role, Submission, TallyModel};
use ballot_core::submission::{check_ballot, nullifier_used, record_ballot, SubmitVoteRequest};
use ballot_core::tally::{aggregate_summary, count_choices, count_verified, plan_tally, quorum_met};

const P: u128 = 1;

fn proposal(id: u128, quorum_bps: u64, eligible: u64) -> Proposal {
    Proposal::draft(
        id,
        7,
        "Treasury".to_string(),
        "[\"A\",\"B\"]".to_string(),
        TallyModel::SingleChoice,
        quorum_bps,
        eligible,
        100,
        200,
    )
}

fn ballot(nullifier: &str, choice: &str) -> SubmitVoteRequest {
    SubmitVoteRequest {
        proof_hash: format!("proof-{}", nullifier),
        note_commitment: choice.to_string(),
        nullifier_hash: nullifier.to_string(),
    }
}

fn ledger_with(p: Proposal) -> Ledger {
    let mut l = Ledger::new();
    l.create_proposal(p).unwrap();
    l
}

fn count_of(results: &[ballot_core::model::ChoiceCount], choice: &str) -> Option<u64> {
    results.iter().find(|c| c.choice == choice).map(|c| c.count)
}

#[test]
fn quorum_boundary_met_exactly_tallies() {
    let mut l = ledger_with(proposal(P, 5000, 4));
    l.submit_vote(10, P, &ballot("N1", "A"), true, 150).unwrap();
    l.submit_vote(11, P, &ballot("N2", "B"), true, 150).unwrap();
    let t = l.tally_proposal(20, P, 160).unwrap();
    assert_eq!(t.results.len(), 2);
    assert_eq!(count_of(&t.results, "A"), Some(1));
    assert_eq!(count_of(&t.results, "B"), Some(1));
    assert_eq!(t.proposal_id, P);
    assert_eq!(t.id, 20);
    assert_eq!(t.aggregate_proof_hash, "proof-N1;proof-N2;");
    assert_eq!(t.verified_at, 160);
    let p = l.get_proposal(P).unwrap();
    assert_eq!(p.state, ProposalState::Tallied);
    assert!(p.finalized);
    assert_eq!(l.tallies.len(), 1);
}

#[test]
fn duplicate_nullifier_refused_and_listed_once() {
    let mut l = ledger_with(proposal(P, 0, 10));
    assert!(l.submit_vote(10, P, &ballot("N1", "A"), true, 150).is_ok());
    assert_eq!(l.submit_vote(11, P, &ballot("N1", "B"), true, 151).unwrap_err(), CoreError::DuplicateNullifier);
    let listed = l.list_submissions(P);
    assert_eq!(listed.len(), 1);
    assert_eq!(listed.iter().filter(|s| s.nullifier_hash == "N1").count(), 1);
    assert_eq!(listed[0].note_commitment, "A");
}

#[test]
fn revoked_proposal_closes_voting_and_needs_owner() {
    let mut l = ledger_with(proposal(P, 0, 10));
    l.create_proposal(proposal(2, 0, 10)).unwrap();
    let p = l.revoke_proposal(P, Role::PlatformOwner).unwrap();
    assert!(p.revoked);
    assert_eq!(p.state, ProposalState::Revoked);
    assert_eq!(l.submit_vote(10, P, &ballot("N1", "A"), true, 150).unwrap_err(), CoreError::VotingClosed);
    assert_eq!(l.revoke_proposal(2, Role::User).unwrap_err(), CoreError::Unauthorized);
    assert_eq!(l.revoke_proposal(2, Role::ProjectAdmin).unwrap_err(), CoreError::Unauthorized);
    assert!(!l.get_proposal(2).unwrap().revoked);
}

#[test]
fn voting_closed_outside_window_whatever_the_proof() {
    let mut l = ledger_with(proposal(P, 0, 10));
    for verified in [true, false] {
        assert_eq!(l.submit_vote(10, P, &ballot("N1", "A"), verified, 99).unwrap_err(), CoreError::VotingClosed);
        assert_eq!(l.submit_vote(10, P, &ballot("N1", "A"), verified, 200).unwrap_err(), CoreError::VotingClosed);
        assert_eq!(l.submit_vote(10, P, &ballot("N1", "A"), verified, 500).unwrap_err(), CoreError::VotingClosed);
    }
    assert!(l.submissions.is_empty());
    assert!(l.submit_vote(10, P, &ballot("N1", "A"), false, 100).is_ok());
    assert!(l.submit_vote(11, P, &ballot("N2", "A"), false, 199).is_ok());
}

#[test]
fn quorum_not_met_leaves_proposal_unchanged() {
    let mut l = ledger_with(proposal(P, 5000, 4));
    l.submit_vote(10, P, &ballot("N1", "A"), true, 150).unwrap();
    l.submit_vote(11, P, &ballot("N2", "B"), false, 150).unwrap();
    assert_eq!(l.tally_proposal(20, P, 160).unwrap_err(), CoreError::QuorumNotMet);
    let p = l.get_proposal(P).unwrap();
    assert_eq!(p.state, ProposalState::Draft);
    assert!(!p.finalized);
    assert!(l.tallies.is_empty());
}

#[test]
fn second_tally_is_refused() {
    let mut l = ledger_with(proposal(P, 0, 4));
    l.tally_proposal(20, P, 160).unwrap();
    assert_eq!(l.tally_proposal(21, P, 161).unwrap_err(), CoreError::AlreadyFinalized);
    assert_eq!(l.tallies.len(), 1);
    assert_eq!(l.revoke_proposal(P, Role::PlatformOwner).unwrap_err(), CoreError::IllegalTransition);
    assert_eq!(l.submit_vote(10, P, &ballot("N1", "A"), true, 150).unwrap_err(), CoreError::VotingClosed);
}

#[test]
fn verification_timestamp_follows_result() {
    let mut l = ledger_with(proposal(P, 0, 4));
    let ok = l.submit_vote(10, P, &ballot("N1", "A"), true, 150).unwrap();
    let bad = l.submit_vote(11, P, &ballot("N2", "A"), false, 151).unwrap();
    assert!(ok.verified_bool);
    assert_eq!(ok.verified_at, Some(150));
    assert!(!bad.verified_bool);
    assert_eq!(bad.verified_at, None);
    assert_eq!(l.list_submissions(P).len(), 2);
}

#[test]
fn nullifier_is_scoped_by_proposal() {
    let mut l = ledger_with(proposal(P, 0, 4));
    l.create_proposal(proposal(2, 0, 4)).unwrap();
    assert!(l.submit_vote(10, P, &ballot("N1", "A"), true, 150).is_ok());
    assert!(l.submit_vote(11, 2, &ballot("N1", "A"), true, 150).is_ok());
    assert_eq!(l.list_submissions(P).len(), 1);
    assert_eq!(l.list_submissions(2).len(), 1);
    assert!(nullifier_used(&l.submissions, P, &"N1".to_string()));
    assert!(!nullifier_used(&l.submissions, P, &"N2".to_string()));
    assert!(!nullifier_used(&l.submissions, 3, &"N1".to_string()));
}

#[test]
fn unverified_ballots_do_not_count() {
    let mut l = ledger_with(proposal(P, 5000, 4));
    l.submit_vote(10, P, &ballot("N1", "A"), true, 150).unwrap();
    l.submit_vote(11, P, &ballot("N2", "A"), true, 150).unwrap();
    l.submit_vote(12, P, &ballot("N3", "B"), false, 150).unwrap();
    let t = l.tally_proposal(20, P, 160).unwrap();
    assert_eq!(t.results.len(), 1);
    assert_eq!(count_of(&t.results, "A"), Some(2));
    assert_eq!(count_of(&t.results, "B"), None);
    assert_eq!(t.aggregate_proof_hash, "proof-N1;proof-N2;");
}

#[test]
fn summary_is_deterministic_over_counted_ballots() {
    let subs = vec![
        record_ballot(1, P, &ballot("N1", "A"), true, 150),
        record_ballot(2, P, &ballot("N2", "A"), false, 150),
        record_ballot(3, 2, &ballot("N3", "A"), true, 150),
        record_ballot(4, P, &ballot("N4", "B"), true, 150),
    ];
    assert_eq!(aggregate_summary(&subs, P), "proof-N1;proof-N4;");
    assert_eq!(aggregate_summary(&subs, P), aggregate_summary(&subs.clone(), P));
    assert_eq!(aggregate_summary(&Vec::new(), P), "");
}

#[test]
fn missing_proposal_is_not_found() {
    let mut l = ledger_with(proposal(P, 0, 4));
    assert_eq!(l.get_proposal(9).unwrap_err(), CoreError::NotFound);
    assert_eq!(l.submit_vote(10, 9, &ballot("N1", "A"), true, 150).unwrap_err(), CoreError::NotFound);
    assert_eq!(l.tally_proposal(20, 9, 160).unwrap_err(), CoreError::NotFound);
    assert_eq!(l.revoke_proposal(9, Role::PlatformOwner).unwrap_err(), CoreError::NotFound);
}

#[test]
fn closed_and_revoked_proposals_cannot_be_tallied() {
    let mut l = ledger_with(proposal(P, 0, 4));
    let mut closed = proposal(2, 0, 4);
    closed.state = ProposalState::Closed;
    l.proposals.push(closed);
    assert_eq!(l.tally_proposal(20, 2, 160).unwrap_err(), CoreError::ProposalClosed);
    assert_eq!(l.revoke_proposal(2, Role::PlatformOwner).unwrap_err(), CoreError::IllegalTransition);
    l.revoke_proposal(P, Role::PlatformOwner).unwrap();
    assert_eq!(l.tally_proposal(21, P, 160).unwrap_err(), CoreError::IllegalTransition);
    assert_eq!(l.revoke_proposal(P, Role::PlatformOwner).unwrap_err(), CoreError::IllegalTransition);
    assert!(l.tallies.is_empty());
}

#[test]
fn create_proposal_validates_and_rejects_reused_id() {
    let mut l = Ledger::new();
    assert_eq!(l.create_proposal(proposal(P, 10001, 4)).unwrap_err(), CoreError::ValidationError);
    assert_eq!(l.create_proposal(proposal(P, 5000, 0)).unwrap_err(), CoreError::ValidationError);
    let mut open = proposal(P, 5000, 4);
    open.state = ProposalState::Open;
    assert_eq!(l.create_proposal(open).unwrap_err(), CoreError::ValidationError);
    assert!(l.proposals.is_empty());
    let p = l.create_proposal(proposal(P, 10000, 4)).unwrap();
    assert_eq!(p.quorum_bps, 10000);
    assert_eq!(l.create_proposal(proposal(P, 0, 4)).unwrap_err(), CoreError::StorageError);
    assert_eq!(l.proposals.len(), 1);
}

#[test]
fn listing_proposals_needs_owner_or_admin() {
    let l = ledger_with(proposal(P, 0, 4));
    assert_eq!(l.all_proposals(Role::PlatformOwner).unwrap().len(), 1);
    assert_eq!(l.all_proposals(Role::ProjectAdmin).unwrap()[0].id, P);
    assert_eq!(l.all_proposals(Role::User).unwrap_err(), CoreError::Unauthorized);
}

#[test]
fn quorum_rule_exact_values() {
    assert!(quorum_met(2, 4, 5000));
    assert!(!quorum_met(1, 4, 5000));
    assert!(quorum_met(0, 4, 0));
    assert!(quorum_met(4, 4, 10000));
    assert!(!quorum_met(3, 4, 10000));
    assert!(quorum_met(u64::MAX, u64::MAX, 10000));
    assert!(!quorum_met(u64::MAX - 1, u64::MAX, 10000));
}

#[test]
fn counting_groups_by_choice() {
    let mut subs: Vec<Submission> = Vec::new();
    let picks = [("N1", "A", true, P), ("N2", "B", true, P), ("N3", "A", true, P), ("N4", "A", false, P), ("N5", "C", true, 2)];
    for (i, (n, c, v, pid)) in picks.iter().enumerate() {
        subs.push(record_ballot(i as u128, *pid, &ballot(n, c), *v, 150));
    }
    let r = count_choices(&subs, P);
    assert_eq!(r.len(), 2);
    assert_eq!(count_of(&r, "A"), Some(2));
    assert_eq!(count_of(&r, "B"), Some(1));
    assert_eq!(count_verified(&subs, P), 3);
    assert_eq!(count_verified(&subs, 2), 1);
    assert!(count_choices(&Vec::new(), P).is_empty());
}

#[test]
fn plan_tally_moves_proposal_to_tallied() {
    let p = proposal(P, 2500, 4);
    let subs = vec![record_ballot(1, P, &ballot("N1", "A"), true, 150)];
    let (t, q) = plan_tally(&p, &subs, 5, 170).unwrap();
    assert_eq!(q.state, ProposalState::Tallied);
    assert!(q.finalized && !q.revoked);
    assert_eq!(q.id, P);
    assert_eq!(count_of(&t.results, "A"), Some(1));
    let empty: Vec<Submission> = Vec::new();
    assert_eq!(plan_tally(&p, &empty, 5, 170).unwrap_err(), CoreError::QuorumNotMet);
}

#[test]
fn ballot_checks_in_order() {
    let p = proposal(P, 0, 4);
    assert_eq!(check_ballot(&p, 50, true).unwrap_err(), CoreError::VotingClosed);
    assert_eq!(check_ballot(&p, 150, true).unwrap_err(), CoreError::DuplicateNullifier);
    assert!(check_ballot(&p, 150, false).is_ok());
    assert!(p.accepts_ballots(100));
    assert!(!p.accepts_ballots(200));
}

#[test]
fn roles_parse_and_default() {
    assert_eq!(Role::parse(&"user".to_string()), Ok(Role::User));
    assert_eq!(Role::parse(&"project_admin".to_string()), Ok(Role::ProjectAdmin));
    assert_eq!(Role::parse(&"platform_owner".to_string()), Ok(Role::PlatformOwner));
    assert_eq!(Role::parse(&"admin".to_string()), Err(CoreError::ValidationError));
    assert_eq!(Role::PlatformOwner.name(), "platform_owner");
    let reg = RegisterUserRequest { wallet_address: "0xabc".to_string(), role: None };
    assert_eq!(reg.resolved_role(), Ok(Role::User));
    let reg = RegisterUserRequest { wallet_address: "0xabc".to_string(), role: Some("root".to_string()) };
    assert_eq!(reg.resolved_role(), Err(CoreError::ValidationError));
    let upd = UpdateUserRoleRequest { role: "project_admin".to_string() };
    assert_eq!(upd.new_role(), Ok(Role::ProjectAdmin));
    assert_eq!(require_platform_owner(Role::ProjectAdmin), Err(CoreError::Unauthorized));
    assert!(require_platform_owner(Role::PlatformOwner).is_ok());
}

#[test]
fn model_tags_and_error_categories() {
    assert_eq!(TallyModel::parse(&"single_choice".to_string()), Ok(TallyModel::SingleChoice));
    assert_eq!(TallyModel::parse(&"ranked".to_string()), Err(CoreError::ValidationError));
    assert!(CoreError::AlreadyFinalized.is_invalid_state());
    assert!(CoreError::ProposalClosed.is_invalid_state());
    assert!(CoreError::IllegalTransition.is_invalid_state());
    assert!(!CoreError::QuorumNotMet.is_invalid_state());
}

#[test]
fn empty_window_is_accepted_but_takes_no_ballots() {
    let mut l = Ledger::new();
    let mut p = proposal(P, 0, 4);
    p.end_ts = p.start_ts;
    assert!(l.create_proposal(p).is_ok());
    assert_eq!(l.submit_vote(10, P, &ballot("N1", "A"), true, 100).unwrap_err(), CoreError::VotingClosed);
}

#[test]
fn summary_ignores_recording_order() {
    let mut first = ledger_with(proposal(P, 0, 4));
    first.submit_vote(10, P, &ballot("N2", "B"), true, 150).unwrap();
    first.submit_vote(11, P, &ballot("N1", "A"), true, 150).unwrap();
    let mut second = ledger_with(proposal(P, 0, 4));
    second.submit_vote(11, P, &ballot("N1", "A"), true, 150).unwrap();
    second.submit_vote(10, P, &ballot("N2", "B"), true, 150).unwrap();
    let a = first.tally_proposal(20, P, 160).unwrap();
    let b = second.tally_proposal(20, P, 160).unwrap();
    assert_eq!(a.aggregate_proof_hash, "proof-N1;proof-N2;");
    assert_eq!(a.aggregate_proof_hash, b.aggregate_proof_hash);
    assert_eq!(count_of(&a.results, "A"), count_of(&b.results, "A"));
    assert_eq!(count_of(&a.results, "B"), count_of(&b.results, "B"));
}

#[test]
fn summary_sorts_by_code_point() {
    let subs = vec![
        record_ballot(1, P, &SubmitVoteRequest { proof_hash: "b".to_string(), note_commitment: "A".to_string(), nullifier_hash: "1".to_string() }, true, 1),
        record_ballot(2, P, &SubmitVoteRequest { proof_hash: "ab".to_string(), note_commitment: "A".to_string(), nullifier_hash: "2".to_string() }, true, 1),
        record_ballot(3, P, &SubmitVoteRequest { proof_hash: "a".to_string(), note_commitment: "A".to_string(), nullifier_hash: "3".to_string() }, true, 1),
        record_ballot(4, P, &SubmitVoteRequest { proof_hash: "é".to_string(), note_commitment: "A".to_string(), nullifier_hash: "4".to_string() }, true, 1),
        record_ballot(5, P, &SubmitVoteRequest { proof_hash: "a".to_string(), note_commitment: "A".to_string(), nullifier_hash: "5".to_string() }, true, 1),
    ];
    assert_eq!(aggregate_summary(&subs, P), "a;a;ab;b;é;");
}

#[test]
fn stored_flags_are_checked() {
    let mut p = proposal(P, 5000, 4);
    assert!(p.check_wf());
    p.revoked = true;
    assert!(!p.check_wf());
    p.state = ProposalState::Revoked;
    assert!(p.check_wf());
    p.eligible_votes = 0;
    assert!(!p.check_wf());
}
