//! Tally engine: quorum rule and aggregation of verified ballots.
use vstd::prelude::*;
use vstd::string::StringExecFns;
use vstd::relations::{sorted_by, total_ordering};
use crate::order::{lemma_sorted_texts_unique, lemma_text_order_total, text_le, text_le_exec, text_order};
use crate::model::{ChoiceCount, CoreError, Proposal, ProposalState, Submission, Tally, TallyModel, QUORUM_SCALE};

verus! {

/// A ballot that counts for proposal `pid`: cast against it and verified.
pub open spec fn counts_for(s: Submission, pid: u128) -> bool {
    s.proposal_id == pid && s.verified_bool
}

/// Number of counting ballots for `pid` in `subs`.
pub open spec fn verified_count(subs: Seq<Submission>, pid: u128) -> nat
    decreases subs.len(),
{
    if subs.len() == 0 {
        0
    } else {
        verified_count(subs.drop_last(), pid) + if counts_for(subs.last(), pid) { 1nat } else { 0nat }
    }
}

/// Number of counting ballots for `pid` in `subs` whose choice commitment is `choice`.
pub open spec fn votes_for(subs: Seq<Submission>, pid: u128, choice: Seq<char>) -> nat
    decreases subs.len(),
{
    if subs.len() == 0 {
        0
    } else {
        votes_for(subs.drop_last(), pid, choice) + if counts_for(subs.last(), pid)
            && subs.last().note_commitment@ == choice { 1nat } else { 0nat }
    }
}

/// `results` lists each choice that received a counting ballot exactly once, with its count.
pub open spec fn single_choice_results(results: Seq<ChoiceCount>, subs: Seq<Submission>, pid: u128) -> bool {
    &&& forall|i: int, j: int|
        0 <= i < j < results.len() ==> results[i].choice@ != results[j].choice@
    &&& forall|i: int|
        0 <= i < results.len() ==> #[trigger] results[i].count == votes_for(subs, pid, results[i].choice@)
            && results[i].count > 0
    &&& forall|c: Seq<char>|
        #[trigger] votes_for(subs, pid, c) > 0 ==> exists|i: int|
            0 <= i < results.len() && results[i].choice@ == c
}

/// The proof hashes of the counting ballots for `pid`, in the order they were recorded.
pub open spec fn counted_hashes(subs: Seq<Submission>, pid: u128) -> Seq<Seq<char>>
    decreases subs.len(),
{
    if subs.len() == 0 {
        Seq::empty()
    } else {
        let rest = counted_hashes(subs.drop_last(), pid);
        if counts_for(subs.last(), pid) {
            rest.push(subs.last().proof_hash@)
        } else {
            rest
        }
    }
}

/// Each text of `hs` followed by `;`, in order.
pub open spec fn joined(hs: Seq<Seq<char>>) -> Seq<char>
    decreases hs.len(),
{
    if hs.len() == 0 {
        Seq::empty()
    } else {
        joined(hs.drop_last()) + hs.last() + ";"@
    }
}

/// The audit summary of the counting ballots for `pid`: their proof hashes in
/// lexicographic order, each followed by `;`.
pub open spec fn summary_of(subs: Seq<Submission>, pid: u128) -> Seq<char> {
    joined(counted_hashes(subs, pid).sort_by(text_order()))
}

/// The audit summary depends only on the proof hashes that the counting ballots carry:
/// two ballot lists whose counting ballots carry the same hashes, recorded in any
/// order, have the same summary.
pub proof fn lemma_summary_depends_only_on_counted(s1: Seq<Submission>, s2: Seq<Submission>, pid: u128)
    requires
        counted_hashes(s1, pid).to_multiset() == counted_hashes(s2, pid).to_multiset(),
    ensures
        summary_of(s1, pid) == summary_of(s2, pid),
{
    lemma_text_order_total();
    let h1 = counted_hashes(s1, pid);
    let h2 = counted_hashes(s2, pid);
    h1.lemma_sort_by_ensures(text_order());
    h2.lemma_sort_by_ensures(text_order());
    lemma_sorted_texts_unique(h1.sort_by(text_order()), h2.sort_by(text_order()));
}

/// Removing one ballot from a list removes its proof hash from the counted ones, if it counts.
proof fn lemma_counted_remove(s: Seq<Submission>, k: int, pid: u128)
    requires
        0 <= k < s.len(),
    ensures
        counted_hashes(s, pid).to_multiset() == if counts_for(s[k], pid) {
            counted_hashes(s.remove(k), pid).to_multiset().insert(s[k].proof_hash@)
        } else {
            counted_hashes(s.remove(k), pid).to_multiset()
        },
    decreases s.len(),
{
    broadcast use vstd::seq_lib::group_to_multiset_ensures;

    let t = s.remove(k);
    if k == s.len() - 1 {
        assert(t =~= s.drop_last());
    } else {
        assert(t.drop_last() =~= s.drop_last().remove(k));
        assert(t.last() == s.last());
        lemma_counted_remove(s.drop_last(), k, pid);
        assert(s.drop_last()[k] == s[k]);
        let rest_s = counted_hashes(s.drop_last(), pid);
        let rest_t = counted_hashes(t.drop_last(), pid);
        if counts_for(s.last(), pid) {
            assert(counted_hashes(s, pid).to_multiset() == rest_s.to_multiset().insert(s.last().proof_hash@));
            assert(counted_hashes(t, pid).to_multiset() == rest_t.to_multiset().insert(s.last().proof_hash@));
            if counts_for(s[k], pid) {
                assert(counted_hashes(s, pid).to_multiset() =~= counted_hashes(t, pid).to_multiset().insert(
                    s[k].proof_hash@,
                ));
            }
        }
    }
}

/// Recording the same ballots in another order counts the same proof hashes.
proof fn lemma_counted_permutation(s1: Seq<Submission>, s2: Seq<Submission>, pid: u128)
    requires
        s1.to_multiset() == s2.to_multiset(),
    ensures
        counted_hashes(s1, pid).to_multiset() == counted_hashes(s2, pid).to_multiset(),
    decreases s1.len(),
{
    broadcast use vstd::seq_lib::group_to_multiset_ensures;

    s1.to_multiset_ensures();
    s2.to_multiset_ensures();
    if s1.len() == 0 {
        assert(s2.len() == 0);
        assert(s1 =~= s2);
    } else {
        let x = s1.last();
        assert(s1.to_multiset().count(x) > 0);
        assert(s2.contains(x));
        let k = choose|k: int| 0 <= k < s2.len() && s2[k] == x;
        assert(s1.drop_last() =~= s1.remove(s1.len() - 1));
        assert(s1.drop_last().to_multiset() == s1.to_multiset().remove(x));
        assert(s2.remove(k).to_multiset() == s2.to_multiset().remove(x));
        lemma_counted_permutation(s1.drop_last(), s2.remove(k), pid);
        lemma_counted_remove(s2, k, pid);
        if counts_for(x, pid) {
            assert(counted_hashes(s1, pid).to_multiset() == counted_hashes(s1.drop_last(), pid).to_multiset().insert(
                x.proof_hash@,
            ));
        }
    }
}

/// Recording the same ballots in another order gives the same audit summary.
pub proof fn lemma_summary_order_independent(s1: Seq<Submission>, s2: Seq<Submission>, pid: u128)
    requires
        s1.to_multiset() == s2.to_multiset(),
    ensures
        summary_of(s1, pid) == summary_of(s2, pid),
{
    lemma_counted_permutation(s1, s2, pid);
    lemma_summary_depends_only_on_counted(s1, s2, pid);
}

/// Removing one ballot from a list removes its vote from the count for `choice`, if it counts.
proof fn lemma_votes_remove(s: Seq<Submission>, k: int, pid: u128, choice: Seq<char>)
    requires
        0 <= k < s.len(),
    ensures
        votes_for(s, pid, choice) == votes_for(s.remove(k), pid, choice) + if counts_for(s[k], pid)
            && s[k].note_commitment@ == choice { 1nat } else { 0nat },
    decreases s.len(),
{
    let t = s.remove(k);
    if k == s.len() - 1 {
        assert(t =~= s.drop_last());
    } else {
        assert(t.drop_last() =~= s.drop_last().remove(k));
        assert(t.last() == s.last());
        assert(s.drop_last()[k] == s[k]);
        lemma_votes_remove(s.drop_last(), k, pid, choice);
    }
}

/// Recording the same ballots in another order gives every choice the same count.
pub proof fn lemma_votes_order_independent(s1: Seq<Submission>, s2: Seq<Submission>, pid: u128, choice: Seq<char>)
    requires
        s1.to_multiset() == s2.to_multiset(),
    ensures
        votes_for(s1, pid, choice) == votes_for(s2, pid, choice),
    decreases s1.len(),
{
    broadcast use vstd::seq_lib::group_to_multiset_ensures;

    s1.to_multiset_ensures();
    s2.to_multiset_ensures();
    if s1.len() == 0 {
        assert(s2.len() == 0);
        assert(s1 =~= s2);
    } else {
        let x = s1.last();
        assert(s1.to_multiset().count(x) > 0);
        assert(s2.contains(x));
        let k = choose|k: int| 0 <= k < s2.len() && s2[k] == x;
        assert(s1.drop_last() =~= s1.remove(s1.len() - 1));
        assert(s1.drop_last().to_multiset() == s1.to_multiset().remove(x));
        assert(s2.remove(k).to_multiset() == s2.to_multiset().remove(x));
        lemma_votes_order_independent(s1.drop_last(), s2.remove(k), pid, choice);
        lemma_votes_remove(s2, k, pid, choice);
    }
}

/// Position at which `h` joins the sorted `sorted`: after every text no later than it.
fn insertion_point(sorted: &Vec<String>, h: &String) -> (p: usize)
    ensures
        p <= sorted.len(),
        forall|k: int| 0 <= k < p ==> text_le(#[trigger] sorted@[k]@, h@),
        p < sorted.len() ==> !text_le(sorted@[p as int]@, h@),
{
    let mut p: usize = 0;
    while p < sorted.len()
        invariant
            p <= sorted.len(),
            forall|k: int| 0 <= k < p ==> text_le(#[trigger] sorted@[k]@, h@),
        decreases sorted.len() - p,
    {
        if !text_le_exec(&sorted[p], h) {
            return p;
        }
        p = p + 1;
    }
    p
}

/// Computes `summary_of`.
pub fn aggregate_summary(subs: &Vec<Submission>, pid: u128) -> (r: String)
    ensures
        r@ == summary_of(subs@, pid),
{
    broadcast use vstd::seq_lib::group_to_multiset_ensures;

    proof {
        lemma_text_order_total();
    }
    let mut sorted: Vec<String> = Vec::new();
    let ghost mut hs: Seq<Seq<char>> = Seq::empty();
    let mut i: usize = 0;
    while i < subs.len()
        invariant
            i <= subs.len(),
            total_ordering(text_order()),
            sorted.len() == hs.len(),
            forall|k: int| 0 <= k < hs.len() ==> #[trigger] sorted@[k]@ == hs[k],
            sorted_by(hs, text_order()),
            hs.to_multiset() == counted_hashes(subs@.take(i as int), pid).to_multiset(),
        decreases subs.len() - i,
    {
        assert(subs@.take(i as int + 1).drop_last() == subs@.take(i as int));
        assert(subs@.take(i as int + 1).last() == subs@[i as int]);
        if subs[i].proposal_id == pid && subs[i].verified_bool {
            let h = subs[i].proof_hash.clone();
            let p = insertion_point(&sorted, &h);
            let ghost old_hs = hs;
            let ghost old_sorted = sorted@;
            assert(forall|k: int| 0 <= k < p ==> text_le(#[trigger] old_hs[k], h@)) by {
                assert forall|k: int| 0 <= k < p implies text_le(#[trigger] old_hs[k], h@) by {
                    assert(sorted@[k]@ == old_hs[k]);
                }
            }
            assert(p < old_hs.len() ==> text_le(h@, old_hs[p as int])) by {
                if p < old_hs.len() {
                    assert(sorted@[p as int]@ == old_hs[p as int]);
                    assert(text_order()(old_hs[p as int], h@) || text_order()(h@, old_hs[p as int]));
                }
            }
            proof {
                hs = hs.insert(p as int, h@);
                vstd::seq_lib::to_multiset_insert(old_hs, p as int, h@);
                vstd::seq_lib::to_multiset_build(counted_hashes(subs@.take(i as int), pid), h@);
            }
            sorted.insert(p, h);
            assert(hs.to_multiset() == old_hs.to_multiset().insert(subs@[i as int].proof_hash@));
            assert(counted_hashes(subs@.take(i as int + 1), pid) == counted_hashes(subs@.take(i as int), pid).push(
                subs@[i as int].proof_hash@,
            ));
            assert forall|k: int| 0 <= k < hs.len() implies #[trigger] sorted@[k]@ == hs[k] by {
                if k < p as int {
                    assert(sorted@[k] == old_sorted[k]);
                } else if k > p as int {
                    assert(hs[k] == old_hs[k - 1]);
                }
            }
            assert(sorted_by(hs, text_order())) by {
                assert forall|x: int, y: int| 0 <= x < y < hs.len() implies #[trigger] text_order()(hs[x], hs[y]) by {
                    if y == p as int {
                        assert(hs[y] == h@);
                        assert(hs[x] == old_hs[x]);
                        assert(text_le(old_hs[x], h@));
                    } else if x == p as int {
                        assert(hs[x] == h@);
                        assert(hs[y] == old_hs[y - 1]);
                        if y - 1 > p as int {
                            assert(text_order()(old_hs[p as int], old_hs[y - 1]));
                            assert(text_order()(h@, old_hs[p as int]));
                        }
                    } else {
                        let ox = if x < p as int { x } else { x - 1 };
                        let oy = if y < p as int { y } else { y - 1 };
                        assert(hs[x] == old_hs[ox] && hs[y] == old_hs[oy]);
                        assert(text_order()(old_hs[ox], old_hs[oy]));
                    }
                }
            }
        }
        i = i + 1;
    }
    assert(subs@.take(subs.len() as int) == subs@);
    let ghost counted = counted_hashes(subs@, pid);
    proof {
        counted.lemma_sort_by_ensures(text_order());
        lemma_sorted_texts_unique(hs, counted.sort_by(text_order()));
    }
    let mut out = String::new();
    let mut k: usize = 0;
    while k < sorted.len()
        invariant
            k <= sorted.len(),
            sorted.len() == hs.len(),
            forall|j: int| 0 <= j < hs.len() ==> #[trigger] sorted@[j]@ == hs[j],
            out@ == joined(hs.take(k as int)),
        decreases sorted.len() - k,
    {
        assert(hs.take(k as int + 1).drop_last() == hs.take(k as int));
        assert(hs.take(k as int + 1).last() == sorted@[k as int]@);
        out.append(sorted[k].as_str());
        out.append(";");
        k = k + 1;
    }
    assert(hs.take(hs.len() as int) == hs);
    out
}

/// The quorum rule: `actual / eligible >= quorum_bps / QUORUM_SCALE`, compared without division.
pub open spec fn quorum_reached(actual: int, eligible: int, quorum_bps: int) -> bool {
    actual * QUORUM_SCALE >= quorum_bps * eligible
}

/// Decides the quorum rule exactly.
pub fn quorum_met(actual: u64, eligible: u64, quorum_bps: u64) -> (r: bool)
    ensures
        r == quorum_reached(actual as int, eligible as int, quorum_bps as int),
{
    proof {
        assert((actual as int) * 10000 <= 0xffff_ffff_ffff_ffffint * 10000) by (nonlinear_arith)
            requires
                actual <= 0xffff_ffff_ffff_ffffu64,
        ;
    }
    let lhs: u128 = (actual as u128) * (QUORUM_SCALE as u128);
    proof {
        assert((quorum_bps as int) * (eligible as int) <= 0xffff_ffff_ffff_ffffint * 0xffff_ffff_ffff_ffffint)
            by (nonlinear_arith)
            requires
                quorum_bps <= 0xffff_ffff_ffff_ffffu64,
                eligible <= 0xffff_ffff_ffff_ffffu64,
        ;
    }
    let rhs: u128 = (quorum_bps as u128) * (eligible as u128);
    lhs >= rhs
}

/// Number of counting ballots for `pid`.
pub fn count_verified(subs: &Vec<Submission>, pid: u128) -> (r: u64)
    ensures
        r == verified_count(subs@, pid),
{
    let mut n: u64 = 0;
    let mut i: usize = 0;
    while i < subs.len()
        invariant
            i <= subs.len(),
            n == verified_count(subs@.take(i as int), pid),
            n <= i,
        decreases subs.len() - i,
    {
        assert(subs@.take(i as int + 1).drop_last() == subs@.take(i as int));
        if subs[i].proposal_id == pid && subs[i].verified_bool {
            n = n + 1;
        }
        i = i + 1;
    }
    assert(subs@.take(subs.len() as int) == subs@);
    n
}

/// Position of `choice` in `results`, if present.
fn find_choice(results: &Vec<ChoiceCount>, choice: &String) -> (r: Option<usize>)
    ensures
        r matches Some(k) ==> k < results.len() && results[k as int].choice@ == choice@,
        r is None ==> forall|k: int| 0 <= k < results.len() ==> results[k].choice@ != choice@,
{
    let mut k: usize = 0;
    while k < results.len()
        invariant
            k <= results.len(),
            forall|j: int| 0 <= j < k ==> results[j].choice@ != choice@,
        decreases results.len() - k,
    {
        if results[k].choice == *choice {
            return Some(k);
        }
        k = k + 1;
    }
    None
}

/// Single-choice reduction: groups the counting ballots for `pid` by choice commitment.
pub fn count_choices(subs: &Vec<Submission>, pid: u128) -> (r: Vec<ChoiceCount>)
    ensures
        single_choice_results(r@, subs@, pid),
{
    let mut results: Vec<ChoiceCount> = Vec::new();
    let mut i: usize = 0;
    while i < subs.len()
        invariant
            i <= subs.len(),
            single_choice_results(results@, subs@.take(i as int), pid),
            forall|k: int| 0 <= k < results.len() ==> results[k].count <= i,
        decreases subs.len() - i,
    {
        let ghost prev = results@;
        let ghost before = subs@.take(i as int);
        let ghost after = subs@.take(i as int + 1);
        assert(after.drop_last() == before);
        assert(after.last() == subs@[i as int]);
        if subs[i].proposal_id == pid && subs[i].verified_bool {
            let choice = &subs[i].note_commitment;
            let ghost mut pos: int = 0;
            match find_choice(&results, choice) {
                Some(k) => {
                    let c = results[k].count;
                    let name = results[k].choice.clone();
                    results.set(k, ChoiceCount { choice: name, count: c + 1 });
                    proof {
                        pos = k as int;
                    }
                    assert forall|j: int| 0 <= j < results.len() implies #[trigger] results[j].count
                        == votes_for(after, pid, results[j].choice@) && results[j].count > 0 by {
                        if j != k as int {
                            assert(prev[j].choice@ != prev[k as int].choice@);
                        }
                    }
                },
                None => {
                    results.push(ChoiceCount { choice: choice.clone(), count: 1 });
                    assert(results@[prev.len() as int].choice@ == choice@);
                    assert(votes_for(before, pid, choice@) == 0);
                    proof {
                        pos = prev.len() as int;
                    }
                },
            }
            assert forall|c: Seq<char>| #[trigger] votes_for(after, pid, c) > 0 implies exists|j: int|
                0 <= j < results.len() && results[j].choice@ == c by {
                if c != choice@ {
                    assert(votes_for(before, pid, c) > 0);
                    let j = choose|j: int| 0 <= j < prev.len() && prev[j].choice@ == c;
                    assert(results[j].choice@ == c);
                } else {
                    assert(results[pos].choice@ == c);
                }
            }
        } else {
            assert forall|c: Seq<char>| #[trigger] votes_for(after, pid, c) > 0 implies exists|j: int|
                0 <= j < results.len() && results[j].choice@ == c by {
                assert(votes_for(before, pid, c) > 0);
            }
        }
        i = i + 1;
    }
    assert(subs@.take(subs.len() as int) == subs@);
    results
}

/// Plans the tally of `proposal` over `subs`: the guard of the lifecycle, the quorum
/// rule over the verified ballots cast against it, then the reduction of its model
/// and the audit summary of the ballots it counted, which does not depend on the order
/// in which they were recorded.
/// On success returns the tally record and the proposal moved to `Tallied`; both are
/// to be persisted together.
pub fn plan_tally(
    proposal: &Proposal,
    subs: &Vec<Submission>,
    tally_id: u128,
    now: i64,
) -> (r: Result<(Tally, Proposal), CoreError>)
    requires
        proposal.wf(),
    ensures
        proposal.tally_guard() matches Some(e) ==> r == Err::<(Tally, Proposal), CoreError>(e),
        proposal.tally_guard() is None && !quorum_reached(
            verified_count(subs@, proposal.id) as int,
            proposal.eligible_votes as int,
            proposal.quorum_bps as int,
        ) ==> r == Err::<(Tally, Proposal), CoreError>(CoreError::QuorumNotMet),
        proposal.tally_guard() is None && quorum_reached(
            verified_count(subs@, proposal.id) as int,
            proposal.eligible_votes as int,
            proposal.quorum_bps as int,
        ) ==> r is Ok,
        r matches Ok((t, p)) ==> {
            &&& t.id == tally_id
            &&& t.proposal_id == proposal.id
            &&& t.aggregate_proof_hash@ == summary_of(subs@, proposal.id)
            &&& t.verified_at == now
            &&& single_choice_results(t.results@, subs@, proposal.id)
            &&& p.same_except_lifecycle(proposal)
            &&& p.state == ProposalState::Tallied
            &&& p.finalized
            &&& !p.revoked
            &&& p.wf()
        },
{
    proposal.check_tallyable()?;
    let actual = count_verified(subs, proposal.id);
    if !quorum_met(actual, proposal.eligible_votes, proposal.quorum_bps) {
        return Err(CoreError::QuorumNotMet);
    }
    let results = match proposal.model {
        TallyModel::SingleChoice => count_choices(subs, proposal.id),
    };
    let tally = Tally {
        id: tally_id,
        proposal_id: proposal.id,
        aggregate_proof_hash: aggregate_summary(subs, proposal.id),
        results,
        verified_at: now,
    };
    let mut p = proposal.snapshot();
    p.state = ProposalState::Tallied;
    p.finalized = true;
    Ok((tally, p))
}

} // verus!
