//! Properties that hold across the operations of the library.

use vstd::prelude::*;

use crate::position::{Position, ProposalStatus, UNIT};
use crate::proposal::{
    agent_index, agree_pred, agreeing, any_disagrees, distinct_agents, has_agent, next_status,
    score_of, upsert, without, lemma_agent_index_unique,
};
use crate::palaver::Palaver;
use crate::summary::status_name;
use crate::tree::{
    active_pred, consensus_harmony, consensus_turns, reached_pred, resolved_pred, thousandths, PalaverTree,
};

verus! {

broadcast use vstd::seq_lib::group_filter_ensures;

/// The filter of `pred` keeps every element exactly when every element satisfies it.
proof fn lemma_filter_keeps_all<A>(s: Seq<A>, pred: spec_fn(A) -> bool)
    ensures
        (s.filter(pred).len() == s.len()) <==> (forall|i: int| 0 <= i < s.len() ==> pred(#[trigger] s[i])),
    decreases s.len(),
{
    reveal(Seq::filter);
    if s.len() > 0 {
        let rest = s.drop_last();
        lemma_filter_keeps_all(rest, pred);
        rest.lemma_filter_len(pred);
        if forall|i: int| 0 <= i < s.len() ==> pred(#[trigger] s[i]) {
            assert forall|i: int| 0 <= i < rest.len() implies pred(#[trigger] rest[i]) by {
                assert(rest[i] == s[i]);
            }
        }
        if s.filter(pred).len() == s.len() {
            assert(pred(s.last()));
            assert forall|i: int| 0 <= i < s.len() implies pred(#[trigger] s[i]) by {
                if i < rest.len() {
                    assert(rest[i] == s[i]);
                }
            }
        }
    }
}

/// Unanimity: at the full threshold a proposal has consensus exactly when at least one
/// position was stated and every stated position agrees.
pub proof fn law_full_threshold_is_unanimity(ps: Seq<Position>)
    ensures
        (score_of(ps) >= UNIT) <==> (ps.len() > 0 && forall|i: int|
            0 <= i < ps.len() ==> (#[trigger] ps[i]).stance is Agree),
{
    lemma_filter_keeps_all(ps, agree_pred());
    ps.lemma_filter_len(agree_pred());
    if ps.len() > 0 {
        let a = agreeing(ps).len();
        let n = ps.len();
        assert((a * (UNIT as nat)) as int / n as int >= UNIT <==> a >= n) by (nonlinear_arith)
            requires
                a <= n,
                n > 0,
                UNIT == 1000,
        {
            if a < n {
                assert(a * 1000 < n * 1000);
                assert(((a * 1000) as int / (n as int)) < 1000);
            }
        }
    }
}

/// Under unanimity nobody blocks: at the full threshold, consensus leaves no
/// disagreeing position, so the proposal's status is `Consensus` unless it was
/// withdrawn or expired.
pub proof fn law_unanimous_consensus_is_unblocked(ps: Seq<Position>, status: ProposalStatus)
    requires
        score_of(ps) >= UNIT,
        status != ProposalStatus::Withdrawn,
        status != ProposalStatus::Expired,
    ensures
        !any_disagrees(ps),
        next_status(status, ps, UNIT) == ProposalStatus::Consensus,
{
    law_full_threshold_is_unanimity(ps);
    if any_disagrees(ps) {
        let i = choose|i: int| 0 <= i < ps.len() && (#[trigger] ps[i]).stance is Disagree;
        assert(ps[i].stance is Agree);
    }
}

/// How a proposal's status follows its positions: `Withdrawn` and `Expired` are final;
/// otherwise a disagreement gives `Blocked` (even when the score reaches the
/// threshold), a score at the threshold gives `Consensus`, and anything else `Open`.
/// `Consensus` and `Blocked` are not final: with no positions a proposal with a
/// positive threshold goes back to `Open`.
pub proof fn law_status_update(status: ProposalStatus, ps: Seq<Position>, threshold: u32)
    ensures
        status == ProposalStatus::Withdrawn || status == ProposalStatus::Expired ==> next_status(
            status,
            ps,
            threshold,
        ) == status,
        status != ProposalStatus::Withdrawn && status != ProposalStatus::Expired ==> next_status(
            status,
            ps,
            threshold,
        ) == (if any_disagrees(ps) {
            ProposalStatus::Blocked
        } else if score_of(ps) >= threshold {
            ProposalStatus::Consensus
        } else {
            ProposalStatus::Open
        }),
        status != ProposalStatus::Withdrawn && status != ProposalStatus::Expired && any_disagrees(
            ps,
        ) && score_of(ps) >= threshold ==> next_status(status, ps, threshold)
            == ProposalStatus::Blocked,
        (status == ProposalStatus::Consensus || status == ProposalStatus::Blocked) && threshold
            > 0 ==> next_status(status, Seq::<Position>::empty(), threshold) == ProposalStatus::Open,
{
}

/// A single disagreement blocks: once a disagreeing position is stated, the proposal
/// is `Blocked` unless it was withdrawn or expired.
pub proof fn law_one_disagreement_blocks(
    ps: Seq<Position>,
    p: Position,
    status: ProposalStatus,
    threshold: u32,
)
    requires
        p.stance is Disagree,
        status != ProposalStatus::Withdrawn,
        status != ProposalStatus::Expired,
    ensures
        any_disagrees(upsert(ps, p)),
        next_status(status, upsert(ps, p), threshold) == ProposalStatus::Blocked,
{
    let qs = upsert(ps, p);
    if has_agent(ps, p.agent_id@) {
        let k = agent_index(ps, p.agent_id@);
        assert(qs[k] == p);
    } else {
        assert(qs[ps.len() as int] == p);
    }
}

/// Reading back a stated position: afterwards the agent holds exactly the stated
/// position, and every other agent holds what it held before.
pub proof fn law_state_then_read(ps: Seq<Position>, p: Position, other: Seq<char>)
    requires
        distinct_agents(ps),
        other != p.agent_id@,
    ensures
        has_agent(upsert(ps, p), p.agent_id@),
        upsert(ps, p)[agent_index(upsert(ps, p), p.agent_id@)] == p,
        has_agent(upsert(ps, p), other) == has_agent(ps, other),
        has_agent(ps, other) ==> upsert(ps, p)[agent_index(upsert(ps, p), other)] == ps[agent_index(
            ps,
            other,
        )],
{
    crate::proposal::lemma_upsert_distinct(ps, p);
    let qs = upsert(ps, p);
    let k = if has_agent(ps, p.agent_id@) { agent_index(ps, p.agent_id@) } else { ps.len() as int };
    assert(qs[k] == p);
    lemma_agent_index_unique(qs, p.agent_id@, k);
    if has_agent(ps, other) {
        let j = agent_index(ps, other);
        assert(j != k);
        assert(qs[j] == ps[j]);
        lemma_agent_index_unique(qs, other, j);
    }
    if has_agent(qs, other) {
        let j = agent_index(qs, other);
        assert(j != k);
        assert(qs[j] == ps[j]);
    }
}

/// Withdrawing removes the agent's position and leaves every other agent's as it was.
pub proof fn law_withdraw_then_read(ps: Seq<Position>, id: Seq<char>, other: Seq<char>)
    requires
        distinct_agents(ps),
        other != id,
    ensures
        !has_agent(without(ps, id), id),
        has_agent(without(ps, id), other) == has_agent(ps, other),
        has_agent(ps, other) ==> without(ps, id)[agent_index(without(ps, id), other)]
            == ps[agent_index(ps, other)],
{
    crate::proposal::lemma_without_distinct(ps, id);
    let qs = without(ps, id);
    if has_agent(ps, id) {
        let k = agent_index(ps, id);
        if has_agent(qs, id) {
            let j = agent_index(qs, id);
            let a = if j < k { j } else { j + 1 };
            assert(qs[j] == ps[a]);
        }
        if has_agent(ps, other) {
            let j = agent_index(ps, other);
            let b = if j < k { j } else { j - 1 };
            assert(qs[b] == ps[j]);
            lemma_agent_index_unique(qs, other, b);
        }
        if has_agent(qs, other) {
            let j = agent_index(qs, other);
            let a = if j < k { j } else { j + 1 };
            assert(qs[j] == ps[a]);
        }
    }
}

/// Withdrawing a position that was just stated by a new agent undoes the statement.
pub proof fn law_withdraw_undoes_new_statement(ps: Seq<Position>, p: Position)
    requires
        distinct_agents(ps),
        !has_agent(ps, p.agent_id@),
    ensures
        without(upsert(ps, p), p.agent_id@) == ps,
{
    let qs = upsert(ps, p);
    assert(qs == ps.push(p));
    crate::proposal::lemma_upsert_distinct(ps, p);
    lemma_agent_index_unique(qs, p.agent_id@, ps.len() as int);
    assert(qs.remove(ps.len() as int) == ps);
}

/// Every palaver is either active or resolved, never both.
pub proof fn law_active_and_resolved_partition(t: &PalaverTree)
    ensures
        t@.filter(active_pred()).len() + t@.filter(resolved_pred()).len() == t@.len(),
{
    lemma_partition(t@);
}

proof fn lemma_partition(ps: Seq<crate::palaver::Palaver>)
    ensures
        ps.filter(active_pred()).len() + ps.filter(resolved_pred()).len() == ps.len(),
    decreases ps.len(),
{
    reveal(Seq::filter);
    if ps.len() > 0 {
        lemma_partition(ps.drop_last());
    }
}

/// Palaver identifiers in a tree are unique.
pub proof fn law_palaver_ids_unique(t: &PalaverTree, i: int, j: int)
    requires
        t.wf(),
        0 <= i < t@.len(),
        0 <= j < t@.len(),
        i != j,
    ensures
        t@[i].id.0@ != t@[j].id.0@,
{
    t.lemma_wf();
    if t@[i].id.0@ == t@[j].id.0@ {
    }
}


/// Only disagreement blocks: a set of positions counts as blocking exactly when one of
/// them has stance `Disagree`, so positions that only agree, abstain or counter-propose
/// never leave a live proposal `Blocked`.
pub proof fn law_only_disagreement_blocks(ps: Seq<Position>, status: ProposalStatus, threshold: u32)
    ensures
        any_disagrees(ps) <==> exists|i: int| 0 <= i < ps.len() && (#[trigger] ps[i]).stance is Disagree,
        (forall|i: int| 0 <= i < ps.len() ==> !((#[trigger] ps[i]).stance is Disagree))
            && status != ProposalStatus::Withdrawn && status != ProposalStatus::Expired
            ==> next_status(status, ps, threshold) != ProposalStatus::Blocked,
        (forall|i: int| 0 <= i < ps.len() ==> !((#[trigger] ps[i]).stance is Disagree))
            && status != ProposalStatus::Withdrawn && status != ProposalStatus::Expired
            ==> (next_status(status, ps, threshold) == ProposalStatus::Consensus <==> score_of(ps)
            >= threshold),
{
}

/// Checking consensus looks at the active proposal alone: it is true exactly when the
/// active index names a proposal whose score reaches its threshold and none of whose
/// positions disagrees.
pub proof fn law_check_looks_at_active_proposal(p: Palaver)
    ensures
        p.active_settled() <==> (p.active_proposal matches Some(a) && a < p.proposals@.len() && {
            let q = p.proposals@[a as int];
            &&& score_of(q.positions@) >= q.consensus_threshold
            &&& forall|i: int|
                0 <= i < q.positions@.len() ==> !((#[trigger] q.positions@[i]).stance is Disagree)
        }),
{
}

/// Two sessions that agree on the active index and on the proposal it names give the
/// same consensus check, whatever their other proposals hold.
pub proof fn law_check_ignores_other_proposals(p: Palaver, q: Palaver)
    requires
        p.active_proposal == q.active_proposal,
        p.proposals@.len() == q.proposals@.len(),
        forall|a: usize|
            p.active_proposal == Some(a) && a < p.proposals@.len() ==> #[trigger] p.proposals@[a as int]
                == q.proposals@[a as int],
    ensures
        p.active_settled() == q.active_settled(),
{
}

/// The turns summed for the average count only sessions that reached consensus: adding
/// one that did not leaves the sum, and the average, as they were; adding one that did
/// adds its turns.
pub proof fn law_consensus_turns_count_consensus_only(ps: Seq<Palaver>, p: Palaver)
    ensures
        !p.consensus_reached ==> consensus_turns(ps.push(p)) == consensus_turns(ps),
        !p.consensus_reached ==> thousandths(
            consensus_turns(ps.push(p)),
            ps.push(p).filter(reached_pred()).len(),
        ) == thousandths(consensus_turns(ps), ps.filter(reached_pred()).len()),
        p.consensus_reached ==> consensus_turns(ps.push(p)) == consensus_turns(ps) + p.turn_count,
        consensus_turns(Seq::<Palaver>::empty()) == 0,
{
    assert(ps.push(p).drop_last() == ps);
    ps.lemma_filter_push(p, reached_pred());
}

/// The harmony summed for the average counts only sessions that reached consensus:
/// adding one that did not leaves the sum as it was; adding one that did adds its score.
pub proof fn law_consensus_harmony_count_consensus_only(ps: Seq<Palaver>, p: Palaver)
    ensures
        !p.consensus_reached ==> consensus_harmony(ps.push(p)) == consensus_harmony(ps),
        p.consensus_reached ==> consensus_harmony(ps.push(p)) == consensus_harmony(ps)
            + p.harmony_score,
        consensus_harmony(Seq::<Palaver>::empty()) == 0,
{
    assert(ps.push(p).drop_last() == ps);
}

/// With a single session that reached consensus after `n` turns, the average is `n`
/// (`n * UNIT` thousandths).
pub proof fn law_single_consensus_average(p: Palaver)
    requires
        p.consensus_reached,
    ensures
        thousandths(
            consensus_turns(seq![p]),
            seq![p].filter(reached_pred()).len(),
        ) == p.turn_count * (UNIT as nat),
{
    let e = Seq::<Palaver>::empty();
    let s = seq![p];
    assert(e.push(p) == s);
    assert(s.drop_last() == e);
    assert(s.last() == p);
    assert(consensus_turns(e) == 0);
    assert(consensus_turns(s) == p.turn_count as nat);
    e.lemma_filter_push(p, reached_pred());
    assert(e.filter(reached_pred()) == e) by {
        reveal(Seq::filter);
    }
    assert(s.filter(reached_pred()).len() == 1);
    let t = p.turn_count as nat;
    assert((t * (UNIT as nat)) / 1 == t * (UNIT as nat)) by (nonlinear_arith);
}

/// A summary line prints the name of the proposal's status variant, and distinct
/// statuses print distinct names.
pub proof fn law_status_names(s: ProposalStatus, t: ProposalStatus)
    ensures
        s == ProposalStatus::Open ==> status_name(s) == "Open"@,
        s == ProposalStatus::Consensus ==> status_name(s) == "Consensus"@,
        s == ProposalStatus::Blocked ==> status_name(s) == "Blocked"@,
        s == ProposalStatus::Withdrawn ==> status_name(s) == "Withdrawn"@,
        s == ProposalStatus::Expired ==> status_name(s) == "Expired"@,
        s != t ==> status_name(s) != status_name(t),
{
    reveal_strlit("Open");
    reveal_strlit("Consensus");
    reveal_strlit("Blocked");
    reveal_strlit("Withdrawn");
    reveal_strlit("Expired");
    if s != t {
        let a = status_name(s);
        let b = status_name(t);
        if a.len() == b.len() {
            assert(a[0] != b[0] || a[1] != b[1]);
        }
    }
}

/// A response never records consensus while the responded proposal holds a
/// disagreeing position, whatever its threshold; in particular responding with a
/// disagreement clears it.
pub proof fn law_response_with_dissent_is_not_consensus(
    pre: Palaver,
    post: Palaver,
    idx: int,
    position: Position,
)
    requires
        0 <= idx < pre.proposals@.len(),
        Palaver::responded(pre, post, idx, position),
    ensures
        post.consensus_reached ==> forall|i: int|
            0 <= i < post.proposals@[idx].positions@.len()
                ==> !((#[trigger] post.proposals@[idx].positions@[i]).stance is Disagree),
        position.stance is Disagree ==> !post.consensus_reached,
        post.consensus_reached <==> (score_of(post.proposals@[idx].positions@)
            >= post.proposals@[idx].consensus_threshold && forall|i: int|
            0 <= i < post.proposals@[idx].positions@.len()
                ==> !((#[trigger] post.proposals@[idx].positions@[i]).stance is Disagree)),
{
    if position.stance is Disagree {
        law_one_disagreement_blocks(
            pre.proposals@[idx].positions@,
            position,
            ProposalStatus::Open,
            0,
        );
    }
}

} // verus!
