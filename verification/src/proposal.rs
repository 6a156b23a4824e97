//! Proposals and the positions that agents state on them.

use vstd::prelude::*;

use crate::position::{Position, ProposalStatus, UNIT};

verus! {

broadcast use vstd::seq_lib::group_filter_ensures;

/// Selects the positions that agree.
pub open spec fn agree_pred() -> spec_fn(Position) -> bool {
    |p: Position| p.stance is Agree
}

/// Selects the positions that disagree.
pub open spec fn disagree_pred() -> spec_fn(Position) -> bool {
    |p: Position| p.stance is Disagree
}

/// The positions of `ps` that agree, in order.
pub open spec fn agreeing(ps: Seq<Position>) -> Seq<Position> {
    ps.filter(agree_pred())
}

/// The positions of `ps` that disagree, in order.
pub open spec fn disagreeing(ps: Seq<Position>) -> Seq<Position> {
    ps.filter(disagree_pred())
}

/// Some position of `ps` disagrees.
pub open spec fn any_disagrees(ps: Seq<Position>) -> bool {
    exists|i: int| 0 <= i < ps.len() && (#[trigger] ps[i]).stance is Disagree
}

/// The share of agreeing positions in thousandths, rounded down; 0 when there is none.
pub open spec fn score_of(ps: Seq<Position>) -> int {
    if ps.len() == 0 {
        0
    } else {
        (agreeing(ps).len() * (UNIT as nat)) as int / ps.len() as int
    }
}

/// The status a proposal takes after its positions changed.
pub open spec fn next_status(status: ProposalStatus, ps: Seq<Position>, threshold: u32) -> ProposalStatus {
    if status == ProposalStatus::Withdrawn || status == ProposalStatus::Expired {
        status
    } else if any_disagrees(ps) {
        ProposalStatus::Blocked
    } else if score_of(ps) >= threshold {
        ProposalStatus::Consensus
    } else {
        ProposalStatus::Open
    }
}

/// No two positions of `ps` belong to the same agent.
pub open spec fn distinct_agents(ps: Seq<Position>) -> bool {
    forall|i: int, j: int|
        0 <= i < ps.len() && 0 <= j < ps.len() && i != j ==> (#[trigger] ps[i]).agent_id@
            != (#[trigger] ps[j]).agent_id@
}

/// Some position of `ps` belongs to agent `id`.
pub open spec fn has_agent(ps: Seq<Position>, id: Seq<char>) -> bool {
    exists|i: int| 0 <= i < ps.len() && (#[trigger] ps[i]).agent_id@ == id
}

/// The index of the position of agent `id` in `ps` (meaningful when `has_agent(ps, id)`).
pub open spec fn agent_index(ps: Seq<Position>, id: Seq<char>) -> int {
    choose|i: int| 0 <= i < ps.len() && (#[trigger] ps[i]).agent_id@ == id
}

/// `ps` after `p` was stated: it replaces the position of the same agent, or is appended.
pub open spec fn upsert(ps: Seq<Position>, p: Position) -> Seq<Position> {
    if has_agent(ps, p.agent_id@) {
        ps.update(agent_index(ps, p.agent_id@), p)
    } else {
        ps.push(p)
    }
}

/// `ps` without the position of agent `id`, if it has one.
pub open spec fn without(ps: Seq<Position>, id: Seq<char>) -> Seq<Position> {
    if has_agent(ps, id) {
        ps.remove(agent_index(ps, id))
    } else {
        ps
    }
}

/// In a sequence with distinct agents, an index holding agent `id` is its `agent_index`.
pub proof fn lemma_agent_index_unique(ps: Seq<Position>, id: Seq<char>, i: int)
    requires
        distinct_agents(ps),
        0 <= i < ps.len(),
        ps[i].agent_id@ == id,
    ensures
        has_agent(ps, id),
        agent_index(ps, id) == i,
{
    let j = agent_index(ps, id);
    assert(0 <= j < ps.len() && ps[j].agent_id@ == id);
}

/// Stating a position keeps the agents distinct.
pub proof fn lemma_upsert_distinct(ps: Seq<Position>, p: Position)
    requires
        distinct_agents(ps),
    ensures
        distinct_agents(upsert(ps, p)),
{
    if has_agent(ps, p.agent_id@) {
        let k = agent_index(ps, p.agent_id@);
        let qs = upsert(ps, p);
        assert forall|i: int, j: int|
            0 <= i < qs.len() && 0 <= j < qs.len() && i != j implies (#[trigger] qs[i]).agent_id@
            != (#[trigger] qs[j]).agent_id@ by {
            if i == k {
                assert(ps[j].agent_id@ != ps[k].agent_id@);
            } else if j == k {
                assert(ps[i].agent_id@ != ps[k].agent_id@);
            } else {
                assert(ps[i].agent_id@ != ps[j].agent_id@);
            }
        }
    } else {
        let qs = upsert(ps, p);
        assert forall|i: int, j: int|
            0 <= i < qs.len() && 0 <= j < qs.len() && i != j implies (#[trigger] qs[i]).agent_id@
            != (#[trigger] qs[j]).agent_id@ by {
            if i == ps.len() {
                assert(ps[j].agent_id@ != p.agent_id@);
            } else if j == ps.len() {
                assert(ps[i].agent_id@ != p.agent_id@);
            } else {
                assert(ps[i].agent_id@ != ps[j].agent_id@);
            }
        }
    }
}

/// Withdrawing a position keeps the agents distinct.
pub proof fn lemma_without_distinct(ps: Seq<Position>, id: Seq<char>)
    requires
        distinct_agents(ps),
    ensures
        distinct_agents(without(ps, id)),
{
    if has_agent(ps, id) {
        let k = agent_index(ps, id);
        let qs = without(ps, id);
        assert forall|i: int, j: int|
            0 <= i < qs.len() && 0 <= j < qs.len() && i != j implies (#[trigger] qs[i]).agent_id@
            != (#[trigger] qs[j]).agent_id@ by {
            let a = if i < k { i } else { i + 1 };
            let b = if j < k { j } else { j + 1 };
            assert(qs[i] == ps[a]);
            assert(qs[j] == ps[b]);
            assert(ps[a].agent_id@ != ps[b].agent_id@);
        }
    }
}

/// A proposal under discussion in a palaver.
///
/// `consensus_threshold` is a fraction in thousandths; `UNIT` asks for every stated
/// position to agree.
#[derive(Debug)]
pub struct Proposal {
    pub id: String,
    pub description: String,
    pub proposer: String,
    pub tick_proposed: u64,
    pub positions: Vec<Position>,
    pub status: ProposalStatus,
    pub consensus_threshold: u32,
}

impl Clone for Proposal {
    /// A copy of the proposal.
    fn clone(&self) -> (r: Proposal)
        ensures
            Proposal::copied(*self, r),
    {
        let positions = self.positions.clone();
        assert(positions@ == self.positions@);
        Proposal {
            id: self.id.clone(),
            description: self.description.clone(),
            proposer: self.proposer.clone(),
            tick_proposed: self.tick_proposed,
            positions,
            status: self.status,
            consensus_threshold: self.consensus_threshold,
        }
    }
}

impl Proposal {
    /// `b` holds what `a` holds: the same fields and the same positions.
    pub open spec fn copied(a: Proposal, b: Proposal) -> bool {
        &&& b.id == a.id
        &&& b.description == a.description
        &&& b.proposer == a.proposer
        &&& b.tick_proposed == a.tick_proposed
        &&& b.positions@ == a.positions@
        &&& b.status == a.status
        &&& b.consensus_threshold == a.consensus_threshold
    }

    /// Well-formed: every agent holds at most one position.
    pub open spec fn wf(&self) -> bool {
        distinct_agents(self.positions@)
    }

    /// `post` is `pre` with positions `ps` and the status that follows from them.
    pub open spec fn repositioned(pre: Proposal, post: Proposal, ps: Seq<Position>) -> bool {
        &&& post.id == pre.id
        &&& post.description == pre.description
        &&& post.proposer == pre.proposer
        &&& post.tick_proposed == pre.tick_proposed
        &&& post.consensus_threshold == pre.consensus_threshold
        &&& post.positions@ == ps
        &&& post.status == next_status(pre.status, ps, pre.consensus_threshold)
    }

    /// A fresh proposal: no positions, status `Open`, threshold `UNIT`.
    pub open spec fn fresh(
        p: Proposal,
        id: Seq<char>,
        description: Seq<char>,
        proposer: Seq<char>,
        tick: u64,
    ) -> bool {
        &&& p.id@ == id
        &&& p.description@ == description
        &&& p.proposer@ == proposer
        &&& p.tick_proposed == tick
        &&& p.positions@.len() == 0
        &&& p.status == ProposalStatus::Open
        &&& p.consensus_threshold == UNIT
    }

    /// Creates an open proposal with no positions that asks for unanimous agreement.
    pub fn new(id: &str, description: &str, proposer: &str, tick: u64) -> (p: Proposal)
        ensures
            Proposal::fresh(p, id@, description@, proposer@, tick),
            p.wf(),
    {
        Proposal {
            id: id.to_owned(),
            description: description.to_owned(),
            proposer: proposer.to_owned(),
            tick_proposed: tick,
            positions: Vec::new(),
            status: ProposalStatus::Open,
            consensus_threshold: UNIT,
        }
    }

    /// True if every agent holds at most one position.
    pub fn is_wf(&self) -> (r: bool)
        ensures
            r == self.wf(),
    {
        let n = self.positions.len();
        let mut i: usize = 0;
        while i < n
            invariant
                n == self.positions@.len(),
                i <= n,
                forall|a: int, b: int|
                    0 <= a < i && 0 <= b < i && a != b ==> (#[trigger] self.positions@[a]).agent_id@
                        != (#[trigger] self.positions@[b]).agent_id@,
            decreases n - i,
        {
            let mut j: usize = 0;
            while j < i
                invariant
                    n == self.positions@.len(),
                    i < n,
                    j <= i,
                    forall|b: int| 0 <= b < j ==> (#[trigger] self.positions@[b]).agent_id@
                        != self.positions@[i as int].agent_id@,
                decreases i - j,
            {
                if self.positions[j].agent_id == self.positions[i].agent_id {
                    assert(!distinct_agents(self.positions@)) by {
                        assert(self.positions@[j as int].agent_id@ == self.positions@[i as int].agent_id@);
                    }
                    return false;
                }
                j = j + 1;
            }
            i = i + 1;
        }
        true
    }

    /// The index of the position of the agent named `id`.
    fn find_agent(&self, id: &String) -> (r: Option<usize>)
        requires
            self.wf(),
        ensures
            match r {
                Some(i) => i < self.positions@.len() && has_agent(self.positions@, id@)
                    && agent_index(self.positions@, id@) == i as int,
                None => !has_agent(self.positions@, id@),
            },
    {
        let n = self.positions.len();
        let mut i: usize = 0;
        while i < n
            invariant
                n == self.positions@.len(),
                i <= n,
                distinct_agents(self.positions@),
                forall|j: int| 0 <= j < i ==> (#[trigger] self.positions@[j]).agent_id@ != id@,
            decreases n - i,
        {
            if self.positions[i].agent_id == *id {
                proof {
                    lemma_agent_index_unique(self.positions@, id@, i as int);
                }
                return Some(i);
            }
            i = i + 1;
        }
        None
    }

    /// Adds or replaces the position of `position.agent_id`, then updates the status.
    pub fn state_position(&mut self, position: Position)
        requires
            old(self).wf(),
        ensures
            final(self).wf(),
            Proposal::repositioned(*old(self), *final(self), upsert(old(self).positions@, position)),
    {
        let ghost ps = self.positions@;
        proof {
            lemma_upsert_distinct(ps, position);
        }
        match self.find_agent(&position.agent_id) {
            Some(i) => {
                self.positions.set(i, position);
            },
            None => {
                self.positions.push(position);
            },
        }
        assert(self.positions@ == upsert(ps, position));
        self.update_status();
    }

    /// Removes the position of `agent_id`, if any, then updates the status.
    pub fn withdraw_position(&mut self, agent_id: &str)
        requires
            old(self).wf(),
        ensures
            final(self).wf(),
            Proposal::repositioned(*old(self), *final(self), without(old(self).positions@, agent_id@)),
    {
        let ghost ps = self.positions@;
        proof {
            lemma_without_distinct(ps, agent_id@);
        }
        let key = agent_id.to_owned();
        match self.find_agent(&key) {
            Some(i) => {
                self.positions.remove(i);
            },
            None => {},
        }
        assert(self.positions@ == without(ps, agent_id@));
        self.update_status();
    }

    /// The number of agreeing positions.
    pub(crate) fn agree_count(&self) -> (n: usize)
        ensures
            n == agreeing(self.positions@).len(),
    {
        let len = self.positions.len();
        let mut count: usize = 0;
        let mut i: usize = 0;
        while i < len
            invariant
                len == self.positions@.len(),
                i <= len,
                count == agreeing(self.positions@.take(i as int)).len(),
            decreases len - i,
        {
            proof {
                let ps = self.positions@;
                assert(ps.take(i + 1) == ps.take(i as int).push(ps[i as int]));
                ps.take(i as int).lemma_filter_push(ps[i as int], agree_pred());
                ps.take(i as int).push(ps[i as int]).lemma_filter_len(agree_pred());
            }
            if self.positions[i].is_agreement() {
                count = count + 1;
            }
            i = i + 1;
        }
        assert(self.positions@.take(len as int) == self.positions@);
        count
    }

    /// Share of positions that agree, in thousandths rounded down; 0 with no positions.
    pub fn consensus_score(&self) -> (s: u32)
        ensures
            s as int == score_of(self.positions@),
            s <= UNIT,
    {
        let total = self.positions.len();
        if total == 0 {
            return 0;
        }
        let agreeing_count = self.agree_count();
        proof {
            self.positions@.lemma_filter_len(agree_pred());
        }
        let scaled: u128 = agreeing_count as u128 * (UNIT as u128);
        let s: u128 = scaled / (total as u128);
        proof {
            assert(scaled <= (total as u128) * (UNIT as u128)) by (nonlinear_arith)
                requires
                    agreeing_count <= total,
                    scaled == agreeing_count as u128 * (UNIT as u128),
            ;
            assert(s <= UNIT) by (nonlinear_arith)
                requires
                    scaled <= (total as u128) * (UNIT as u128),
                    s == scaled / (total as u128),
                    total > 0,
            ;
        }
        s as u32
    }

    /// True if the consensus score reaches the threshold.
    pub fn has_consensus(&self) -> (r: bool)
        ensures
            r == (score_of(self.positions@) >= self.consensus_threshold),
    {
        self.consensus_score() >= self.consensus_threshold
    }

    /// All positions that disagree, in the order they are held.
    pub fn blockers(&self) -> (r: Vec<&Position>)
        ensures
            r@.map_values(|p: &Position| *p) == disagreeing(self.positions@),
    {
        let len = self.positions.len();
        let mut out: Vec<&Position> = Vec::new();
        let mut i: usize = 0;
        while i < len
            invariant
                len == self.positions@.len(),
                i <= len,
                out@.map_values(|p: &Position| *p) == disagreeing(self.positions@.take(i as int)),
            decreases len - i,
        {
            proof {
                let ps = self.positions@;
                assert(ps.take(i + 1) == ps.take(i as int).push(ps[i as int]));
                ps.take(i as int).lemma_filter_push(ps[i as int], disagree_pred());
            }
            if self.positions[i].is_disagreement() {
                out.push(&self.positions[i]);
            }
            i = i + 1;
        }
        assert(self.positions@.take(len as int) == self.positions@);
        out
    }

    /// All positions that agree, in the order they are held.
    pub fn proponents(&self) -> (r: Vec<&Position>)
        ensures
            r@.map_values(|p: &Position| *p) == agreeing(self.positions@),
    {
        let len = self.positions.len();
        let mut out: Vec<&Position> = Vec::new();
        let mut i: usize = 0;
        while i < len
            invariant
                len == self.positions@.len(),
                i <= len,
                out@.map_values(|p: &Position| *p) == agreeing(self.positions@.take(i as int)),
            decreases len - i,
        {
            proof {
                let ps = self.positions@;
                assert(ps.take(i + 1) == ps.take(i as int).push(ps[i as int]));
                ps.take(i as int).lemma_filter_push(ps[i as int], agree_pred());
            }
            if self.positions[i].is_agreement() {
                out.push(&self.positions[i]);
            }
            i = i + 1;
        }
        assert(self.positions@.take(len as int) == self.positions@);
        out
    }

    /// Any single disagreeing agent blocks the proposal.
    pub fn is_blocked(&self) -> (r: bool)
        ensures
            r == any_disagrees(self.positions@),
    {
        let len = self.positions.len();
        let mut i: usize = 0;
        while i < len
            invariant
                len == self.positions@.len(),
                i <= len,
                forall|j: int| 0 <= j < i ==> !((#[trigger] self.positions@[j]).stance is Disagree),
            decreases len - i,
        {
            if self.positions[i].is_disagreement() {
                return true;
            }
            i = i + 1;
        }
        false
    }

    /// Ticks elapsed since the proposal was made, 0 if `current_tick` is earlier.
    pub fn tick_age(&self, current_tick: u64) -> (age: u64)
        ensures
            age == (if current_tick >= self.tick_proposed {
                current_tick - self.tick_proposed
            } else {
                0
            }),
    {
        current_tick.saturating_sub(self.tick_proposed)
    }

    /// Recomputes the status from the positions, unless it is `Withdrawn` or `Expired`.
    fn update_status(&mut self)
        ensures
            final(self).positions == old(self).positions,
            final(self).id == old(self).id,
            final(self).description == old(self).description,
            final(self).proposer == old(self).proposer,
            final(self).tick_proposed == old(self).tick_proposed,
            final(self).consensus_threshold == old(self).consensus_threshold,
            final(self).status == next_status(
                old(self).status,
                old(self).positions@,
                old(self).consensus_threshold,
            ),
    {
        if self.status == ProposalStatus::Withdrawn || self.status == ProposalStatus::Expired {
            return;
        }
        if self.is_blocked() {
            self.status = ProposalStatus::Blocked;
        } else if self.has_consensus() {
            self.status = ProposalStatus::Consensus;
        } else {
            self.status = ProposalStatus::Open;
        }
    }
}

} // verus!
