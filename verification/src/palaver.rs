//! A palaver session: proposals discussed among participants, turn by turn.

use vstd::prelude::*;
use vstd::string::StringExecFns;

use crate::position::{clamp_to_unit, clamp_unit, PalaverId, Position, ProposalStatus};
use crate::proposal::{any_disagrees, score_of, upsert, Proposal};
use crate::text::{decimal, push_decimal};

verus! {

/// The identifier text of the palaver numbered `number`.
pub open spec fn palaver_id_text(number: nat) -> Seq<char> {
    "palaver-"@ + decimal(number)
}

/// The identifier text of proposal `idx` in the palaver identified by `palaver`.
pub open spec fn proposal_id_text(palaver: Seq<char>, idx: nat) -> Seq<char> {
    palaver + "-prop-"@ + decimal(idx)
}

/// The message of the error returned for an out-of-range proposal index.
pub open spec fn out_of_bounds_text(idx: nat) -> Seq<char> {
    "Proposal index "@ + decimal(idx) + " out of bounds"@
}

/// Proposal `p` has consensus and nobody blocks it.
pub open spec fn settled(p: Proposal) -> bool {
    score_of(p.positions@) >= p.consensus_threshold && !any_disagrees(p.positions@)
}

/// A palaver session: a discussion among agents under the palaver tree.
///
/// `harmony_score` is a fraction in thousandths.
#[derive(Debug)]
pub struct Palaver {
    pub id: PalaverId,
    pub topic: String,
    pub proposals: Vec<Proposal>,
    pub active_proposal: Option<usize>,
    pub participants: Vec<String>,
    pub tick_started: u64,
    pub tick_ended: Option<u64>,
    pub turn_count: u32,
    pub consensus_reached: bool,
    pub harmony_score: u32,
}

impl Clone for Palaver {
    /// A copy of the session.
    fn clone(&self) -> (r: Palaver)
        ensures
            Palaver::copied(*self, r),
    {
        let proposals = self.proposals.clone();
        let participants = self.participants.clone();
        assert(participants@ == self.participants@);
        Palaver {
            id: self.id.clone(),
            topic: self.topic.clone(),
            proposals,
            active_proposal: self.active_proposal,
            participants,
            tick_started: self.tick_started,
            tick_ended: self.tick_ended,
            turn_count: self.turn_count,
            consensus_reached: self.consensus_reached,
            harmony_score: self.harmony_score,
        }
    }
}

impl Palaver {
    /// `b` holds what `a` holds: the same fields, participants and proposals.
    pub open spec fn copied(a: Palaver, b: Palaver) -> bool {
        &&& b.id == a.id
        &&& b.topic == a.topic
        &&& b.proposals@.len() == a.proposals@.len()
        &&& forall|i: int|
            0 <= i < a.proposals@.len() ==> Proposal::copied(
                a.proposals@[i],
                #[trigger] b.proposals@[i],
            )
        &&& b.active_proposal == a.active_proposal
        &&& b.participants@ == a.participants@
        &&& b.tick_started == a.tick_started
        &&& b.tick_ended == a.tick_ended
        &&& b.turn_count == a.turn_count
        &&& b.consensus_reached == a.consensus_reached
        &&& b.harmony_score == a.harmony_score
    }

    /// Every proposal is well-formed.
    pub open spec fn proposals_wf(&self) -> bool {
        forall|i: int| 0 <= i < self.proposals@.len() ==> (#[trigger] self.proposals@[i]).wf()
    }

    /// Well-formed: proposals are well-formed, and an active proposal indexes one.
    pub open spec fn wf(&self) -> bool {
        &&& self.proposals_wf()
        &&& match self.active_proposal {
            Some(i) => i < self.proposals@.len(),
            None => true,
        }
    }

    /// `post` equals `pre` but for its proposals, active proposal, turn count and
    /// consensus flag.
    pub open spec fn same_frame(pre: Palaver, post: Palaver) -> bool {
        &&& Palaver::same_frame_but_end(pre, post)
        &&& post.tick_ended == pre.tick_ended
    }

    /// `post` is `pre` after a proposal with `description` by `proposer` was made.
    pub open spec fn proposed(pre: Palaver, post: Palaver, description: Seq<char>, proposer: Seq<char>) -> bool {
        let idx = pre.proposals@.len();
        &&& Palaver::same_frame(pre, post)
        &&& post.consensus_reached == pre.consensus_reached
        &&& post.proposals@.len() == idx + 1
        &&& post.proposals@.take(idx as int) == pre.proposals@
        &&& Proposal::fresh(
            post.proposals@[idx as int],
            proposal_id_text(pre.id.0@, idx),
            description,
            proposer,
            (pre.tick_started + pre.turn_count) as u64,
        )
        &&& post.active_proposal == (match pre.active_proposal {
            Some(a) => Some(a),
            None => Some(idx as usize),
        })
        &&& post.turn_count == pre.turn_count + 1
    }

    /// `post` is `pre` after `position` was stated on proposal `idx`.
    pub open spec fn responded(pre: Palaver, post: Palaver, idx: int, position: Position) -> bool {
        &&& Palaver::same_frame(pre, post)
        &&& post.active_proposal == pre.active_proposal
        &&& post.proposals@.len() == pre.proposals@.len()
        &&& forall|j: int|
            0 <= j < pre.proposals@.len() && j != idx ==> #[trigger] post.proposals@[j]
                == pre.proposals@[j]
        &&& Proposal::repositioned(
            pre.proposals@[idx],
            post.proposals@[idx],
            upsert(pre.proposals@[idx].positions@, position),
        )
        &&& post.turn_count == pre.turn_count + 1
        &&& post.consensus_reached == settled(post.proposals@[idx])
    }

    /// `p` is a new session numbered `number` on `topic`, started at `tick`.
    pub open spec fn opened(
        p: Palaver,
        number: nat,
        topic: Seq<char>,
        participants: Vec<String>,
        tick: u64,
    ) -> bool {
        &&& p.id.0@ == palaver_id_text(number)
        &&& p.topic@ == topic
        &&& p.proposals@.len() == 0
        &&& p.active_proposal is None
        &&& p.participants == participants
        &&& p.tick_started == tick
        &&& p.tick_ended is None
        &&& p.turn_count == 0
        &&& !p.consensus_reached
        &&& p.harmony_score == 0
    }

    /// `post` is `pre` after a request to close it at `tick`: it ends at `tick` exactly
    /// when consensus was reached.
    pub open spec fn closed_at(pre: Palaver, post: Palaver, tick: u64) -> bool {
        &&& Palaver::same_frame_but_end(pre, post)
        &&& post.proposals == pre.proposals
        &&& post.active_proposal == pre.active_proposal
        &&& post.turn_count == pre.turn_count
        &&& post.consensus_reached == pre.consensus_reached
        &&& post.tick_ended == (if pre.consensus_reached {
            Some(tick)
        } else {
            pre.tick_ended
        })
    }

    /// `post` equals `pre` in identifier, topic, participants, start and harmony.
    pub open spec fn same_frame_but_end(pre: Palaver, post: Palaver) -> bool {
        &&& post.id == pre.id
        &&& post.topic == pre.topic
        &&& post.participants == pre.participants
        &&& post.tick_started == pre.tick_started
        &&& post.harmony_score == pre.harmony_score
    }

    /// The active proposal has consensus and is not blocked.
    pub open spec fn active_settled(&self) -> bool {
        match self.active_proposal {
            Some(i) => 0 <= i < self.proposals@.len() && settled(self.proposals@[i as int]),
            None => false,
        }
    }

    /// Opens a session on `topic`, identified as `palaver-<number>`.
    pub fn new(topic: &str, participants: Vec<String>, tick: u64, number: u64) -> (p: Palaver)
        ensures
            p.wf(),
            Palaver::opened(p, number as nat, topic@, participants, tick),
    {
        let mut id = "palaver-".to_owned();
        push_decimal(&mut id, number);
        Palaver {
            id: PalaverId(id),
            topic: topic.to_owned(),
            proposals: Vec::new(),
            active_proposal: None,
            participants,
            tick_started: tick,
            tick_ended: None,
            turn_count: 0,
            consensus_reached: false,
            harmony_score: 0,
        }
    }

    /// True if the session is well-formed.
    pub fn is_wf(&self) -> (r: bool)
        ensures
            r == self.wf(),
    {
        let n = self.proposals.len();
        match self.active_proposal {
            Some(i) => {
                if i >= n {
                    return false;
                }
            },
            None => {},
        }
        let mut i: usize = 0;
        while i < n
            invariant
                n == self.proposals@.len(),
                i <= n,
                forall|j: int| 0 <= j < i ==> (#[trigger] self.proposals@[j]).wf(),
            decreases n - i,
        {
            if !self.proposals[i].is_wf() {
                return false;
            }
            i = i + 1;
        }
        true
    }

    /// Makes a proposal and returns its index; the first proposal becomes the active one.
    pub fn propose(&mut self, description: &str, proposer: &str) -> (idx: usize)
        requires
            old(self).proposals_wf(),
            old(self).tick_started + old(self).turn_count <= u64::MAX,
            old(self).turn_count < u32::MAX,
        ensures
            final(self).proposals_wf(),
            old(self).wf() ==> final(self).wf(),
            idx == old(self).proposals@.len(),
            Palaver::proposed(*old(self), *final(self), description@, proposer@),
    {
        let idx = self.proposals.len();
        let mut proposal_id = self.id.0.clone();
        proposal_id.append("-prop-");
        push_decimal(&mut proposal_id, idx as u64);
        let proposal = Proposal::new(
            proposal_id.as_str(),
            description,
            proposer,
            self.tick_started + self.turn_count as u64,
        );
        self.proposals.push(proposal);
        if self.active_proposal.is_none() {
            self.active_proposal = Some(idx);
        }
        self.turn_count = self.turn_count + 1;
        assert(self.proposals@.take(idx as int) == old(self).proposals@);
        idx
    }

    /// States `position` on proposal `proposal_idx` and records whether that proposal
    /// now has consensus without blockers.
    pub fn respond(&mut self, proposal_idx: usize, position: Position) -> (r: Result<(), String>)
        requires
            old(self).proposals_wf(),
            proposal_idx < old(self).proposals@.len() ==> old(self).turn_count < u32::MAX,
        ensures
            final(self).proposals_wf(),
            old(self).wf() ==> final(self).wf(),
            match r {
                Ok(()) => proposal_idx < old(self).proposals@.len() && Palaver::responded(
                    *old(self),
                    *final(self),
                    proposal_idx as int,
                    position,
                ),
                Err(e) => proposal_idx >= old(self).proposals@.len() && e@ == out_of_bounds_text(
                    proposal_idx as nat,
                ) && *final(self) == *old(self),
            },
    {
        if proposal_idx >= self.proposals.len() {
            let mut msg = "Proposal index ".to_owned();
            push_decimal(&mut msg, proposal_idx as u64);
            msg.append(" out of bounds");
            return Err(msg);
        }
        let ghost pre = *self;
        self.proposals[proposal_idx].state_position(position);
        self.turn_count = self.turn_count + 1;
        let proposal = &self.proposals[proposal_idx];
        self.consensus_reached = proposal.has_consensus() && !proposal.is_blocked();
        proof {
            assert forall|i: int| 0 <= i < self.proposals@.len() implies (#[trigger] self.proposals@[i]).wf() by {
                if i != proposal_idx {
                    assert(self.proposals@[i] == pre.proposals@[i]);
                }
            }
        }
        Ok(())
    }

    /// True if the active proposal has consensus and is not blocked.
    pub fn check_consensus(&mut self) -> (r: bool)
        requires
            old(self).wf(),
        ensures
            *final(self) == *old(self),
            r == old(self).active_settled(),
    {
        self.active_is_settled()
    }

    /// True if the active proposal has consensus and is not blocked.
    pub(crate) fn active_is_settled(&self) -> (r: bool)
        requires
            self.wf(),
        ensures
            r == self.active_settled(),
    {
        match self.active_proposal {
            Some(idx) => {
                let proposal = &self.proposals[idx];
                proposal.has_consensus() && !proposal.is_blocked()
            },
            None => false,
        }
    }

    /// Moves to the next proposal, if there is one after the active proposal.
    pub fn advance_proposal(&mut self)
        requires
            old(self).active_proposal matches Some(i) ==> i < usize::MAX,
        ensures
            old(self).wf() ==> final(self).wf(),
            final(self).active_proposal == (match old(self).active_proposal {
                Some(i) => if i + 1 < old(self).proposals@.len() {
                    Some((i + 1) as usize)
                } else {
                    Some(i)
                },
                None => None,
            }),
            final(self).id == old(self).id,
            final(self).topic == old(self).topic,
            final(self).proposals == old(self).proposals,
            final(self).participants == old(self).participants,
            final(self).tick_started == old(self).tick_started,
            final(self).tick_ended == old(self).tick_ended,
            final(self).turn_count == old(self).turn_count,
            final(self).consensus_reached == old(self).consensus_reached,
            final(self).harmony_score == old(self).harmony_score,
    {
        if let Some(idx) = self.active_proposal {
            let n = self.proposals.len();
            if idx + 1 < n {
                self.active_proposal = Some(idx + 1);
            }
        }
    }

    /// The active proposal, if any.
    pub fn current_proposal(&self) -> (r: Option<&Proposal>)
        ensures
            r == (match self.active_proposal {
                Some(i) => if i < self.proposals@.len() {
                    Some(&self.proposals@[i as int])
                } else {
                    None
                },
                None => None,
            }),
    {
        match self.active_proposal {
            Some(idx) => {
                if idx < self.proposals.len() {
                    Some(&self.proposals[idx])
                } else {
                    None
                }
            },
            None => None,
        }
    }

    /// All proposals, in the order they were made.
    pub fn all_proposals(&self) -> (r: &[Proposal])
        ensures
            r@ == self.proposals@,
    {
        self.proposals.as_slice()
    }

    /// Sets the harmony score (in thousandths), clamped to `0..=UNIT`.
    pub fn update_harmony(&mut self, score: i64)
        ensures
            final(self).harmony_score as int == clamp_unit(score as int),
            final(self).id == old(self).id,
            final(self).topic == old(self).topic,
            final(self).proposals == old(self).proposals,
            final(self).active_proposal == old(self).active_proposal,
            final(self).participants == old(self).participants,
            final(self).tick_started == old(self).tick_started,
            final(self).tick_ended == old(self).tick_ended,
            final(self).turn_count == old(self).turn_count,
            final(self).consensus_reached == old(self).consensus_reached,
    {
        self.harmony_score = clamp_to_unit(score);
    }

    /// True if some proposal of this session is blocked.
    pub(crate) fn has_blocked_proposal(&self) -> (r: bool)
        ensures
            r == exists|j: int|
                0 <= j < self.proposals@.len() && (#[trigger] self.proposals@[j]).status
                    == ProposalStatus::Blocked,
    {
        let n = self.proposals.len();
        let mut i: usize = 0;
        while i < n
            invariant
                n == self.proposals@.len(),
                i <= n,
                forall|j: int| 0 <= j < i ==> (#[trigger] self.proposals@[j]).status != ProposalStatus::Blocked,
            decreases n - i,
        {
            if self.proposals[i].status == ProposalStatus::Blocked {
                return true;
            }
            i = i + 1;
        }
        false
    }

    /// Closes the session at `tick` if consensus was reached; returns whether it did.
    pub fn close(&mut self, tick: u64) -> (closed: bool)
        ensures
            closed == old(self).consensus_reached,
            Palaver::closed_at(*old(self), *final(self), tick),
    {
        if self.consensus_reached {
            self.tick_ended = Some(tick);
            true
        } else {
            false
        }
    }
}

} // verus!
