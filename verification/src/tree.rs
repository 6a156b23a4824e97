//! The palaver tree: the collection of palaver sessions and everyone who joined one.

use vstd::prelude::*;

use crate::palaver::{palaver_id_text, Palaver};
use crate::position::{PalaverId, Position, ProposalStatus, UNIT};
use crate::proposal::Proposal;
use crate::text::{contains_name, merge_names, texts};

verus! {

broadcast use vstd::seq_lib::group_filter_ensures;

/// No two palavers of `ps` share an identifier.
pub open spec fn ids_distinct(ps: Seq<Palaver>) -> bool {
    forall|i: int, j: int|
        0 <= i < ps.len() && 0 <= j < ps.len() && i != j ==> (#[trigger] ps[i]).id.0@
            != (#[trigger] ps[j]).id.0@
}

/// Some palaver of `ps` has identifier `id`.
pub open spec fn has_palaver(ps: Seq<Palaver>, id: Seq<char>) -> bool {
    exists|i: int| 0 <= i < ps.len() && (#[trigger] ps[i]).id.0@ == id
}

/// The index of the palaver identified by `id` (meaningful when `has_palaver(ps, id)`).
pub open spec fn palaver_index(ps: Seq<Palaver>, id: Seq<char>) -> int {
    choose|i: int| 0 <= i < ps.len() && (#[trigger] ps[i]).id.0@ == id
}

/// Everyone who takes part in some palaver of `ps`.
pub open spec fn all_participants(ps: Seq<Palaver>) -> Set<Seq<char>> {
    Set::new(
        |x: Seq<char>|
            exists|i: int| 0 <= i < ps.len() && texts((#[trigger] ps[i]).participants@).contains(x),
    )
}

/// Selects the palavers that reached consensus.
pub open spec fn reached_pred() -> spec_fn(Palaver) -> bool {
    |p: Palaver| p.consensus_reached
}

/// Selects the palavers that have not ended.
pub open spec fn active_pred() -> spec_fn(Palaver) -> bool {
    |p: Palaver| p.tick_ended is None
}

/// Selects the palavers that have ended.
pub open spec fn resolved_pred() -> spec_fn(Palaver) -> bool {
    |p: Palaver| p.tick_ended is Some
}

/// Selects the palavers with a blocked proposal.
pub open spec fn blocked_pred() -> spec_fn(Palaver) -> bool {
    |p: Palaver|
        exists|j: int|
            0 <= j < p.proposals@.len() && (#[trigger] p.proposals@[j]).status
                == ProposalStatus::Blocked
}

/// Selects the palavers in which `agent` participates.
pub open spec fn agent_pred(agent: Seq<char>) -> spec_fn(Palaver) -> bool {
    |p: Palaver| texts(p.participants@).contains(agent)
}

/// Sum of the turn counts of the palavers of `ps` that reached consensus.
pub open spec fn consensus_turns(ps: Seq<Palaver>) -> nat
    decreases ps.len(),
{
    if ps.len() == 0 {
        0
    } else if ps.last().consensus_reached {
        consensus_turns(ps.drop_last()) + ps.last().turn_count as nat
    } else {
        consensus_turns(ps.drop_last())
    }
}

/// Sum of the harmony scores of the palavers of `ps` that reached consensus.
pub open spec fn consensus_harmony(ps: Seq<Palaver>) -> nat
    decreases ps.len(),
{
    if ps.len() == 0 {
        0
    } else if ps.last().consensus_reached {
        consensus_harmony(ps.drop_last()) + ps.last().harmony_score as nat
    } else {
        consensus_harmony(ps.drop_last())
    }
}

/// `part / whole` in thousandths, rounded down; 0 when `whole` is 0.
pub open spec fn thousandths(part: nat, whole: nat) -> nat {
    if whole == 0 {
        0
    } else {
        part * (UNIT as nat) / whole
    }
}

/// `part / whole`, rounded down; 0 when `whole` is 0.
pub open spec fn ratio_floor(part: nat, whole: nat) -> nat {
    if whole == 0 {
        0
    } else {
        part / whole
    }
}

/// `post` is `pre` with at most palaver `i` changed.
pub open spec fn replaced_at(pre: Seq<Palaver>, post: Seq<Palaver>, i: int) -> bool {
    &&& post.len() == pre.len()
    &&& forall|j: int| 0 <= j < pre.len() && j != i ==> #[trigger] post[j] == pre[j]
}

/// Among palavers with distinct identifiers, an index holding `id` is its `palaver_index`.
pub proof fn lemma_palaver_index_unique(ps: Seq<Palaver>, id: Seq<char>, i: int)
    requires
        ids_distinct(ps),
        0 <= i < ps.len(),
        ps[i].id.0@ == id,
    ensures
        has_palaver(ps, id),
        palaver_index(ps, id) == i,
{
    let j = palaver_index(ps, id);
    assert(ps[j].id.0@ == id);
}

/// Merging names keeps them distinct and adds exactly the new ones.
pub proof fn lemma_merge_names(names: Seq<Seq<char>>, added: Seq<Seq<char>>)
    requires
        names.no_duplicates(),
    ensures
        merge_names(names, added).no_duplicates(),
        merge_names(names, added).to_set() == names.to_set() + added.to_set(),
    decreases added.len(),
{
    broadcast use vstd::seq_lib::group_seq_properties;

    if added.len() > 0 {
        let rest = added.drop_last();
        lemma_merge_names(names, rest);
        let merged = merge_names(names, rest);
        assert(added == rest.push(added.last()));
        assert(added.to_set() == rest.to_set().insert(added.last()));
        if !merged.contains(added.last()) {
            assert(merged.push(added.last()).to_set() == merged.to_set().insert(added.last()));
        } else {
            assert(merged.to_set().contains(added.last()));
        }
    } else {
        assert(added.to_set() == Set::<Seq<char>>::empty());
    }
}

/// The names of everyone who joined a palaver of `ps`, in the order they first joined.
pub open spec fn participant_names(ps: Seq<Palaver>) -> Seq<Seq<char>>
    decreases ps.len(),
{
    if ps.len() == 0 {
        Seq::empty()
    } else {
        merge_names(participant_names(ps.drop_last()), texts(ps.last().participants@))
    }
}

/// The participant names of `ps` are distinct and are exactly its participants.
pub proof fn lemma_participant_names(ps: Seq<Palaver>)
    ensures
        participant_names(ps).no_duplicates(),
        participant_names(ps).to_set() == all_participants(ps),
    decreases ps.len(),
{
    broadcast use vstd::seq_lib::group_seq_properties;

    if ps.len() == 0 {
        assert(participant_names(ps).to_set() =~= Set::<Seq<char>>::empty());
        assert(all_participants(ps) =~= Set::<Seq<char>>::empty());
    } else {
        let rest = ps.drop_last();
        lemma_participant_names(rest);
        let added = texts(ps.last().participants@);
        lemma_merge_names(participant_names(rest), added);
        assert(all_participants(ps) =~= all_participants(rest) + added.to_set()) by {
            assert forall|x: Seq<char>| all_participants(ps).contains(x) implies (all_participants(
                rest,
            ) + added.to_set()).contains(x) by {
                let k = choose|k: int|
                    0 <= k < ps.len() && texts((#[trigger] ps[k]).participants@).contains(x);
                if k < rest.len() {
                    assert(rest[k] == ps[k]);
                }
            }
            assert forall|x: Seq<char>| (all_participants(rest) + added.to_set()).contains(x) implies all_participants(
                ps,
            ).contains(x) by {
                if all_participants(rest).contains(x) {
                    let k = choose|k: int|
                        0 <= k < rest.len() && texts((#[trigger] rest[k]).participants@).contains(x);
                    assert(rest[k] == ps[k]);
                } else {
                    assert(texts(ps[ps.len() - 1].participants@) == added);
                }
            }
        }
    }
}

/// Sessions with the same participants, position by position, have the same names.
proof fn lemma_participant_names_same(pre: Seq<Palaver>, post: Seq<Palaver>)
    requires
        pre.len() == post.len(),
        forall|i: int| 0 <= i < pre.len() ==> (#[trigger] post[i]).participants@ == pre[i].participants@,
    ensures
        participant_names(post) == participant_names(pre),
    decreases pre.len(),
{
    if pre.len() > 0 {
        let a = pre.drop_last();
        let b = post.drop_last();
        assert forall|i: int| 0 <= i < a.len() implies (#[trigger] b[i]).participants@ == a[i].participants@ by {
            assert(b[i] == post[i]);
            assert(a[i] == pre[i]);
        }
        lemma_participant_names_same(a, b);
        assert(post.last().participants@ == pre.last().participants@);
    }
}

/// Palavers `ps` are well-formed with distinct identifiers, and `names` are their
/// participants, each once, in the order they first joined.
pub open spec fn parts_wf(ps: Seq<Palaver>, names: Seq<Seq<char>>) -> bool {
    &&& forall|i: int| 0 <= i < ps.len() ==> (#[trigger] ps[i]).wf()
    &&& ids_distinct(ps)
    &&& names == participant_names(ps)
}

/// Replacing palaver `i` by one with the same identifier and participants keeps the
/// palavers well-formed with the same names.
proof fn lemma_replaced_parts_wf(pre: Seq<Palaver>, post: Seq<Palaver>, names: Seq<Seq<char>>, i: int)
    requires
        parts_wf(pre, names),
        0 <= i < pre.len(),
        replaced_at(pre, post, i),
        post[i].id == pre[i].id,
        post[i].participants == pre[i].participants,
        post[i].wf(),
    ensures
        parts_wf(post, names),
{
    assert forall|j: int| 0 <= j < pre.len() implies (#[trigger] post[j]).participants@
        == pre[j].participants@ by {
        if j != i {
            assert(post[j] == pre[j]);
        }
    }
    lemma_participant_names_same(pre, post);
    assert forall|j: int| 0 <= j < post.len() implies (#[trigger] post[j]).wf() by {
        if j != i {
            assert(post[j] == pre[j]);
        }
    }
    assert forall|j: int, k: int|
        0 <= j < post.len() && 0 <= k < post.len() && j != k implies (#[trigger] post[j]).id.0@
        != (#[trigger] post[k]).id.0@ by {
        assert(post[j].id == pre[j].id) by {
            if j != i {
                assert(post[j] == pre[j]);
            }
        }
        assert(post[k].id == pre[k].id) by {
            if k != i {
                assert(post[k] == pre[k]);
            }
        }
    }
}

/// The index of the palaver identified by `id` among palavers with distinct identifiers.
fn find_palaver(palavers: &Vec<Palaver>, id: &PalaverId) -> (r: Option<usize>)
    requires
        ids_distinct(palavers@),
    ensures
        match r {
            Some(i) => i < palavers@.len() && has_palaver(palavers@, id.0@) && palaver_index(
                palavers@,
                id.0@,
            ) == i as int,
            None => !has_palaver(palavers@, id.0@),
        },
{
    let n = palavers.len();
    let mut i: usize = 0;
    while i < n
        invariant
            n == palavers@.len(),
            i <= n,
            ids_distinct(palavers@),
            forall|j: int| 0 <= j < i ==> (#[trigger] palavers@[j]).id.0@ != id.0@,
        decreases n - i,
    {
        if palavers[i].id.0 == id.0 {
            proof {
                lemma_palaver_index_unique(palavers@, id.0@, i as int);
            }
            return Some(i);
        }
        i = i + 1;
    }
    None
}

/// Statistics across all palavers. Fractions are in thousandths, rounded down.
#[derive(Debug, Clone)]
pub struct PalaverStats {
    pub total: usize,
    pub consensus_reached: usize,
    pub blocked: usize,
    pub active: usize,
    pub avg_turns_to_consensus: u64,
    pub avg_harmony_at_consensus: u32,
    pub consensus_rate: u32,
}

/// The palaver tree: manages multiple palaver sessions.
///
/// Session identifiers are `palaver-<number>`, with the number given when the session is
/// opened; no two sessions of a tree share one.
#[derive(Debug)]
pub struct PalaverTree {
    palavers: Vec<Palaver>,
    global_participants: Vec<String>,
}

impl View for PalaverTree {
    type V = Seq<Palaver>;

    closed spec fn view(&self) -> Seq<Palaver> {
        self.palavers@
    }
}

impl PalaverTree {
    /// The texts of everyone who joined some palaver, in the order they first joined.
    pub closed spec fn names(&self) -> Seq<Seq<char>> {
        texts(self.global_participants@)
    }

    /// Well-formed: palavers are well-formed with distinct identifiers, and the names are
    /// their participants, each once, in the order they first joined. Every tree is.
    #[verifier::type_invariant]
    pub closed spec fn wf(&self) -> bool {
        parts_wf(self.palavers@, texts(self.global_participants@))
    }

    /// The well-formedness of a tree, stated over its view and names.
    pub proof fn lemma_wf(&self)
        requires
            self.wf(),
        ensures
            forall|i: int| 0 <= i < self@.len() ==> (#[trigger] self@[i]).wf(),
            ids_distinct(self@),
            self.names() == participant_names(self@),
            self.names().no_duplicates(),
            self.names().to_set() == all_participants(self@),
    {
        lemma_participant_names(self@);
    }

    /// Moves the palavers and names out, leaving an empty tree behind.
    fn take_parts(&mut self) -> (parts: (Vec<Palaver>, Vec<String>))
        ensures
            parts_wf(old(self)@, old(self).names()),
            parts.0@ == old(self)@,
            texts(parts.1@) == old(self).names(),
    {
        proof {
            use_type_invariant(&*self);
        }
        let mut t = PalaverTree::new();
        std::mem::swap(self, &mut t);
        proof {
            use_type_invariant(&t);
        }
        let PalaverTree { palavers, global_participants } = t;
        (palavers, global_participants)
    }

    /// Opens a new palaver session on `topic`, identified as `palaver-<number>`; every
    /// participant joins the tree's names. `None`, with nothing changed, if a session
    /// of the tree already has that identifier.
    pub fn open_palaver(
        &mut self,
        topic: &str,
        participants: Vec<String>,
        tick: u64,
        number: u64,
    ) -> (r: Option<PalaverId>)
        ensures
            match r {
                None => has_palaver(old(self)@, palaver_id_text(number as nat)) && final(self)@
                    == old(self)@ && final(self).names() == old(self).names(),
                Some(id) => {
                    &&& id.0@ == palaver_id_text(number as nat)
                    &&& !has_palaver(old(self)@, id.0@)
                    &&& final(self)@.len() == old(self)@.len() + 1
                    &&& final(self)@.take(old(self)@.len() as int) == old(self)@
                    &&& Palaver::opened(
                        final(self)@[old(self)@.len() as int],
                        number as nat,
                        topic@,
                        participants,
                        tick,
                    )
                    &&& final(self)@[old(self)@.len() as int].id == id
                    &&& final(self).names() == merge_names(old(self).names(), texts(participants@))
                },
            },
    {
        let (mut palavers, mut names) = self.take_parts();
        let ghost pre = palavers@;
        let palaver = Palaver::new(topic, participants, tick, number);
        if find_palaver(&palavers, &palaver.id).is_some() {
            *self = PalaverTree { palavers, global_participants: names };
            return None;
        }
        let ghost old_names = texts(names@);
        let ghost added = texts(palaver.participants@);
        let n = palaver.participants.len();
        let mut i: usize = 0;
        while i < n
            invariant
                n == palaver.participants@.len(),
                i <= n,
                added == texts(palaver.participants@),
                texts(names@) == merge_names(old_names, added.take(i as int)),
            decreases n - i,
        {
            let name = &palaver.participants[i];
            proof {
                assert(added.take(i + 1).drop_last() == added.take(i as int));
                assert(added.take(i + 1).last() == name@);
            }
            if !contains_name(&names, name) {
                names.push(name.clone());
                assert(texts(names@) == merge_names(old_names, added.take(i as int)).push(name@));
            }
            i = i + 1;
        }
        assert(added.take(n as int) == added);
        let id = PalaverId(palaver.id.0.clone());
        palavers.push(palaver);
        proof {
            assert(palavers@.take(pre.len() as int) == pre);
            let post = palavers@;
            assert forall|j: int| 0 <= j < post.len() implies (#[trigger] post[j]).wf() by {
                if j < pre.len() {
                    assert(post[j] == pre[j]);
                }
            }
            assert forall|j: int, k: int|
                0 <= j < post.len() && 0 <= k < post.len() && j != k implies (#[trigger] post[j]).id.0@
                != (#[trigger] post[k]).id.0@ by {
                if j < pre.len() && k < pre.len() {
                    assert(post[j] == pre[j]);
                    assert(post[k] == pre[k]);
                } else if j < pre.len() {
                    assert(post[j] == pre[j]);
                } else {
                    assert(post[k] == pre[k]);
                }
            }
            assert(post.drop_last() == pre);
        }
        *self = PalaverTree { palavers, global_participants: names };
        Some(id)
    }

    /// Makes a proposal in the palaver identified by `palaver_id`; `None` if there is none.
    pub fn propose(&mut self, palaver_id: &PalaverId, description: &str, proposer: &str) -> (r: Option<usize>)
        requires
            forall|i: int|
                0 <= i < old(self)@.len() && (#[trigger] old(self)@[i]).id.0@ == palaver_id.0@
                    ==> old(self)@[i].tick_started + old(self)@[i].turn_count <= u64::MAX
                    && old(self)@[i].turn_count < u32::MAX,
        ensures
            final(self).names() == old(self).names(),
            match r {
                None => !has_palaver(old(self)@, palaver_id.0@) && final(self)@ == old(self)@,
                Some(idx) => has_palaver(old(self)@, palaver_id.0@) && ({
                    let i = palaver_index(old(self)@, palaver_id.0@);
                    &&& replaced_at(old(self)@, final(self)@, i)
                    &&& idx == old(self)@[i].proposals@.len()
                    &&& Palaver::proposed(old(self)@[i], final(self)@[i], description@, proposer@)
                }),
            },
    {
        let (mut palavers, names) = self.take_parts();
        let r = match find_palaver(&palavers, palaver_id) {
            None => None,
            Some(i) => {
                let ghost pre = palavers@;
                let idx = palavers[i].propose(description, proposer);
                proof {
                    lemma_replaced_parts_wf(pre, palavers@, texts(names@), i as int);
                }
                Some(idx)
            },
        };
        *self = PalaverTree { palavers, global_participants: names };
        r
    }

    /// States `position` on proposal `proposal_idx` of the palaver identified by
    /// `palaver_id`; false if there is no such palaver or proposal.
    pub fn respond(&mut self, palaver_id: &PalaverId, proposal_idx: usize, position: Position) -> (r: bool)
        requires
            forall|i: int|
                0 <= i < old(self)@.len() && (#[trigger] old(self)@[i]).id.0@ == palaver_id.0@
                    && proposal_idx < old(self)@[i].proposals@.len() ==> old(self)@[i].turn_count
                    < u32::MAX,
        ensures
            final(self).names() == old(self).names(),
            r == (has_palaver(old(self)@, palaver_id.0@) && proposal_idx < old(self)@[palaver_index(
                old(self)@,
                palaver_id.0@,
            )].proposals@.len()),
            r ==> ({
                let i = palaver_index(old(self)@, palaver_id.0@);
                &&& replaced_at(old(self)@, final(self)@, i)
                &&& Palaver::responded(old(self)@[i], final(self)@[i], proposal_idx as int, position)
            }),
            !r ==> final(self)@ == old(self)@,
    {
        let (mut palavers, names) = self.take_parts();
        let r = match find_palaver(&palavers, palaver_id) {
            None => false,
            Some(i) => {
                let ghost pre = palavers@;
                let result = palavers[i].respond(proposal_idx, position);
                proof {
                    lemma_replaced_parts_wf(pre, palavers@, texts(names@), i as int);
                }
                match result {
                    Ok(()) => true,
                    Err(_) => {
                        assert(palavers@ == pre);
                        false
                    },
                }
            },
        };
        *self = PalaverTree { palavers, global_participants: names };
        r
    }

    /// True if the active proposal of the palaver identified by `palaver_id` has
    /// consensus and is not blocked; false if there is no such palaver.
    pub fn check_consensus(&mut self, palaver_id: &PalaverId) -> (r: bool)
        ensures
            final(self)@ == old(self)@,
            final(self).names() == old(self).names(),
            r == (has_palaver(old(self)@, palaver_id.0@) && old(self)@[palaver_index(
                old(self)@,
                palaver_id.0@,
            )].active_settled()),
    {
        proof {
            use_type_invariant(&*self);
        }
        match find_palaver(&self.palavers, palaver_id) {
            None => false,
            Some(i) => self.palavers[i].active_is_settled(),
        }
    }

    /// Closes the palaver identified by `palaver_id` at `tick` if it reached consensus;
    /// returns whether it did.
    pub fn close_palaver(&mut self, palaver_id: &PalaverId, tick: u64) -> (r: bool)
        ensures
            final(self).names() == old(self).names(),
            r == (has_palaver(old(self)@, palaver_id.0@) && old(self)@[palaver_index(
                old(self)@,
                palaver_id.0@,
            )].consensus_reached),
            has_palaver(old(self)@, palaver_id.0@) ==> ({
                let i = palaver_index(old(self)@, palaver_id.0@);
                &&& replaced_at(old(self)@, final(self)@, i)
                &&& Palaver::closed_at(old(self)@[i], final(self)@[i], tick)
            }),
            !has_palaver(old(self)@, palaver_id.0@) ==> final(self)@ == old(self)@,
    {
        let (mut palavers, names) = self.take_parts();
        let r = match find_palaver(&palavers, palaver_id) {
            None => false,
            Some(i) => {
                let ghost pre = palavers@;
                let closed = palavers[i].close(tick);
                proof {
                    lemma_replaced_parts_wf(pre, palavers@, texts(names@), i as int);
                }
                closed
            },
        };
        *self = PalaverTree { palavers, global_participants: names };
        r
    }

    /// All palavers that have not ended, in the order they were opened.
    pub fn active_palavers(&self) -> (r: Vec<&Palaver>)
        ensures
            r@.map_values(|p: &Palaver| *p) == self@.filter(active_pred()),
    {
        let len = self.palavers.len();
        let mut out: Vec<&Palaver> = Vec::new();
        let mut i: usize = 0;
        while i < len
            invariant
                len == self.palavers@.len(),
                i <= len,
                out@.map_values(|p: &Palaver| *p) == self.palavers@.take(i as int).filter(active_pred()),
            decreases len - i,
        {
            proof {
                let ps = self.palavers@;
                assert(ps.take(i + 1) == ps.take(i as int).push(ps[i as int]));
                ps.take(i as int).lemma_filter_push(ps[i as int], active_pred());
            }
            if self.palavers[i].tick_ended.is_none() {
                out.push(&self.palavers[i]);
            }
            i = i + 1;
        }
        assert(self.palavers@.take(len as int) == self.palavers@);
        out
    }

    /// All palavers that have ended, in the order they were opened.
    pub fn resolved_palavers(&self) -> (r: Vec<&Palaver>)
        ensures
            r@.map_values(|p: &Palaver| *p) == self@.filter(resolved_pred()),
    {
        let len = self.palavers.len();
        let mut out: Vec<&Palaver> = Vec::new();
        let mut i: usize = 0;
        while i < len
            invariant
                len == self.palavers@.len(),
                i <= len,
                out@.map_values(|p: &Palaver| *p) == self.palavers@.take(i as int).filter(resolved_pred()),
            decreases len - i,
        {
            proof {
                let ps = self.palavers@;
                assert(ps.take(i + 1) == ps.take(i as int).push(ps[i as int]));
                ps.take(i as int).lemma_filter_push(ps[i as int], resolved_pred());
            }
            if self.palavers[i].tick_ended.is_some() {
                out.push(&self.palavers[i]);
            }
            i = i + 1;
        }
        assert(self.palavers@.take(len as int) == self.palavers@);
        out
    }

    /// All palavers in which `agent_id` participates, in the order they were opened.
    pub fn agent_palavers(&self, agent_id: &str) -> (r: Vec<&Palaver>)
        ensures
            r@.map_values(|p: &Palaver| *p) == self@.filter(agent_pred(agent_id@)),
    {
        let agent = agent_id.to_owned();
        let len = self.palavers.len();
        let mut out: Vec<&Palaver> = Vec::new();
        let mut i: usize = 0;
        while i < len
            invariant
                len == self.palavers@.len(),
                i <= len,
                agent@ == agent_id@,
                out@.map_values(|p: &Palaver| *p) == self.palavers@.take(i as int).filter(
                    agent_pred(agent_id@),
                ),
            decreases len - i,
        {
            proof {
                let ps = self.palavers@;
                assert(ps.take(i + 1) == ps.take(i as int).push(ps[i as int]));
                ps.take(i as int).lemma_filter_push(ps[i as int], agent_pred(agent_id@));
            }
            if contains_name(&self.palavers[i].participants, &agent) {
                out.push(&self.palavers[i]);
            }
            i = i + 1;
        }
        assert(self.palavers@.take(len as int) == self.palavers@);
        out
    }

    /// All palavers, in the order they were opened.
    pub fn palavers(&self) -> (r: &[Palaver])
        ensures
            r@ == self@,
    {
        self.palavers.as_slice()
    }

    /// Rebuilds a tree from its palavers, in the order they were opened; `None` unless
    /// every palaver is well-formed and no two share an identifier.
    pub fn from_palavers(palavers: Vec<Palaver>) -> (r: Option<PalaverTree>)
        ensures
            match r {
                Some(t) => t.wf() && t@ == palavers@,
                None => !((forall|i: int| 0 <= i < palavers@.len() ==> (#[trigger] palavers@[i]).wf())
                    && ids_distinct(palavers@)),
            },
    {
        let n = palavers.len();
        let mut names: Vec<String> = Vec::new();
        let mut i: usize = 0;
        while i < n
            invariant
                n == palavers@.len(),
                i <= n,
                forall|j: int| 0 <= j < i ==> (#[trigger] palavers@[j]).wf(),
                ids_distinct(palavers@.take(i as int)),
                texts(names@) == participant_names(palavers@.take(i as int)),
            decreases n - i,
        {
            let p = &palavers[i];
            if !p.is_wf() {
                return None;
            }
            let mut k: usize = 0;
            while k < i
                invariant
                    n == palavers@.len(),
                    i < n,
                    k <= i,
                    forall|j: int| 0 <= j < k ==> (#[trigger] palavers@[j]).id.0@ != palavers@[i as int].id.0@,
                decreases i - k,
            {
                if palavers[k].id.0 == palavers[i].id.0 {
                    assert(palavers@[k as int].id.0@ == palavers@[i as int].id.0@);
                    return None;
                }
                k = k + 1;
            }
            let ghost before = texts(names@);
            let ghost added = texts(p.participants@);
            let m = p.participants.len();
            let mut k: usize = 0;
            while k < m
                invariant
                    m == p.participants@.len(),
                    k <= m,
                    added == texts(p.participants@),
                    texts(names@) == merge_names(before, added.take(k as int)),
                decreases m - k,
            {
                let name = &p.participants[k];
                proof {
                    assert(added.take(k + 1).drop_last() == added.take(k as int));
                    assert(added.take(k + 1).last() == name@);
                }
                if !contains_name(&names, name) {
                    names.push(name.clone());
                    assert(texts(names@) == merge_names(before, added.take(k as int)).push(name@));
                }
                k = k + 1;
            }
            proof {
                assert(added.take(m as int) == added);
                let prev = palavers@.take(i as int);
                let next = palavers@.take(i + 1);
                assert(next.drop_last() == prev);
                assert(next.last() == palavers@[i as int]);
                assert forall|a: int, b: int|
                    0 <= a < next.len() && 0 <= b < next.len() && a != b implies (#[trigger] next[a]).id.0@
                    != (#[trigger] next[b]).id.0@ by {
                    if a < i && b < i {
                        assert(next[a] == prev[a]);
                        assert(next[b] == prev[b]);
                    } else if a < i {
                        assert(next[a] == palavers@[a]);
                    } else {
                        assert(next[b] == palavers@[b]);
                    }
                }
            }
            i = i + 1;
        }
        assert(palavers@.take(n as int) == palavers@);
        Some(PalaverTree { palavers, global_participants: names })
    }

    /// Everyone who joined some palaver, each once, in the order they first joined.
    pub fn global_participants(&self) -> (r: &[String])
        ensures
            texts(r@) == self.names(),
    {
        self.global_participants.as_slice()
    }

    /// The number of palavers that reached consensus.
    fn reached_count(&self) -> (n: usize)
        ensures
            n == self@.filter(reached_pred()).len(),
    {
        let len = self.palavers.len();
        let mut count: usize = 0;
        let mut i: usize = 0;
        while i < len
            invariant
                len == self.palavers@.len(),
                i <= len,
                count == self.palavers@.take(i as int).filter(reached_pred()).len(),
            decreases len - i,
        {
            proof {
                let ps = self.palavers@;
                assert(ps.take(i + 1) == ps.take(i as int).push(ps[i as int]));
                ps.take(i as int).lemma_filter_push(ps[i as int], reached_pred());
                ps.take(i as int).push(ps[i as int]).lemma_filter_len(reached_pred());
            }
            if self.palavers[i].consensus_reached {
                count = count + 1;
            }
            i = i + 1;
        }
        assert(self.palavers@.take(len as int) == self.palavers@);
        count
    }

    /// Share of palavers that reached consensus, in thousandths rounded down; 0 when
    /// there is none.
    pub fn consensus_rate(&self) -> (r: u32)
        ensures
            r == thousandths(self@.filter(reached_pred()).len(), self@.len()),
            r <= UNIT,
    {
        let total = self.palavers.len();
        if total == 0 {
            return 0;
        }
        let reached = self.reached_count();
        proof {
            self.palavers@.lemma_filter_len(reached_pred());
        }
        let scaled: u128 = reached as u128 * (UNIT as u128);
        let r: u128 = scaled / (total as u128);
        proof {
            assert(r <= UNIT) by (nonlinear_arith)
                requires
                    reached <= total,
                    scaled == reached as u128 * (UNIT as u128),
                    r == scaled / (total as u128),
                    total > 0,
            ;
        }
        r as u32
    }

    /// Aggregate statistics over all palavers.
    pub fn tree_stats(&self) -> (s: PalaverStats)
        ensures
            s.total == self@.len(),
            s.consensus_reached == self@.filter(reached_pred()).len(),
            s.blocked == self@.filter(blocked_pred()).len(),
            s.active == self@.filter(active_pred()).len(),
            s.avg_turns_to_consensus == thousandths(
                consensus_turns(self@),
                self@.filter(reached_pred()).len(),
            ),
            s.avg_harmony_at_consensus == ratio_floor(
                consensus_harmony(self@),
                self@.filter(reached_pred()).len(),
            ),
            s.consensus_rate == thousandths(self@.filter(reached_pred()).len(), self@.len()),
    {
        let len = self.palavers.len();
        let mut reached: usize = 0;
        let mut blocked: usize = 0;
        let mut active: usize = 0;
        let mut turns: u128 = 0;
        let mut harmony: u128 = 0;
        let mut i: usize = 0;
        while i < len
            invariant
                len == self.palavers@.len(),
                i <= len,
                reached == self.palavers@.take(i as int).filter(reached_pred()).len(),
                blocked == self.palavers@.take(i as int).filter(blocked_pred()).len(),
                active == self.palavers@.take(i as int).filter(active_pred()).len(),
                turns == consensus_turns(self.palavers@.take(i as int)),
                harmony == consensus_harmony(self.palavers@.take(i as int)),
                turns <= reached * (u32::MAX as int),
                harmony <= reached * (u32::MAX as int),
                reached <= i,
            decreases len - i,
        {
            let ghost ps = self.palavers@;
            proof {
                let pre = ps.take(i as int);
                let next = ps.take(i + 1);
                assert(next == pre.push(ps[i as int]));
                assert(next.drop_last() == pre);
                pre.lemma_filter_push(ps[i as int], reached_pred());
                pre.lemma_filter_push(ps[i as int], blocked_pred());
                pre.lemma_filter_push(ps[i as int], active_pred());
                pre.push(ps[i as int]).lemma_filter_len(blocked_pred());
                pre.push(ps[i as int]).lemma_filter_len(active_pred());
            }
            let p = &self.palavers[i];
            if p.consensus_reached {
                turns = turns + p.turn_count as u128;
                harmony = harmony + p.harmony_score as u128;
                reached = reached + 1;
            }
            if p.has_blocked_proposal() {
                blocked = blocked + 1;
            }
            if p.tick_ended.is_none() {
                active = active + 1;
            }
            i = i + 1;
        }
        assert(self.palavers@.take(len as int) == self.palavers@);
        let (avg_turns, avg_harmony) = if reached == 0 {
            (0u64, 0u32)
        } else {
            let t: u128 = turns * (UNIT as u128) / (reached as u128);
            let h: u128 = harmony / (reached as u128);
            proof {
                assert(t <= (u32::MAX as int) * (UNIT as int)) by (nonlinear_arith)
                    requires
                        turns <= reached * (u32::MAX as int),
                        t as int == (turns * (UNIT as int)) / (reached as int),
                        reached > 0,
                ;
                assert(h <= u32::MAX) by (nonlinear_arith)
                    requires
                        harmony <= reached * (u32::MAX as int),
                        h as int == harmony as int / (reached as int),
                        reached > 0,
                ;
            }
            (t as u64, h as u32)
        };
        PalaverStats {
            total: len,
            consensus_reached: reached,
            blocked,
            active,
            avg_turns_to_consensus: avg_turns,
            avg_harmony_at_consensus: avg_harmony,
            consensus_rate: self.consensus_rate(),
        }
    }

    /// An empty tree.
    pub fn new() -> (t: PalaverTree)
        ensures
            t.wf(),
            t@.len() == 0,
            t.names().len() == 0,
    {
        let palavers: Vec<Palaver> = Vec::new();
        let names: Vec<String> = Vec::new();
        assert(texts(names@) == Seq::<Seq<char>>::empty());
        assert(participant_names(palavers@) == Seq::<Seq<char>>::empty());
        PalaverTree { palavers, global_participants: names }
    }
}


impl Clone for PalaverTree {
    /// A copy of the tree.
    fn clone(&self) -> (t: PalaverTree)
        ensures
            t@.len() == self@.len(),
            forall|i: int| 0 <= i < self@.len() ==> Palaver::copied(self@[i], #[trigger] t@[i]),
            t.names() == self.names(),
    {
        proof {
            use_type_invariant(self);
        }
        let palavers = self.palavers.clone();
        let names = self.global_participants.clone();
        assert(names@ == self.global_participants@);
        proof {
            let pre = self.palavers@;
            let post = palavers@;
            assert forall|i: int| 0 <= i < pre.len() implies Palaver::copied(pre[i], #[trigger] post[i]) by {
                assert(cloned::<Palaver>(self.palavers[i], palavers[i]));
            }
            assert forall|i: int| 0 <= i < post.len() implies (#[trigger] post[i]).wf() by {
                assert(Palaver::copied(pre[i], post[i]));
                assert(pre[i].wf());
                assert forall|j: int| 0 <= j < post[i].proposals@.len() implies (#[trigger] post[i].proposals@[j]).wf() by {
                    assert(Proposal::copied(pre[i].proposals@[j], post[i].proposals@[j]));
                    assert(pre[i].proposals@[j].wf());
                }
            }
            assert forall|i: int, j: int|
                0 <= i < post.len() && 0 <= j < post.len() && i != j implies (#[trigger] post[i]).id.0@
                != (#[trigger] post[j]).id.0@ by {
                assert(Palaver::copied(pre[i], post[i]));
                assert(Palaver::copied(pre[j], post[j]));
            }
            assert forall|i: int| 0 <= i < pre.len() implies (#[trigger] post[i]).participants@ == pre[i].participants@ by {
                assert(Palaver::copied(pre[i], post[i]));
            }
            lemma_participant_names_same(pre, post);
        }
        PalaverTree { palavers, global_participants: names }
    }
}

impl Default for PalaverTree {
    /// An empty tree.
    fn default() -> (t: PalaverTree)
        ensures
            t.wf(),
            t@.len() == 0,
            t.names().len() == 0,
    {
        PalaverTree::new()
    }
}

} // verus!
