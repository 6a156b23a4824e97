//! The human-readable summary of a palaver session.

use vstd::prelude::*;
use vstd::string::StringExecFns;

use crate::palaver::Palaver;
use crate::position::ProposalStatus;
use crate::proposal::{agreeing, Proposal};
use crate::text::{decimal, push_decimal, texts};

verus! {

/// The elements of `list` separated by `sep`.
pub open spec fn join(list: Seq<Seq<char>>, sep: Seq<char>) -> Seq<char>
    decreases list.len(),
{
    if list.len() == 0 {
        Seq::empty()
    } else if list.len() == 1 {
        list[0]
    } else {
        join(list.drop_last(), sep) + sep + list.last()
    }
}

/// `n / d` rounded to the nearest integer, ties to the even one; 0 when `d` is 0.
pub open spec fn round_half_even(n: nat, d: nat) -> nat {
    if d == 0 {
        0
    } else {
        let q = n / d;
        let r = n % d;
        if 2 * r > d || (2 * r == d && q % 2 == 1) {
            q + 1
        } else {
            q
        }
    }
}

/// The name of a status, as it is printed.
pub open spec fn status_name(s: ProposalStatus) -> Seq<char> {
    match s {
        ProposalStatus::Open => "Open"@,
        ProposalStatus::Consensus => "Consensus"@,
        ProposalStatus::Blocked => "Blocked"@,
        ProposalStatus::Withdrawn => "Withdrawn"@,
        ProposalStatus::Expired => "Expired"@,
    }
}

/// The state of a session, as its summary names it.
pub open spec fn session_state(p: Palaver) -> Seq<char> {
    if p.consensus_reached {
        "CONSENSUS REACHED"@
    } else if p.tick_ended is Some {
        "CLOSED"@
    } else {
        "IN DISCUSSION"@
    }
}

/// The summary line of proposal `p` at index `i`: description, proposer, status,
/// score in whole percent, and how many of the stated positions agree.
pub open spec fn proposal_line(i: nat, p: Proposal) -> Seq<char> {
    let agree = agreeing(p.positions@).len();
    let total = p.positions@.len();
    "  ["@ + decimal(i) + "] \""@ + p.description@ + "\" by "@ + p.proposer@ + " — "@
        + status_name(p.status) + " (score: "@ + decimal(round_half_even(100 * agree, total))
        + "%, "@ + decimal(agree) + "/"@ + decimal(total) + " agree)"@
}

/// The summary lines of the proposals of `ps`, in order.
pub open spec fn proposal_lines(ps: Seq<Proposal>) -> Seq<Seq<char>> {
    Seq::new(ps.len(), |k: int| proposal_line(k as nat, ps[k]))
}

/// The header of the summary of `p`: topic, state, participants, turns and harmony.
pub open spec fn summary_head(p: Palaver) -> Seq<char> {
    "Palaver \""@ + p.topic@ + "\" ["@ + session_state(p) + "]\n  Participants: "@ + join(
        texts(p.participants@),
        ", "@,
    ) + "\n  Turns: "@ + decimal(p.turn_count as nat) + "\n  Harmony: "@ + decimal(
        round_half_even(p.harmony_score as nat, 10),
    ) + "%\n"@
}

/// The full summary of `p`.
pub open spec fn summary_text(p: Palaver) -> Seq<char> {
    summary_head(p) + join(proposal_lines(p.proposals@), "\n"@)
}

/// `n / d` rounded to the nearest integer, ties to the even one; 0 when `d` is 0.
pub(crate) fn round_half_even_exec(n: u128, d: u128) -> (r: u128)
    requires
        n <= u128::MAX / 2,
        d <= u128::MAX / 2,
    ensures
        r == round_half_even(n as nat, d as nat),
{
    if d == 0 {
        return 0;
    }
    let q = n / d;
    let r = n % d;
    proof {
        assert(q <= n) by (nonlinear_arith)
            requires
                d > 0,
                q == n / d,
        ;
    }
    if 2 * r > d || (2 * r == d && q % 2 == 1) {
        q + 1
    } else {
        q
    }
}

/// Appends the elements of `list` to `out`, separated by `sep`.
fn push_joined(out: &mut String, list: &Vec<String>, sep: &str)
    ensures
        final(out)@ == old(out)@ + join(texts(list@), sep@),
{
    let ghost start = out@;
    let ghost all = texts(list@);
    let n = list.len();
    let mut i: usize = 0;
    while i < n
        invariant
            n == list@.len(),
            i <= n,
            all == texts(list@),
            out@ == start + join(all.take(i as int), sep@),
        decreases n - i,
    {
        proof {
            assert(all.take(i + 1).drop_last() == all.take(i as int));
            assert(all.take(i + 1).last() == list@[i as int]@);
        }
        if i != 0 {
            out.append(sep);
            out.append(list[i].as_str());
        } else {
            out.append(list[i].as_str());
            assert(all.take(1) == seq![list@[0]@]);
        }
        i = i + 1;
    }
    assert(all.take(n as int) == all);
}

/// Appends the name of `s` to `out`.
fn push_status(out: &mut String, s: ProposalStatus)
    ensures
        final(out)@ == old(out)@ + status_name(s),
{
    match s {
        ProposalStatus::Open => out.append("Open"),
        ProposalStatus::Consensus => out.append("Consensus"),
        ProposalStatus::Blocked => out.append("Blocked"),
        ProposalStatus::Withdrawn => out.append("Withdrawn"),
        ProposalStatus::Expired => out.append("Expired"),
    }
}

/// Appends the summary line of proposal `p` at index `i` to `out`.
fn push_proposal_line(out: &mut String, i: usize, p: &Proposal)
    ensures
        final(out)@ == old(out)@ + proposal_line(i as nat, *p),
{
    let agree = p.agree_count();
    let total = p.positions.len();
    proof {
        p.positions@.lemma_filter_len(crate::proposal::agree_pred());
    }
    let percent = round_half_even_exec(100 * (agree as u128), total as u128);
    proof {
        assert(percent <= 100) by (nonlinear_arith)
            requires
                agree <= total,
                percent == round_half_even((100 * agree) as nat, total as nat),
        {
            if total > 0 {
                let n = (100 * agree) as nat;
                let d = total as nat;
                assert(n / d <= 100);
                assert(n / d == 100 ==> n % d == 0);
            }
        }
    }
    let ghost start = out@;
    out.append("  [");
    push_decimal(out, i as u64);
    out.append("] \"");
    out.append(p.description.as_str());
    out.append("\" by ");
    out.append(p.proposer.as_str());
    out.append(" — ");
    push_status(out, p.status);
    out.append(" (score: ");
    push_decimal(out, percent as u64);
    out.append("%, ");
    push_decimal(out, agree as u64);
    out.append("/");
    push_decimal(out, total as u64);
    out.append(" agree)");
    assert(out@ == start + proposal_line(i as nat, *p));
}

impl Palaver {
    /// Human-readable summary: topic, state, participants, turns, harmony, and a line
    /// per proposal.
    pub fn summary(&self) -> (s: String)
        ensures
            s@ == summary_text(*self),
    {
        let mut out = "Palaver \"".to_owned();
        out.append(self.topic.as_str());
        out.append("\" [");
        if self.consensus_reached {
            out.append("CONSENSUS REACHED");
        } else if self.tick_ended.is_some() {
            out.append("CLOSED");
        } else {
            out.append("IN DISCUSSION");
        }
        out.append("]\n  Participants: ");
        push_joined(&mut out, &self.participants, ", ");
        out.append("\n  Turns: ");
        push_decimal(&mut out, self.turn_count as u64);
        out.append("\n  Harmony: ");
        let harmony = round_half_even_exec(self.harmony_score as u128, 10);
        proof {
            assert(harmony <= u32::MAX) by (nonlinear_arith)
                requires
                    harmony == round_half_even(self.harmony_score as nat, 10),
            ;
        }
        push_decimal(&mut out, harmony as u64);
        out.append("%\n");
        assert(out@ == summary_head(*self));
        let ghost head = out@;
        let ghost lines = proposal_lines(self.proposals@);
        let n = self.proposals.len();
        let mut i: usize = 0;
        while i < n
            invariant
                n == self.proposals@.len(),
                i <= n,
                lines == proposal_lines(self.proposals@),
                out@ == head + join(lines.take(i as int), "\n"@),
            decreases n - i,
        {
            proof {
                assert(lines.take(i + 1).drop_last() == lines.take(i as int));
                assert(lines.take(i + 1).last() == proposal_line(i as nat, self.proposals@[i as int]));
            }
            if i != 0 {
                out.append("\n");
            } else {
                assert(lines.take(1) == seq![lines[0]]);
            }
            push_proposal_line(&mut out, i, &self.proposals[i]);
            i = i + 1;
        }
        assert(lines.take(n as int) == lines);
        out
    }
}

} // verus!
