//! Identifiers, stances, positions and proposal statuses.

use vstd::prelude::*;

verus! {

/// Identifier of a palaver session.
#[derive(Debug, Hash, PartialEq, Eq)]
pub struct PalaverId(pub String);

impl Clone for PalaverId {
    /// A copy of the identifier.
    fn clone(&self) -> (r: PalaverId)
        ensures
            r == *self,
    {
        PalaverId(self.0.clone())
    }
}

impl PalaverId {
    /// The identifier's text.
    pub fn as_str(&self) -> (s: &str)
        ensures
            s@ == self.0@,
    {
        self.0.as_str()
    }
}

/// An agent's stance on a proposal.
#[derive(Debug, PartialEq, Eq)]
pub enum Stance {
    Agree,
    Disagree(String),
    Abstain,
    Propose(String),
}

impl Clone for Stance {
    /// A copy of the stance.
    fn clone(&self) -> (r: Stance)
        ensures
            r == *self,
    {
        match self {
            Stance::Agree => Stance::Agree,
            Stance::Disagree(reason) => Stance::Disagree(reason.clone()),
            Stance::Abstain => Stance::Abstain,
            Stance::Propose(alternative) => Stance::Propose(alternative.clone()),
        }
    }
}

/// The scale of the fixed-point fractions of this crate: a value `v` stands for `v / 1000`.
pub const UNIT: u32 = 1000;

/// `v` held within `0..=UNIT`.
pub open spec fn clamp_unit(v: int) -> int {
    if v < 0 {
        0
    } else if v > UNIT as int {
        UNIT as int
    } else {
        v
    }
}

/// Clamps a fraction given in thousandths to the unit interval `0..=UNIT`.
pub(crate) fn clamp_to_unit(v: i64) -> (r: u32)
    ensures
        r as int == clamp_unit(v as int),
{
    if v < 0 {
        0
    } else if v > UNIT as i64 {
        UNIT
    } else {
        v as u32
    }
}

/// A single agent's position on a proposal.
///
/// `confidence` is a fraction in thousandths, within `0..=UNIT` when built by `new`.
#[derive(Debug)]
pub struct Position {
    pub agent_id: String,
    pub stance: Stance,
    pub confidence: u32,
    pub rationale: String,
    pub tick_stated: u64,
}

impl Clone for Position {
    /// A copy of the position.
    fn clone(&self) -> (r: Position)
        ensures
            r == *self,
    {
        Position {
            agent_id: self.agent_id.clone(),
            stance: self.stance.clone(),
            confidence: self.confidence,
            rationale: self.rationale.clone(),
            tick_stated: self.tick_stated,
        }
    }
}

impl Position {
    /// Builds a position; `confidence` (in thousandths) is clamped to `0..=UNIT`.
    pub fn new(agent_id: &str, stance: Stance, confidence: i64, rationale: &str, tick: u64) -> (p: Position)
        ensures
            p.agent_id@ == agent_id@,
            p.stance == stance,
            p.confidence as int == clamp_unit(confidence as int),
            p.rationale@ == rationale@,
            p.tick_stated == tick,
    {
        Position {
            agent_id: agent_id.to_owned(),
            stance,
            confidence: clamp_to_unit(confidence),
            rationale: rationale.to_owned(),
            tick_stated: tick,
        }
    }

    /// True if this position agrees.
    pub fn is_agreement(&self) -> (r: bool)
        ensures
            r == (self.stance is Agree),
    {
        matches!(self.stance, Stance::Agree)
    }

    /// True if this position disagrees.
    pub(crate) fn is_disagreement(&self) -> (r: bool)
        ensures
            r == (self.stance is Disagree),
    {
        matches!(self.stance, Stance::Disagree(_))
    }
}

/// Status of a proposal.
#[derive(Debug, Clone, Copy, PartialEq, Eq, Structural)]
pub enum ProposalStatus {
    Open,
    Consensus,
    Blocked,
    Withdrawn,
    Expired,
}

} // verus!
