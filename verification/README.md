# lau_palaver

Consensus bookkeeping modelled on the West African palaver tree: a proposal is settled
only when every stated position agrees and nobody disagrees. Any single disagreement
blocks it.

The library is written in Verus; every function in `src/` carries a contract that Verus
proves.

- `src/position.rs`: identifiers, stances, positions, proposal statuses, clamping.
- `src/proposal.rs`: proposals, stating and withdrawing positions, scores, blockers.
- `src/palaver.rs`: sessions, proposing, responding, advancing, closing.
- `src/summary.rs`: the human-readable summary of a session.
- `src/tree.rs`: the collection of sessions, lookups by identifier, statistics.
- `src/laws.rs`: properties proved across operations (unanimity, blocking,
  reading back a stated position, identifier uniqueness, ...).
- `src/text.rs`: decimal rendering and name lists.
- `app/lib.rs`: serde forms of the types, with conversions, and the process-wide
  counter that numbers new sessions.

Fractions (confidence, thresholds, scores, harmony, rates) are fixed-point values in
thousandths: `UNIT` (1000) stands for one.
