//! Consensus bookkeeping modelled on the palaver tree: a proposal is settled only
//! when every stated position agrees and nobody disagrees.
//!
//! Fractions (confidence, thresholds, scores, harmony, rates) are fixed-point values in
//! thousandths: `UNIT` stands for one.

mod laws;
mod palaver;
mod position;
mod proposal;
mod summary;
mod text;
mod tree;

pub use laws::{
    law_active_and_resolved_partition, law_full_threshold_is_unanimity,
    law_one_disagreement_blocks, law_palaver_ids_unique, law_state_then_read,
    law_status_update, law_unanimous_consensus_is_unblocked, law_check_ignores_other_proposals,
    law_check_looks_at_active_proposal, law_consensus_turns_count_consensus_only,
    law_consensus_harmony_count_consensus_only,
    law_only_disagreement_blocks, law_response_with_dissent_is_not_consensus,
    law_single_consensus_average, law_status_names,
    law_withdraw_then_read, law_withdraw_undoes_new_statement,
};
pub use palaver::{out_of_bounds_text, palaver_id_text, proposal_id_text, settled, Palaver};
pub use position::{clamp_unit, PalaverId, Position, ProposalStatus, Stance, UNIT};
pub use proposal::{
    agent_index, agree_pred, agreeing, any_disagrees, disagree_pred, disagreeing,
    distinct_agents, has_agent, lemma_agent_index_unique, lemma_upsert_distinct,
    lemma_without_distinct, next_status, score_of, upsert, without, Proposal,
};
pub use summary::{
    join, proposal_line, proposal_lines, round_half_even, session_state, status_name,
    summary_head, summary_text,
};
pub use text::{
    decimal, digit_char, lemma_decimal_injective, lemma_decimal_nonempty, lemma_prefix_cancel,
    merge_names, texts,
};
pub use tree::{
    active_pred, agent_pred, all_participants, blocked_pred, consensus_harmony, consensus_turns,
    has_palaver, ids_distinct, lemma_merge_names, lemma_palaver_index_unique,
    lemma_participant_names, palaver_index, participant_names, ratio_floor, reached_pred,
    replaced_at, resolved_pred, thousandths, PalaverStats, PalaverTree,
};
