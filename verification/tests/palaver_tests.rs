use std::collections::HashSet;

use lau_palaver::{
    Palaver, PalaverId, PalaverTree, Position, Proposal, ProposalStatus, Stance,
};

/// Opens a session numbered after the sessions the tree already holds.
fn open(tree: &mut PalaverTree, topic: &str, participants: Vec<String>, tick: u64) -> PalaverId {
    let number = tree.palavers().len() as u64;
    tree.open_palaver(topic, participants, tick, number).unwrap()
}


/// A fraction given in thousandths, as a float.
fn frac(v: u32) -> f64 {
    v as f64 / 1000.0
}

/// A fraction given in thousandths, as a float.
fn frac64(v: u64) -> f64 {
    v as f64 / 1000.0
}

/// A float fraction in thousandths.
fn milli(v: f64) -> i64 {
    (v * 1000.0).round() as i64
}

fn make_position(agent: &str, stance: Stance, confidence: f64, tick: u64) -> Position {
    Position::new(agent, stance, milli(confidence), "test rationale", tick)
}

#[test]
fn test_palaver_id_clone_hash_eq() {
    let id1 = PalaverId("p1".to_string());
    let id2 = id1.clone();
    assert_eq!(id1, id2);
    let mut set = HashSet::new();
    set.insert(id1.clone());
    assert!(set.contains(&id1));
}

#[test]
fn test_stance_agreement() {
    assert!(make_position("a", Stance::Agree, 1.0, 0).is_agreement());
    assert!(!make_position("a", Stance::Disagree("no".into()), 0.5, 0).is_agreement());
    assert!(!make_position("a", Stance::Abstain, 0.5, 0).is_agreement());
    assert!(!make_position("a", Stance::Propose("alt".into()), 0.5, 0).is_agreement());
}

#[test]
fn test_position_confidence_clamped() {
    let p = Position::new("a", Stance::Agree, milli(2.0), "r", 0);
    assert!((frac(p.confidence) - 1.0).abs() < f64::EPSILON);
    let p = Position::new("a", Stance::Agree, milli(-1.0), "r", 0);
    assert!((frac(p.confidence)).abs() < f64::EPSILON);
}

#[test]
fn test_proposal_new() {
    let p = Proposal::new("id", "desc", "proposer", 10);
    assert_eq!(p.id, "id");
    assert_eq!(p.description, "desc");
    assert_eq!(p.proposer, "proposer");
    assert_eq!(p.tick_proposed, 10);
    assert_eq!(p.status, ProposalStatus::Open);
    assert!((frac(p.consensus_threshold) - 1.0).abs() < f64::EPSILON);
}

#[test]
fn test_proposal_state_position_agree() {
    let mut p = Proposal::new("id", "desc", "proposer", 0);
    p.state_position(make_position("a", Stance::Agree, 1.0, 1));
    assert_eq!(p.positions.len(), 1);
    assert!((frac(p.consensus_score()) - 1.0).abs() < f64::EPSILON);
    assert!(p.has_consensus());
    assert_eq!(p.status, ProposalStatus::Consensus);
}

#[test]
fn test_proposal_state_position_disagree() {
    let mut p = Proposal::new("id", "desc", "proposer", 0);
    p.state_position(make_position("a", Stance::Disagree("no".into()), 0.9, 1));
    assert!(p.is_blocked());
    assert_eq!(p.status, ProposalStatus::Blocked);
    assert_eq!(p.blockers().len(), 1);
}

#[test]
fn test_proposal_withdraw() {
    let mut p = Proposal::new("id", "desc", "proposer", 0);
    p.state_position(make_position("a", Stance::Disagree("no".into()), 0.9, 1));
    assert_eq!(p.status, ProposalStatus::Blocked);
    p.withdraw_position("a");
    assert!(p.positions.is_empty());
    // Withdrawn disagree reverts to Open (no positions, no blockers)
    assert_eq!(p.status, ProposalStatus::Open);
}

#[test]
fn test_consensus_score_partial() {
    let mut p = Proposal::new("id", "desc", "prop", 0);
    p.state_position(make_position("a", Stance::Agree, 1.0, 1));
    p.state_position(make_position("b", Stance::Disagree("no".into()), 0.8, 1));
    assert!((frac(p.consensus_score()) - 0.5).abs() < f64::EPSILON);
}

#[test]
fn test_blockers_and_proponents() {
    let mut p = Proposal::new("id", "desc", "prop", 0);
    p.state_position(make_position("a", Stance::Agree, 1.0, 1));
    p.state_position(make_position("b", Stance::Disagree("no".into()), 0.8, 2));
    p.state_position(make_position("c", Stance::Abstain, 0.5, 3));
    assert_eq!(p.proponents().len(), 1);
    assert_eq!(p.blockers().len(), 1);
}

#[test]
fn test_tick_age() {
    let p = Proposal::new("id", "desc", "prop", 10);
    assert_eq!(p.tick_age(20), 10);
    assert_eq!(p.tick_age(5), 0); // saturating
}

#[test]
fn test_consensus_threshold_custom() {
    let mut p = Proposal::new("id", "desc", "prop", 0);
    p.consensus_threshold = milli(0.5) as u32;
    p.state_position(make_position("a", Stance::Agree, 1.0, 1));
    p.state_position(make_position("b", Stance::Disagree("no".into()), 0.8, 2));
    // 1 agree out of 2 = 0.5 >= 0.5 threshold but also blocked
    assert!(p.has_consensus());
    assert!(p.is_blocked());
}

#[test]
fn test_palaver_new() {
    let p = Palaver::new("topic", vec!["a".into(), "b".into()], 0, 0);
    assert_eq!(p.topic, "topic");
    assert_eq!(p.participants.len(), 2);
    assert_eq!(p.tick_started, 0);
    assert!(p.active_proposal.is_none());
    assert!(!p.consensus_reached);
}

#[test]
fn test_palaver_propose() {
    let mut p = Palaver::new("topic", vec!["a".into()], 0, 0);
    let idx = p.propose("do the thing", "a");
    assert_eq!(idx, 0);
    assert_eq!(p.active_proposal, Some(0));
    assert_eq!(p.proposals.len(), 1);
    assert_eq!(p.turn_count, 1);
}

#[test]
fn test_palaver_respond() {
    let mut p = Palaver::new("topic", vec!["a".into(), "b".into()], 0, 0);
    let idx = p.propose("do the thing", "a");
    p.respond(idx, make_position("a", Stance::Agree, 1.0, 1)).unwrap();
    p.respond(idx, make_position("b", Stance::Agree, 0.9, 2)).unwrap();
    assert!(p.consensus_reached);
}

#[test]
fn test_palaver_respond_blocked() {
    let mut p = Palaver::new("topic", vec!["a".into(), "b".into()], 0, 0);
    let idx = p.propose("do the thing", "a");
    p.respond(idx, make_position("a", Stance::Agree, 1.0, 1)).unwrap();
    p.respond(idx, make_position("b", Stance::Disagree("nope".into()), 0.9, 2)).unwrap();
    assert!(!p.consensus_reached);
}

#[test]
fn test_palaver_respond_out_of_bounds() {
    let mut p = Palaver::new("topic", vec!["a".into()], 0, 0);
    let result = p.respond(99, make_position("a", Stance::Agree, 1.0, 1));
    assert!(result.is_err());
}

#[test]
fn test_palaver_check_consensus() {
    let mut p = Palaver::new("topic", vec!["a".into()], 0, 0);
    assert!(!p.check_consensus()); // no proposal
    let idx = p.propose("thing", "a");
    p.respond(idx, make_position("a", Stance::Agree, 1.0, 1)).unwrap();
    assert!(p.check_consensus());
}

#[test]
fn test_palaver_advance_proposal() {
    let mut p = Palaver::new("topic", vec!["a".into()], 0, 0);
    let i0 = p.propose("first", "a");
    let _i1 = p.propose("second", "a");
    assert_eq!(p.active_proposal, Some(i0));
    p.advance_proposal();
    assert_eq!(p.active_proposal, Some(1));
}

#[test]
fn test_palaver_current_proposal() {
    let mut p = Palaver::new("topic", vec!["a".into()], 0, 0);
    assert!(p.current_proposal().is_none());
    p.propose("thing", "a");
    assert!(p.current_proposal().is_some());
    assert_eq!(p.current_proposal().unwrap().description, "thing");
}

#[test]
fn test_palaver_all_proposals() {
    let mut p = Palaver::new("topic", vec!["a".into()], 0, 0);
    p.propose("first", "a");
    p.propose("second", "a");
    assert_eq!(p.all_proposals().len(), 2);
}

#[test]
fn test_palaver_update_harmony() {
    let mut p = Palaver::new("topic", vec!["a".into()], 0, 0);
    p.update_harmony(milli(0.75));
    assert!((frac(p.harmony_score) - 0.75).abs() < f64::EPSILON);
    p.update_harmony(milli(2.0));
    assert!((frac(p.harmony_score) - 1.0).abs() < f64::EPSILON);
}

#[test]
fn test_palaver_close() {
    let mut p = Palaver::new("topic", vec!["a".into()], 0, 0);
    assert!(!p.close(10)); // no consensus
    let idx = p.propose("thing", "a");
    p.respond(idx, make_position("a", Stance::Agree, 1.0, 1)).unwrap();
    assert!(p.close(10));
    assert_eq!(p.tick_ended, Some(10));
}

#[test]
fn test_palaver_summary() {
    let mut p = Palaver::new("build the thing", vec!["a".into(), "b".into()], 0, 0);
    p.propose("use rust", "a");
    let summary = p.summary();
    assert!(summary.contains("build the thing"));
    assert!(summary.contains("IN DISCUSSION"));
}

#[test]
fn test_palaver_tree_open() {
    let mut tree = PalaverTree::new();
    let id = open(&mut tree, "topic", vec!["a".into(), "b".into()], 0);
    assert!(!id.as_str().is_empty());
    assert_eq!(tree.active_palavers().len(), 1);
}

#[test]
fn test_palaver_tree_propose_and_respond() {
    let mut tree = PalaverTree::new();
    let id = open(&mut tree, "topic", vec!["a".into()], 0);
    let idx = tree.propose(&id, "do it", "a").unwrap();
    assert!(tree.respond(&id, idx, make_position("a", Stance::Agree, 1.0, 1)));
    assert!(tree.check_consensus(&id));
}

#[test]
fn test_palaver_tree_close() {
    let mut tree = PalaverTree::new();
    let id = open(&mut tree, "topic", vec!["a".into()], 0);
    let idx = tree.propose(&id, "do it", "a").unwrap();
    tree.respond(&id, idx, make_position("a", Stance::Agree, 1.0, 1));
    assert!(tree.close_palaver(&id, 10));
    assert_eq!(tree.resolved_palavers().len(), 1);
    assert_eq!(tree.active_palavers().len(), 0);
}

#[test]
fn test_palaver_tree_agent_palavers() {
    let mut tree = PalaverTree::new();
    let id1 = open(&mut tree, "t1", vec!["a".into(), "b".into()], 0);
    let _id2 = open(&mut tree, "t2", vec!["b".into(), "c".into()], 0);
    assert_eq!(tree.agent_palavers("a").len(), 1);
    assert_eq!(tree.agent_palavers("b").len(), 2);
    assert_eq!(tree.agent_palavers("c").len(), 1);
    assert_eq!(tree.agent_palavers("d").len(), 0);
    let _ = &id1;
}

#[test]
fn test_palaver_tree_consensus_rate() {
    let mut tree = PalaverTree::new();
    assert!((frac(tree.consensus_rate())).abs() < f64::EPSILON);

    let id1 = open(&mut tree, "t1", vec!["a".into()], 0);
    let idx1 = tree.propose(&id1, "p1", "a").unwrap();
    tree.respond(&id1, idx1, make_position("a", Stance::Agree, 1.0, 1));

    let _id2 = open(&mut tree, "t2", vec!["b".into()], 0);
    // only t1 has consensus
    assert!((frac(tree.consensus_rate()) - 0.5).abs() < f64::EPSILON);
}

#[test]
fn test_palaver_tree_stats() {
    let mut tree = PalaverTree::new();
    let id = open(&mut tree, "t1", vec!["a".into()], 0);
    let idx = tree.propose(&id, "p1", "a").unwrap();
    tree.respond(&id, idx, make_position("a", Stance::Agree, 1.0, 1));
    tree.close_palaver(&id, 10);

    let stats = tree.tree_stats();
    assert_eq!(stats.total, 1);
    assert_eq!(stats.consensus_reached, 1);
    assert_eq!(stats.active, 0);
    assert!((frac(stats.consensus_rate) - 1.0).abs() < f64::EPSILON);
}

#[test]
fn test_palaver_tree_stats_multiple() {
    let mut tree = PalaverTree::new();

    // Consensus palaver
    let id1 = open(&mut tree, "t1", vec!["a".into()], 0);
    let idx1 = tree.propose(&id1, "p1", "a").unwrap();
    tree.respond(&id1, idx1, make_position("a", Stance::Agree, 1.0, 1));
    tree.close_palaver(&id1, 5);

    // Blocked palaver
    let id2 = open(&mut tree, "t2", vec!["a".into(), "b".into()], 0);
    let idx2 = tree.propose(&id2, "p2", "a").unwrap();
    tree.respond(&id2, idx2, make_position("a", Stance::Disagree("no".into()), 1.0, 1));

    let stats = tree.tree_stats();
    assert_eq!(stats.total, 2);
    assert_eq!(stats.consensus_reached, 1);
    assert_eq!(stats.blocked, 1);
    assert_eq!(stats.active, 1);
}

#[test]
fn test_palaver_tree_default() {
    let tree = PalaverTree::default();
    assert_eq!(tree.active_palavers().len(), 0);
}

#[test]
fn test_palaver_tree_invalid_id() {
    let mut tree = PalaverTree::new();
    let fake = PalaverId("fake".into());
    assert!(tree.propose(&fake, "x", "a").is_none());
    assert!(!tree.respond(&fake, 0, make_position("a", Stance::Agree, 1.0, 1)));
    assert!(!tree.check_consensus(&fake));
    assert!(!tree.close_palaver(&fake, 10));
}

#[test]
fn test_full_consensus_flow() {
    let mut tree = PalaverTree::new();
    let id = open(&mut tree, 
        "What language for the new service?",
        vec!["alice".into(), "bob".into(), "carol".into()],
        100,
    );

    let idx = tree.propose(&id, "Use Rust", "alice").unwrap();

    // Alice agrees — 1/1 = 100% consensus among stated positions
    tree.respond(&id, idx, make_position("alice", Stance::Agree, 0.95, 101));
    assert!(tree.check_consensus(&id));

    // Bob disagrees — now 1/2 agree = blocked
    tree.respond(&id, idx, make_position("bob", Stance::Disagree("Too complex".into()), 0.8, 102));
    assert!(!tree.check_consensus(&id));

    // Bob changes mind — 2/2 agree = consensus
    tree.respond(&id, idx, make_position("bob", Stance::Agree, 0.7, 105));
    assert!(tree.check_consensus(&id));

    // Carol agrees — still consensus
    tree.respond(&id, idx, make_position("carol", Stance::Agree, 0.9, 106));
    assert!(tree.check_consensus(&id));

    assert!(tree.close_palaver(&id, 110));

    let stats = tree.tree_stats();
    assert!((frac(stats.consensus_rate) - 1.0).abs() < f64::EPSILON);
}

#[test]
fn test_proposal_tick_age_zero() {
    let p = Proposal::new("id", "desc", "prop", 10);
    assert_eq!(p.tick_age(10), 0);
}

#[test]
fn test_stance_equality() {
    assert_eq!(Stance::Agree, Stance::Agree);
    assert_eq!(Stance::Disagree("reason".into()), Stance::Disagree("reason".into()));
    assert_ne!(Stance::Agree, Stance::Abstain);
}

#[test]
fn test_palaver_tree_global_participants() {
    let mut tree = PalaverTree::new();
    open(&mut tree, "t1", vec!["a".into(), "b".into()], 0);
    open(&mut tree, "t2", vec!["b".into(), "c".into()], 0);
    let names = tree.global_participants();
    assert!(names.iter().any(|n| n == "a"));
    assert!(names.iter().any(|n| n == "b"));
    assert!(names.iter().any(|n| n == "c"));
    assert_eq!(names.len(), 3);
}

#[test]
fn test_palaver_update_harmony_clamp() {
    let mut p = Palaver::new("topic", vec!["a".into()], 0, 0);
    p.update_harmony(milli(-0.5));
    assert!((frac(p.harmony_score)).abs() < f64::EPSILON);
}

#[test]
fn test_empty_proposal_consensus() {
    let p = Proposal::new("id", "desc", "prop", 0);
    assert!((frac(p.consensus_score())).abs() < f64::EPSILON);
    assert!(!p.has_consensus());
}

#[test]
fn test_abstain_does_not_block() {
    let mut p = Proposal::new("id", "desc", "prop", 0);
    p.consensus_threshold = milli(0.5) as u32;
    p.state_position(make_position("a", Stance::Agree, 1.0, 1));
    p.state_position(make_position("b", Stance::Abstain, 0.5, 1));
    // 1 agree out of 2 = 0.5, threshold is 0.5
    assert!(p.has_consensus());
    assert!(!p.is_blocked());
    assert_eq!(p.status, ProposalStatus::Consensus);
}

#[test]
fn test_stats_averages() {
    let mut tree = PalaverTree::new();
    let id1 = open(&mut tree, "t1", vec!["a".into()], 0);
    let idx1 = tree.propose(&id1, "p1", "a").unwrap();
    tree.respond(&id1, idx1, make_position("a", Stance::Agree, 1.0, 1));
    let pal = PalaverId(id1.as_str().to_string());
    let _ = pal;
    let id2 = open(&mut tree, "t2", vec!["b".into()], 0);
    let idx2 = tree.propose(&id2, "p2", "b").unwrap();
    tree.respond(&id2, idx2, make_position("b", Stance::Abstain, 1.0, 1));
    tree.respond(&id2, idx2, make_position("b", Stance::Agree, 1.0, 2));
    // turn counts 2 and 3 over two palavers with consensus: 2.5 turns on average
    let stats = tree.tree_stats();
    assert_eq!(stats.consensus_reached, 2);
    assert!((frac64(stats.avg_turns_to_consensus) - 2.5).abs() < 1e-9);
    assert_eq!(stats.avg_harmony_at_consensus, 0);
    assert_eq!(stats.consensus_rate, 1000);
}
