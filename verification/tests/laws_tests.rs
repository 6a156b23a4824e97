use lau_palaver::{Palaver, PalaverId, PalaverTree, Position, Proposal, ProposalStatus, Stance};

/// Opens a session numbered after the sessions the tree already holds.
fn open(tree: &mut PalaverTree, topic: &str, participants: Vec<String>, tick: u64) -> PalaverId {
    let number = tree.palavers().len() as u64;
    tree.open_palaver(topic, participants, tick, number).unwrap()
}


fn pos(agent: &str, stance: Stance) -> Position {
    Position::new(agent, stance, 1000, "r", 0)
}

#[test]
fn full_threshold_needs_every_position_to_agree() {
    let mut p = Proposal::new("id", "d", "x", 0);
    assert!(!p.has_consensus());
    p.state_position(pos("a", Stance::Agree));
    p.state_position(pos("b", Stance::Agree));
    p.state_position(pos("c", Stance::Abstain));
    assert!(!p.has_consensus());
    assert_eq!(p.status, ProposalStatus::Open);
    p.state_position(pos("c", Stance::Agree));
    assert!(p.has_consensus());
    assert_eq!(p.status, ProposalStatus::Consensus);
}

#[test]
fn one_disagreement_blocks_a_majority() {
    let mut p = Proposal::new("id", "d", "x", 0);
    p.consensus_threshold = 100;
    for name in ["a", "b", "c", "d"] {
        p.state_position(pos(name, Stance::Agree));
    }
    p.state_position(pos("e", Stance::Disagree("no".into())));
    assert!(p.has_consensus());
    assert!(p.is_blocked());
    assert_eq!(p.status, ProposalStatus::Blocked);
}

#[test]
fn withdrawn_status_is_kept() {
    let mut p = Proposal::new("id", "d", "x", 0);
    p.status = ProposalStatus::Withdrawn;
    p.state_position(pos("a", Stance::Disagree("no".into())));
    assert_eq!(p.status, ProposalStatus::Withdrawn);
}

#[test]
fn state_then_read_replaces_in_place() {
    let mut p = Proposal::new("id", "d", "x", 0);
    p.state_position(pos("a", Stance::Agree));
    p.state_position(pos("b", Stance::Abstain));
    p.state_position(pos("a", Stance::Disagree("changed".into())));
    assert_eq!(p.positions.len(), 2);
    assert_eq!(p.positions[0].agent_id, "a");
    assert_eq!(p.positions[0].stance, Stance::Disagree("changed".into()));
    assert_eq!(p.positions[1].agent_id, "b");
    assert_eq!(p.positions[1].stance, Stance::Abstain);
}

#[test]
fn withdraw_undoes_a_new_statement() {
    let mut p = Proposal::new("id", "d", "x", 0);
    p.state_position(pos("a", Stance::Agree));
    p.state_position(pos("b", Stance::Disagree("no".into())));
    p.withdraw_position("b");
    assert_eq!(p.positions.len(), 1);
    assert_eq!(p.positions[0].agent_id, "a");
    assert_eq!(p.status, ProposalStatus::Consensus);
    p.withdraw_position("nobody");
    assert_eq!(p.positions.len(), 1);
}

#[test]
fn score_rounds_down_in_thousandths() {
    let mut p = Proposal::new("id", "d", "x", 0);
    p.state_position(pos("a", Stance::Agree));
    p.state_position(pos("b", Stance::Abstain));
    p.state_position(pos("c", Stance::Abstain));
    assert_eq!(p.consensus_score(), 333);
    assert_eq!(p.proponents().len(), 1);
}

#[test]
fn identifiers_are_numbered_and_distinct() {
    let mut tree = PalaverTree::new();
    let a = open(&mut tree, "t1", vec![], 0);
    let b = open(&mut tree, "t2", vec![], 0);
    assert_eq!(a.as_str(), "palaver-0");
    assert_eq!(b.as_str(), "palaver-1");
    assert_ne!(a, b);
    let idx = tree.propose(&b, "x", "y").unwrap();
    assert_eq!(idx, 0);
    let again = tree.propose(&b, "z", "y").unwrap();
    assert_eq!(again, 1);
    let pal = tree.active_palavers()[1];
    assert_eq!(pal.proposals[1].id, "palaver-1-prop-1");
}

#[test]
fn proposal_ticks_follow_turns() {
    let mut p = Palaver::new("t", vec![], 40, 12);
    assert_eq!(p.id.as_str(), "palaver-12");
    p.propose("a", "x");
    p.respond(0, pos("x", Stance::Agree)).unwrap();
    p.propose("b", "x");
    assert_eq!(p.proposals[0].tick_proposed, 40);
    assert_eq!(p.proposals[1].tick_proposed, 42);
    assert_eq!(p.turn_count, 3);
}

#[test]
fn out_of_bounds_error_message() {
    let mut p = Palaver::new("t", vec![], 0, 0);
    let before = p.turn_count;
    let err = p.respond(99, pos("a", Stance::Agree)).unwrap_err();
    assert_eq!(err, "Proposal index 99 out of bounds");
    assert_eq!(p.turn_count, before);
}

#[test]
fn advance_stops_at_the_last_proposal() {
    let mut p = Palaver::new("t", vec![], 0, 0);
    p.advance_proposal();
    assert_eq!(p.active_proposal, None);
    p.propose("a", "x");
    p.propose("b", "x");
    p.advance_proposal();
    p.advance_proposal();
    assert_eq!(p.active_proposal, Some(1));
}

#[test]
fn close_without_consensus_keeps_session_open() {
    let mut p = Palaver::new("t", vec![], 0, 0);
    p.propose("a", "x");
    p.respond(0, pos("x", Stance::Disagree("no".into()))).unwrap();
    assert!(!p.close(9));
    assert_eq!(p.tick_ended, None);
}

#[test]
fn summary_exact_text() {
    let mut p = Palaver::new("topic", vec!["a".into(), "b".into()], 0, 0);
    p.propose("use rust", "a");
    p.respond(0, pos("a", Stance::Agree)).unwrap();
    p.respond(0, pos("b", Stance::Abstain)).unwrap();
    p.update_harmony(755);
    let s = p.summary();
    assert_eq!(
        s,
        "Palaver \"topic\" [IN DISCUSSION]\n  Participants: a, b\n  Turns: 3\n  Harmony: 76%\n  [0] \"use rust\" by a — Open (score: 50%, 1/2 agree)"
    );
    assert!(!p.close(5));
    p.tick_ended = Some(5);
    p.propose("again", "b");
    let s = p.summary();
    assert!(s.contains("[CLOSED]"));
    assert!(s.ends_with("\n  [1] \"again\" by b — Open (score: 0%, 0/0 agree)"));
}

#[test]
fn summary_rounds_ties_to_even() {
    let mut p = Palaver::new("t", vec![], 0, 0);
    p.update_harmony(125);
    assert!(p.summary().contains("Harmony: 12%"));
    p.update_harmony(135);
    assert!(p.summary().contains("Harmony: 14%"));
}

#[test]
fn active_and_resolved_partition_the_tree() {
    let mut tree = PalaverTree::new();
    let a = open(&mut tree, "t1", vec!["x".into()], 0);
    open(&mut tree, "t2", vec!["y".into()], 0);
    tree.propose(&a, "p", "x");
    tree.respond(&a, 0, pos("x", Stance::Agree));
    tree.close_palaver(&a, 3);
    let active = tree.active_palavers().len();
    let resolved = tree.resolved_palavers().len();
    assert_eq!(active, 1);
    assert_eq!(resolved, 1);
    assert_eq!(active + resolved, tree.tree_stats().total);
}

#[test]
fn respond_out_of_range_in_tree_changes_nothing() {
    let mut tree = PalaverTree::new();
    let a = open(&mut tree, "t1", vec!["x".into()], 0);
    assert!(!tree.respond(&a, 0, pos("x", Stance::Agree)));
    assert_eq!(tree.active_palavers()[0].turn_count, 0);
}

#[test]
fn global_participants_keep_first_join_order() {
    let mut tree = PalaverTree::new();
    open(&mut tree, "t1", vec!["b".into(), "a".into(), "b".into()], 0);
    open(&mut tree, "t2", vec!["c".into(), "a".into()], 0);
    let names: Vec<&str> = tree.global_participants().iter().map(|s| s.as_str()).collect();
    assert_eq!(names, vec!["b", "a", "c"]);
}

#[test]
fn rebuild_tree_from_its_palavers() {
    let mut tree = PalaverTree::new();
    let a = open(&mut tree, "t1", vec!["x".into(), "y".into()], 0);
    open(&mut tree, "t2", vec!["y".into(), "z".into()], 0);
    tree.propose(&a, "p", "x");
    let copy: Vec<Palaver> = tree.palavers().to_vec();
    let rebuilt = PalaverTree::from_palavers(copy.clone()).unwrap();
    let names: Vec<&str> = rebuilt.global_participants().iter().map(|s| s.as_str()).collect();
    assert_eq!(names, vec!["x", "y", "z"]);
    assert_eq!(rebuilt.palavers().len(), 2);
    assert_eq!(rebuilt.palavers()[0].proposals.len(), 1);

    let mut swapped = copy.clone();
    swapped.swap(0, 1);
    assert!(PalaverTree::from_palavers(swapped).is_some());

    let mut twice = copy.clone();
    twice[1].id = twice[0].id.clone();
    assert!(PalaverTree::from_palavers(twice).is_none());

    let mut broken = copy;
    broken[0].active_proposal = Some(5);
    assert!(PalaverTree::from_palavers(broken).is_none());
}

#[test]
fn duplicate_agents_are_not_well_formed() {
    let mut p = Proposal::new("id", "d", "x", 0);
    p.state_position(pos("a", Stance::Agree));
    assert!(p.is_wf());
    p.positions.push(pos("a", Stance::Abstain));
    assert!(!p.is_wf());
}

#[test]
fn session_without_active_proposal_is_accepted() {
    let mut p = Palaver::new("t", vec![], 0, 0);
    p.propose("a", "x");
    p.active_proposal = None;
    assert!(p.is_wf());
    assert!(!p.check_consensus());
    let idx = p.propose("b", "x");
    assert_eq!(idx, 1);
    assert_eq!(p.active_proposal, Some(1));
}

#[test]
fn consensus_and_blocked_are_not_final() {
    let mut p = Proposal::new("id", "d", "x", 0);
    p.state_position(pos("a", Stance::Agree));
    assert_eq!(p.status, ProposalStatus::Consensus);
    p.withdraw_position("a");
    assert_eq!(p.status, ProposalStatus::Open);
    p.state_position(pos("a", Stance::Disagree("no".into())));
    assert_eq!(p.status, ProposalStatus::Blocked);
    p.state_position(pos("a", Stance::Agree));
    assert_eq!(p.status, ProposalStatus::Consensus);
}

#[test]
fn cloned_tree_holds_the_same_sessions() {
    let mut tree = PalaverTree::new();
    let a = open(&mut tree, "t1", vec!["x".into()], 0);
    tree.propose(&a, "p", "x");
    let copy = tree.clone();
    assert_eq!(copy.palavers().len(), 1);
    assert_eq!(copy.palavers()[0].id, a);
    assert_eq!(copy.palavers()[0].proposals.len(), 1);
    assert_eq!(copy.global_participants().len(), 1);
}

#[test]
fn sessions_take_the_given_number() {
    let mut tree = PalaverTree::new();
    let a = tree.open_palaver("t1", vec!["x".into()], 0, 41).unwrap();
    assert_eq!(a.as_str(), "palaver-41");
    let again = tree.open_palaver("t2", vec!["y".into()], 0, 41);
    assert!(again.is_none());
    assert_eq!(tree.palavers().len(), 1);
    assert_eq!(tree.global_participants().len(), 1);
    let b = tree.open_palaver("t2", vec!["y".into()], 0, 7).unwrap();
    assert_eq!(b.as_str(), "palaver-7");
    assert_eq!(tree.palavers()[1].topic, "t2");
}

#[test]
fn out_of_range_active_proposal_does_not_stop_work() {
    let mut p = Palaver::new("t", vec![], 0, 0);
    p.propose("a", "x");
    p.active_proposal = Some(9);
    assert!(!p.is_wf());
    p.respond(0, pos("x", Stance::Agree)).unwrap();
    assert!(p.consensus_reached);
    p.propose("b", "x");
    p.advance_proposal();
    assert_eq!(p.active_proposal, Some(9));
    assert_eq!(p.proposals.len(), 2);
}
