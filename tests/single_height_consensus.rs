use papyrus_consensus::single_height_consensus::{ShcAction, SingleHeightConsensus, Violation};
use papyrus_consensus::state_machine::{StateMachine, StateMachineEvent};
use papyrus_consensus::types::{
    BlockHash, ConsensusBlock, ConsensusError, ConsensusMessage, ProposalFault, ProposalInit, Vote,
    VoteType,
};

const HEIGHT: u64 = 5;

#[derive(Clone, Debug, PartialEq)]
struct TestBlock {
    id: BlockHash,
    content: Vec<u8>,
}

impl ConsensusBlock for TestBlock {
    fn id(&self) -> BlockHash {
        self.id
    }
}

fn hash(n: u128) -> BlockHash {
    BlockHash { high: 0, low: n }
}

fn block(n: u128) -> TestBlock {
    TestBlock { id: hash(n), content: vec![n as u8, 1, 2] }
}

fn vote(vote_type: VoteType, h: Option<BlockHash>, voter: u64) -> Vote {
    Vote { vote_type, height: HEIGHT, round: 0, block_hash: h, voter }
}

fn precommit(h: u128, voter: u64) -> Vote {
    vote(VoteType::Precommit, Some(hash(h)), voter)
}

fn prevote(h: u128, voter: u64) -> Vote {
    vote(VoteType::Prevote, Some(hash(h)), voter)
}

fn shc(id: u64) -> SingleHeightConsensus<TestBlock> {
    SingleHeightConsensus::new(HEIGHT, id, vec![0, 1, 2, 3])
}

/// Validator 0 starts as the round's proposer and broadcasts its prevote.
fn started_proposer(h: u128) -> SingleHeightConsensus<TestBlock> {
    let mut s = shc(0);
    s.start(0);
    assert!(matches!(s.handle_state_machine_events(), ShcAction::BuildProposal(0)));
    assert_eq!(s.handle_built_proposal(block(h)), hash(h));
    match s.handle_state_machine_events() {
        ShcAction::Broadcast(v) => assert_eq!(v, prevote(h, 0)),
        _ => panic!("expected this node's prevote"),
    }
    assert!(matches!(s.handle_state_machine_events(), ShcAction::Idle));
    s
}

#[test]
fn proposer_decides_on_third_precommit() {
    let mut s = started_proposer(7);
    s.handle_vote(precommit(7, 0)).unwrap();
    assert!(matches!(s.handle_state_machine_events(), ShcAction::Idle));
    s.handle_vote(precommit(7, 1)).unwrap();
    assert!(matches!(s.handle_state_machine_events(), ShcAction::Idle));
    s.handle_vote(precommit(7, 2)).unwrap();
    match s.handle_state_machine_events() {
        ShcAction::Decided(d) => {
            assert_eq!(d.block, block(7));
            assert_eq!(d.block.id(), hash(7));
            assert_eq!(d.precommits, vec![precommit(7, 0), precommit(7, 1), precommit(7, 2)]);
        }
        _ => panic!("expected a decision"),
    }
}

#[test]
fn two_precommits_do_not_decide() {
    let mut s = started_proposer(7);
    s.handle_vote(precommit(7, 1)).unwrap();
    s.handle_vote(precommit(7, 2)).unwrap();
    assert!(matches!(s.handle_state_machine_events(), ShcAction::Idle));
}

#[test]
fn conflicting_precommit_is_equivocation() {
    let mut s = started_proposer(7);
    let first = precommit(1, 1);
    let second = precommit(2, 1);
    assert_eq!(s.handle_vote(first), Ok(()));
    assert_eq!(
        s.handle_vote(second),
        Err(ConsensusError::Equivocation(
            HEIGHT,
            ConsensusMessage::Vote(first),
            ConsensusMessage::Vote(second)
        ))
    );
}

#[test]
fn conflicting_prevote_is_equivocation() {
    let mut s = shc(1);
    let first = prevote(1, 2);
    let second = vote(VoteType::Prevote, None, 2);
    assert_eq!(s.handle_vote(first), Ok(()));
    assert!(matches!(s.handle_vote(second), Err(ConsensusError::Equivocation(HEIGHT, _, _))));
}

#[test]
fn repeated_vote_is_ignored() {
    let mut s = started_proposer(7);
    s.handle_vote(precommit(7, 1)).unwrap();
    s.handle_vote(precommit(7, 2)).unwrap();
    assert_eq!(s.handle_vote(precommit(7, 1)), Ok(()));
    assert_eq!(s.handle_vote(precommit(7, 2)), Ok(()));
    assert!(matches!(s.handle_state_machine_events(), ShcAction::Idle));
    // The replays were not counted: a third voter is still needed.
    s.handle_vote(precommit(7, 3)).unwrap();
    assert!(matches!(s.handle_state_machine_events(), ShcAction::Decided(_)));
}

#[test]
fn same_voter_may_prevote_and_precommit() {
    let mut s = started_proposer(7);
    assert_eq!(s.handle_vote(prevote(7, 1)), Ok(()));
    assert_eq!(s.handle_vote(precommit(8, 1)), Ok(()));
}

#[test]
fn wrong_proposer_is_refused() {
    let mut s = shc(1);
    s.start(0);
    let init = ProposalInit { height: HEIGHT, proposer: 2 };
    let expected = Err(ConsensusError::InvalidProposal(0, HEIGHT, ProposalFault::WrongProposer(0, 2)));
    assert_eq!(s.validate_proposal_init(&init, 0), expected);
    assert_eq!(s.handle_proposal(init, 0, block(7), hash(7)), expected);
    assert!(matches!(s.handle_state_machine_events(), ShcAction::Idle));
}

#[test]
fn wrong_height_is_refused() {
    let mut s = shc(1);
    s.start(0);
    let init = ProposalInit { height: HEIGHT + 1, proposer: 0 };
    let expected =
        Err(ConsensusError::InvalidProposal(0, HEIGHT, ProposalFault::WrongHeight(HEIGHT, HEIGHT + 1)));
    assert_eq!(s.validate_proposal_init(&init, 0), expected);
    assert_eq!(s.handle_proposal(init, 0, block(7), hash(7)), expected);
}

#[test]
fn wrong_height_is_reported_before_wrong_proposer() {
    let s = shc(1);
    let init = ProposalInit { height: HEIGHT + 2, proposer: 3 };
    assert_eq!(
        s.validate_proposal_init(&init, 0),
        Err(ConsensusError::InvalidProposal(0, HEIGHT, ProposalFault::WrongHeight(HEIGHT, HEIGHT + 2)))
    );
}

#[test]
fn fin_mismatch_is_refused() {
    let mut s = shc(1);
    s.start(0);
    let init = ProposalInit { height: HEIGHT, proposer: 0 };
    assert_eq!(s.validate_proposal_init(&init, 0), Ok(()));
    assert_eq!(
        s.handle_proposal(init, 0, block(7), hash(8)),
        Err(ConsensusError::InvalidProposal(0, HEIGHT, ProposalFault::HashMismatch(hash(7), hash(8))))
    );
    assert!(matches!(s.handle_state_machine_events(), ShcAction::Idle));
}

#[test]
fn second_proposal_is_refused() {
    let mut s = shc(1);
    s.start(0);
    let init = ProposalInit { height: HEIGHT, proposer: 0 };
    assert_eq!(s.handle_proposal(init, 0, block(7), hash(7)), Ok(()));
    assert_eq!(
        s.handle_proposal(init, 0, block(8), hash(8)),
        Err(ConsensusError::InvalidProposal(0, HEIGHT, ProposalFault::Duplicate))
    );
}

#[test]
fn validator_follows_proposal_to_decision() {
    let mut s = shc(1);
    s.start(0);
    assert!(matches!(s.handle_state_machine_events(), ShcAction::Idle));
    let init = ProposalInit { height: HEIGHT, proposer: 0 };
    assert_eq!(s.handle_proposal(init, 0, block(9), hash(9)), Ok(()));
    match s.handle_state_machine_events() {
        ShcAction::Broadcast(v) => assert_eq!(v, prevote(9, 1)),
        _ => panic!("expected this node's prevote"),
    }
    assert!(matches!(s.handle_state_machine_events(), ShcAction::Idle));
    s.handle_vote(prevote(9, 0)).unwrap();
    assert!(matches!(s.handle_state_machine_events(), ShcAction::Idle));
    s.handle_message(ConsensusMessage::Vote(prevote(9, 2))).unwrap();
    match s.handle_state_machine_events() {
        ShcAction::Broadcast(v) => assert_eq!(v, precommit(9, 1)),
        _ => panic!("expected this node's precommit"),
    }
    assert!(matches!(s.handle_state_machine_events(), ShcAction::Idle));
    s.handle_vote(precommit(9, 3)).unwrap();
    assert!(matches!(s.handle_state_machine_events(), ShcAction::Idle));
    s.handle_vote(precommit(9, 0)).unwrap();
    match s.handle_state_machine_events() {
        ShcAction::Decided(d) => {
            assert_eq!(d.block, block(9));
            assert_eq!(d.precommits, vec![precommit(9, 0), precommit(9, 1), precommit(9, 3)]);
        }
        _ => panic!("expected a decision"),
    }
}

#[test]
fn no_second_decision() {
    let mut s = started_proposer(7);
    for voter in 0..3 {
        s.handle_vote(precommit(7, voter)).unwrap();
    }
    assert!(matches!(s.handle_state_machine_events(), ShcAction::Decided(_)));
    s.handle_vote(precommit(7, 3)).unwrap();
    assert!(matches!(s.handle_state_machine_events(), ShcAction::Idle));
}

#[test]
fn decision_without_proposal_halts() {
    let mut s = shc(1);
    s.start(0);
    for voter in [0, 2, 3] {
        s.handle_vote(precommit(4, voter)).unwrap();
    }
    match s.handle_state_machine_events() {
        ShcAction::Halt(v) => assert_eq!(v, Violation::UnknownDecision(hash(4), 0)),
        _ => panic!("expected a halt"),
    }
}

#[test]
fn decision_for_other_block_halts() {
    let mut s = started_proposer(7);
    for voter in [1, 2, 3] {
        s.handle_vote(precommit(4, voter)).unwrap();
    }
    match s.handle_state_machine_events() {
        ShcAction::Halt(v) => assert_eq!(v, Violation::StoredBlockMismatch(hash(7), hash(4))),
        _ => panic!("expected a halt"),
    }
}

#[test]
fn forged_own_vote_halts_on_own_vote() {
    let mut s = shc(1);
    s.start(0);
    s.handle_vote(prevote(3, 1)).unwrap();
    let init = ProposalInit { height: HEIGHT, proposer: 0 };
    assert_eq!(s.handle_proposal(init, 0, block(9), hash(9)), Ok(()));
    match s.handle_state_machine_events() {
        ShcAction::Halt(v) => assert_eq!(v, Violation::RepeatVote(prevote(3, 1), prevote(9, 1))),
        _ => panic!("expected a halt"),
    }
}

#[test]
fn non_leader_start_builds_nothing() {
    let mut s = shc(2);
    s.start(0);
    assert!(matches!(s.handle_state_machine_events(), ShcAction::Idle));
}

#[test]
fn quorum_is_more_than_two_thirds() {
    let cases: [(u64, u64); 7] = [(0, 1), (1, 1), (2, 2), (3, 3), (4, 3), (6, 5), (7, 5)];
    for (n, q) in cases {
        assert_eq!(StateMachine::new(0, n).quorum_size(), q);
    }
    assert_eq!(StateMachine::new(0, 100).quorum_size(), 67);
    assert_eq!(StateMachine::new(0, u64::MAX).quorum_size(), 12297829382473034411);
}

#[test]
fn state_machine_single_validator_decides_alone() {
    let mut sm = StateMachine::new(4, 1);
    assert_eq!(sm.start(4), vec![StateMachineEvent::GetProposal(None, 0)]);
    let out = sm.handle_event(StateMachineEvent::GetProposal(Some(hash(3)), 0));
    assert_eq!(
        out,
        vec![
            StateMachineEvent::Proposal(Some(hash(3)), 0),
            StateMachineEvent::Prevote(Some(hash(3)), 0),
            StateMachineEvent::Precommit(Some(hash(3)), 0),
            StateMachineEvent::Decision(hash(3), 0),
        ]
    );
    assert!(sm.decided());
    assert_eq!(sm.handle_event(StateMachineEvent::Precommit(Some(hash(3)), 0)), vec![]);
}

#[test]
fn state_machine_nil_precommits_never_decide() {
    let mut sm = StateMachine::new(4, 4);
    assert_eq!(sm.start(0), vec![]);
    for _ in 0..4 {
        assert_eq!(sm.handle_event(StateMachineEvent::Precommit(None, 0)), vec![]);
    }
    assert!(!sm.decided());
}

#[test]
fn state_machine_nil_prevote_quorum_precommits_nil() {
    let mut sm = StateMachine::new(4, 4);
    sm.start(0);
    assert_eq!(
        sm.handle_event(StateMachineEvent::Proposal(None, 0)),
        vec![StateMachineEvent::Prevote(None, 0)]
    );
    assert_eq!(sm.handle_event(StateMachineEvent::Prevote(None, 0)), vec![]);
    assert_eq!(
        sm.handle_event(StateMachineEvent::Prevote(None, 0)),
        vec![StateMachineEvent::Precommit(None, 0)]
    );
}

#[test]
fn state_machine_decides_on_quorum_of_precommits() {
    let mut sm = StateMachine::new(4, 4);
    sm.start(0);
    assert_eq!(sm.handle_event(StateMachineEvent::Precommit(Some(hash(1)), 0)), vec![]);
    assert_eq!(sm.handle_event(StateMachineEvent::Precommit(Some(hash(2)), 0)), vec![]);
    assert_eq!(sm.handle_event(StateMachineEvent::Precommit(Some(hash(1)), 0)), vec![]);
    assert_eq!(
        sm.handle_event(StateMachineEvent::Precommit(Some(hash(1)), 0)),
        vec![StateMachineEvent::Decision(hash(1), 0)]
    );
}

#[test]
fn queued_own_precommit_counts_toward_quorum() {
    let mut s = shc(1);
    s.start(0);
    let init = ProposalInit { height: HEIGHT, proposer: 0 };
    s.handle_proposal(init, 0, block(9), hash(9)).unwrap();
    s.handle_vote(prevote(9, 0)).unwrap();
    s.handle_vote(prevote(9, 2)).unwrap();
    // This node now owes a prevote and a precommit; peers' precommits arrive first.
    s.handle_vote(precommit(9, 0)).unwrap();
    s.handle_vote(precommit(9, 3)).unwrap();
    match s.handle_state_machine_events() {
        ShcAction::Broadcast(v) => assert_eq!(v, prevote(9, 1)),
        _ => panic!("expected this node's prevote"),
    }
    match s.handle_state_machine_events() {
        ShcAction::Broadcast(v) => assert_eq!(v, precommit(9, 1)),
        _ => panic!("expected this node's precommit"),
    }
    match s.handle_state_machine_events() {
        ShcAction::Decided(d) => {
            assert_eq!(d.block.id(), hash(9));
            assert_eq!(d.precommits, vec![precommit(9, 0), precommit(9, 1), precommit(9, 3)]);
        }
        _ => panic!("expected a decision"),
    }
}

#[test]
fn vote_for_other_height_is_refused() {
    let mut s = shc(1);
    s.start(0);
    let other = Vote { height: HEIGHT + 1, ..prevote(9, 2) };
    assert_eq!(
        s.handle_vote(other),
        Err(ConsensusError::OtherHeight(HEIGHT, ConsensusMessage::Vote(other)))
    );
    assert_eq!(
        s.handle_message(ConsensusMessage::Vote(other)),
        Err(ConsensusError::OtherHeight(HEIGHT, ConsensusMessage::Vote(other)))
    );
    // The refused vote was not recorded: the same voter may still vote here.
    assert_eq!(s.handle_vote(prevote(3, 2)), Ok(()));
}

#[test]
fn accept_proposal_compares_given_id_with_fin() {
    let mut s = shc(1);
    s.start(0);
    let init = ProposalInit { height: HEIGHT, proposer: 0 };
    assert_eq!(
        s.accept_proposal(init, 0, block(9), hash(8), hash(9)),
        Err(ConsensusError::InvalidProposal(0, HEIGHT, ProposalFault::HashMismatch(hash(8), hash(9))))
    );
    assert_eq!(s.accept_proposal(init, 0, block(9), hash(9), hash(9)), Ok(()));
    match s.handle_state_machine_events() {
        ShcAction::Broadcast(v) => assert_eq!(v, prevote(9, 1)),
        _ => panic!("expected this node's prevote"),
    }
}

#[test]
fn accept_built_proposal_feeds_given_id() {
    let mut s = shc(0);
    s.start(0);
    assert!(matches!(s.handle_state_machine_events(), ShcAction::BuildProposal(0)));
    s.accept_built_proposal(block(7), hash(7));
    match s.handle_state_machine_events() {
        ShcAction::Broadcast(v) => assert_eq!(v, prevote(7, 0)),
        _ => panic!("expected this node's prevote"),
    }
}
