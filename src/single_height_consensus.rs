use vstd::prelude::*;

use crate::state_machine::{
    count_votes, has_decision, is_inbound, lemma_count_push, lemma_next_counts,
    lemma_queued_concat, lemma_queued_single, lemma_quorum_decision, queued_precommits, quorum_of,
    RoundState, StateMachine, StateMachineEvent, Step, VoteKey,
};
use crate::types::{
    same_hash, BlockHash, BlockNumber, ConsensusBlock, ConsensusError, ConsensusMessage,
    Decision, ProposalFault, ProposalInit, Round, ValidatorId, Vote, VoteType,
};

verus! {

/// The only round that proposals from peers are wired to.
pub const ROUND_ZERO: Round = 0;

/// The latest vote of `s` keyed by `(r, voter)`.
pub open spec fn vote_at(s: Seq<Vote>, r: Round, voter: ValidatorId) -> Option<Vote>
    decreases s.len(),
{
    if s.len() == 0 {
        None
    } else if s.last().round == r && s.last().voter == voter {
        Some(s.last())
    } else {
        vote_at(s.drop_last(), r, voter)
    }
}

/// The precommits for `h` in round `r`, one per validator of `vals` in its order.
pub open spec fn supporting(table: Seq<Vote>, vals: Seq<ValidatorId>, r: Round, h: BlockHash) -> Seq<Vote>
    decreases vals.len(),
{
    if vals.len() == 0 {
        seq![]
    } else {
        let rest = supporting(table, vals.drop_last(), r, h);
        match vote_at(table, r, vals.last()) {
            Some(v) => if v.block_hash == Some(h) {
                rest.push(v)
            } else {
                rest
            },
            None => rest,
        }
    }
}

/// No two votes of `t` share a round and a voter.
pub open spec fn keys_unique(t: Seq<Vote>) -> bool {
    forall|i: int, j: int|
        0 <= i < j < t.len() ==> !((#[trigger] t[i]).round == (#[trigger] t[j]).round && t[i].voter == t[j].voter)
}

/// Number of votes of `t` for `h` in round `r`.
pub open spec fn table_count(t: Seq<Vote>, r: Round, h: Option<BlockHash>) -> nat
    decreases t.len(),
{
    if t.len() == 0 {
        0
    } else {
        table_count(t.drop_last(), r, h) + if t.last().round == r && t.last().block_hash == h {
            1nat
        } else {
            0nat
        }
    }
}

/// The vote key that feeding `e` adds to the state machine's precommits.
pub open spec fn precommit_key(e: StateMachineEvent) -> Option<VoteKey> {
    match e {
        StateMachineEvent::Precommit(h, r) => Some((r, h)),
        _ => None,
    }
}

/// Index of the latest proposal of round `r`, or -1.
pub open spec fn proposal_index<B>(s: Seq<(Round, BlockHash, B)>, r: Round) -> int
    decreases s.len(),
{
    if s.len() == 0 {
        -1
    } else if s.last().0 == r {
        s.len() - 1
    } else {
        proposal_index(s.drop_last(), r)
    }
}

/// Events that the coordinator passes over: proposals, already announced.
pub open spec fn is_quiet(e: StateMachineEvent) -> bool {
    e is Proposal
}

/// The queue with its leading quiet events dropped.
pub open spec fn skip_quiet(q: Seq<StateMachineEvent>) -> Seq<StateMachineEvent>
    decreases q.len(),
{
    if q.len() > 0 && is_quiet(q[0]) {
        skip_quiet(q.drop_first())
    } else {
        q
    }
}

/// A breach of the contract between the state machine and the coordinator.
/// The height cannot go on after one.
#[derive(Clone, Copy, Debug, PartialEq, Eq, Structural)]
pub enum Violation {
    /// This node was asked to vote twice for one key: the recorded vote and the new one.
    RepeatVote(Vote, Vote),
    /// A round was decided for which no proposal was recorded.
    UnknownDecision(BlockHash, Round),
    /// The recorded block's id and the decided hash, which differ.
    StoredBlockMismatch(BlockHash, BlockHash),
    /// Fewer supporting precommits than the quorum: their number and the quorum.
    NoQuorum(usize, u64),
    /// This node was asked to build a proposal for a round that already has one.
    DuplicateProposal(Round),
}

/// What the driver must do after the coordinator handled its queued events.
pub enum ShcAction<B> {
    /// Nothing is pending; wait for messages from peers.
    Idle,
    /// Build a proposal for the round, announce it with this node as proposer,
    /// and hand the built block to `handle_built_proposal`.
    BuildProposal(Round),
    /// Send this node's vote to all peers, then handle the remaining events.
    Broadcast(Vote),
    /// The height is decided.
    Decided(Decision<B>),
    /// A fatal breach: stop the height.
    Halt(Violation),
}

/// The consensus of one height: the proposal and vote tables of the height,
/// the round state machine they feed, and the queue of its events.
pub struct SingleHeightConsensus<B> {
    height: BlockNumber,
    validators: Vec<ValidatorId>,
    id: ValidatorId,
    state_machine: StateMachine,
    proposals: Vec<(Round, BlockHash, B)>,
    prevotes: Vec<Vote>,
    precommits: Vec<Vote>,
    events: Vec<StateMachineEvent>,
    building: Option<Round>,
    decided: bool,
    halted: bool,
}

impl<B> SingleHeightConsensus<B> {
    pub closed spec fn height(&self) -> BlockNumber {
        self.height
    }

    pub closed spec fn validators(&self) -> Seq<ValidatorId> {
        self.validators@
    }

    pub closed spec fn id(&self) -> ValidatorId {
        self.id
    }

    pub closed spec fn machine(&self) -> RoundState {
        self.state_machine@
    }

    /// Recorded proposals: round, block id and block.
    pub closed spec fn proposals(&self) -> Seq<(Round, BlockHash, B)> {
        self.proposals@
    }

    pub closed spec fn prevotes(&self) -> Seq<Vote> {
        self.prevotes@
    }

    pub closed spec fn precommits(&self) -> Seq<Vote> {
        self.precommits@
    }

    /// The vote table for votes of type `t`.
    pub open spec fn table(&self, t: VoteType) -> Seq<Vote> {
        match t {
            VoteType::Prevote => self.prevotes(),
            VoteType::Precommit => self.precommits(),
        }
    }

    /// State machine events not handled yet, front first.
    pub closed spec fn pending(&self) -> Seq<StateMachineEvent> {
        self.events@
    }

    /// The round whose proposal this node is building, if any.
    pub closed spec fn building(&self) -> Option<Round> {
        self.building
    }

    pub closed spec fn decided(&self) -> bool {
        self.decided
    }

    /// Whether a fatal breach was reported.
    pub closed spec fn halted(&self) -> bool {
        self.halted
    }

    closed spec fn core_ok(&self) -> bool {
        &&& (self.building matches Some(r) ==> proposal_index(self.proposals@, r) == -1)
        &&& (self.decided ==> self.state_machine@.decided && !has_decision(self.events@))
        &&& (has_decision(self.events@) ==> self.state_machine@.decided)
        &&& (self.state_machine@.decided ==> self.decided || self.halted || has_decision(self.events@))
        &&& self.state_machine@.id == self.id
        &&& self.tables_typed()
        &&& self.round_zero()
    }

    /// Only round zero is driven: the proposals recorded, the one being built
    /// and every request for proposal content are for it, and such a request
    /// carries no hash.
    closed spec fn round_zero(&self) -> bool {
        &&& (self.building matches Some(r) ==> r == ROUND_ZERO)
        &&& forall|i: int| 0 <= i < self.proposals@.len() ==> (#[trigger] self.proposals@[i]).0 == ROUND_ZERO
        &&& forall|i: int|
            0 <= i < self.events@.len() && (#[trigger] self.events@[i]) is GetProposal ==> self.events@[i]
                == StateMachineEvent::GetProposal(None, ROUND_ZERO)
    }

    /// Each vote table holds votes of its own type only, at most one for each
    /// round and voter; the validators are listed once each.
    closed spec fn tables_typed(&self) -> bool {
        &&& forall|i: int|
            0 <= i < self.prevotes@.len() ==> (#[trigger] self.prevotes@[i]).vote_type == VoteType::Prevote
        &&& forall|i: int|
            0 <= i < self.precommits@.len() ==> (#[trigger] self.precommits@[i]).vote_type
                == VoteType::Precommit
        &&& keys_unique(self.prevotes@)
        &&& keys_unique(self.precommits@)
        &&& self.validators@.no_duplicates()
    }

    /// Until the height ends, each precommit the state machine counted is in
    /// the precommit table or queued for this node to cast, but for `extra`.
    closed spec fn counts_ok(&self, extra: Option<VoteKey>) -> bool {
        !self.decided && !self.halted ==> forall|r: Round, h: Option<BlockHash>|
            #[trigger] count_votes(self.state_machine@.precommits, r, h) + (if extra == Some((r, h)) {
                1nat
            } else {
                0nat
            }) == table_count(self.precommits@, r, h) + queued_precommits(self.events@, r, h)
    }

    pub closed spec fn wf(&self) -> bool {
        self.core_ok() && self.counts_ok(None)
    }

    /// The same table of `t` with `v` recorded, the other table unchanged.
    pub open spec fn tables_after(&self, t: VoteType, v: Vote, next: &Self) -> bool {
        &&& next.table(t) == self.table(t).push(v)
        &&& (match t {
            VoteType::Prevote => next.precommits() == self.precommits(),
            VoteType::Precommit => next.prevotes() == self.prevotes(),
        })
    }

    /// `next` is `self` after the state machine handled `e` and its events were queued.
    pub open spec fn fed(&self, e: StateMachineEvent, next: &Self) -> bool {
        &&& next.machine() == self.machine().next(e).0
        &&& next.pending() == self.pending() + self.machine().next(e).1
        &&& next.height() == self.height()
        &&& next.validators() == self.validators()
        &&& next.id() == self.id()
        &&& next.decided() == self.decided()
    }

    /// The state machine event that a recorded vote feeds in.
    pub open spec fn vote_event(v: Vote) -> StateMachineEvent {
        match v.vote_type {
            VoteType::Prevote => StateMachineEvent::Prevote(v.block_hash, v.round),
            VoteType::Precommit => StateMachineEvent::Precommit(v.block_hash, v.round),
        }
    }

    /// What handling a vote from a peer does.
    pub open spec fn vote_step(
        pre: &Self,
        post: &Self,
        vote: Vote,
        r: Result<(), ConsensusError>,
    ) -> bool {
        if vote.height != pre.height() {
            &&& *post == *pre
            &&& r == Err::<(), ConsensusError>(
                ConsensusError::OtherHeight(pre.height(), ConsensusMessage::Vote(vote)),
            )
        } else {
        match vote_at(pre.table(vote.vote_type), vote.round, vote.voter) {
            Some(o) => {
                &&& *post == *pre
                &&& if o.block_hash == vote.block_hash {
                    r is Ok
                } else {
                    r == Err::<(), ConsensusError>(
                        ConsensusError::Equivocation(
                            pre.height(),
                            ConsensusMessage::Vote(o),
                            ConsensusMessage::Vote(vote),
                        ),
                    )
                }
            },
            None => {
                &&& r is Ok
                &&& pre.tables_after(vote.vote_type, vote, post)
                &&& post.proposals() == pre.proposals()
                &&& post.building() == pre.building()
                &&& pre.fed(Self::vote_event(vote), post)
            },
        }
        }
    }
    /// The outcome of checking a proposal's announcement against the height
    /// and the expected proposer.
    pub open spec fn init_outcome(
        height: BlockNumber,
        init: ProposalInit,
        proposer: ValidatorId,
    ) -> Result<(), ConsensusError> {
        if init.height != height {
            Err(
                ConsensusError::InvalidProposal(
                    proposer,
                    height,
                    ProposalFault::WrongHeight(height, init.height),
                ),
            )
        } else if init.proposer != proposer {
            Err(
                ConsensusError::InvalidProposal(
                    proposer,
                    height,
                    ProposalFault::WrongProposer(proposer, init.proposer),
                ),
            )
        } else {
            Ok(())
        }
    }

    /// This node casts a vote of type `t` for `h` in round `r`, unless it already has one.
    pub open spec fn own_vote_step(
        pre: &Self,
        post: &Self,
        t: VoteType,
        h: Option<BlockHash>,
        r: Round,
        a: &ShcAction<B>,
    ) -> bool {
        let v = Vote { vote_type: t, height: pre.height(), round: r, block_hash: h, voter: pre.id() };
        match vote_at(pre.table(t), r, pre.id()) {
            Some(o) => *a == ShcAction::<B>::Halt(Violation::RepeatVote(o, v)),
            None => {
                &&& *a == ShcAction::<B>::Broadcast(v)
                &&& pre.tables_after(t, v, post)
                &&& post.pending() == skip_quiet(pre.pending()).drop_first()
                &&& post.machine() == pre.machine()
                &&& post.proposals() == pre.proposals()
                &&& post.building() == pre.building()
                &&& post.decided() == pre.decided()
            },
        }
    }

    /// The height is decided for `h` in round `r`, if the records bear it out.
    pub open spec fn decision_step(pre: &Self, post: &Self, h: BlockHash, r: Round, a: &ShcAction<B>) -> bool {
        let i = proposal_index(pre.proposals(), r);
        let sup = supporting(pre.precommits(), pre.validators(), r, h);
        if i == -1 {
            *a == ShcAction::<B>::Halt(Violation::UnknownDecision(h, r))
        } else if pre.proposals()[i].1 != h {
            *a == ShcAction::<B>::Halt(Violation::StoredBlockMismatch(pre.proposals()[i].1, h))
        } else if sup.len() < pre.machine().quorum {
            *a == ShcAction::<B>::Halt(Violation::NoQuorum(sup.len() as usize, pre.machine().quorum as u64))
        } else {
            &&& *a is Decided
            &&& a->Decided_0.precommits@ == sup
            &&& a->Decided_0.block == pre.proposals()[i].2
            &&& post.proposals() == pre.proposals().remove(i)
            &&& post.decided()
            &&& post.pending() == Seq::<StateMachineEvent>::empty()
            &&& post.prevotes() == pre.prevotes()
            &&& post.precommits() == pre.precommits()
        }
    }

    /// What handling the queued events does, up to the first that needs the driver.
    pub open spec fn events_step(pre: &Self, post: &Self, a: &ShcAction<B>) -> bool {
        let q = skip_quiet(pre.pending());
        if q.len() == 0 {
            &&& *a is Idle
            &&& post.pending() == Seq::<StateMachineEvent>::empty()
            &&& post.machine() == pre.machine()
            &&& post.proposals() == pre.proposals()
            &&& post.prevotes() == pre.prevotes()
            &&& post.precommits() == pre.precommits()
            &&& post.building() == pre.building()
            &&& post.decided() == pre.decided()
        } else {
            match q[0] {
                StateMachineEvent::GetProposal(_, r) => if proposal_index(pre.proposals(), r) != -1 {
                    *a == ShcAction::<B>::Halt(Violation::DuplicateProposal(r))
                } else {
                    &&& *a == ShcAction::<B>::BuildProposal(r)
                    &&& post.building() == Some(r)
                    &&& post.pending() == q.drop_first()
                    &&& post.machine() == pre.machine()
                    &&& post.proposals() == pre.proposals()
                    &&& post.prevotes() == pre.prevotes()
                    &&& post.precommits() == pre.precommits()
                    &&& post.decided() == pre.decided()
                },
                StateMachineEvent::Prevote(h, r) => Self::own_vote_step(pre, post, VoteType::Prevote, h, r, a),
                StateMachineEvent::Precommit(h, r) => Self::own_vote_step(pre, post, VoteType::Precommit, h, r, a),
                StateMachineEvent::Decision(h, r) => Self::decision_step(pre, post, h, r, a),
                StateMachineEvent::Proposal(_, _) => false,
            }
        }
    }
}

fn find_vote(table: &Vec<Vote>, r: Round, voter: ValidatorId) -> (res: Option<Vote>)
    ensures
        res == vote_at(table@, r, voter),
{
    let mut res: Option<Vote> = None;
    let mut i: usize = 0;
    while i < table.len()
        invariant
            i <= table.len(),
            res == vote_at(table@.take(i as int), r, voter),
        decreases table.len() - i,
    {
        assert(table@.take(i + 1).drop_last() =~= table@.take(i as int));
        if table[i].round == r && table[i].voter == voter {
            res = Some(table[i]);
        }
        i = i + 1;
    }
    assert(table@.take(i as int) =~= table@);
    res
}

proof fn lemma_proposal_index_range<B>(s: Seq<(Round, BlockHash, B)>, r: Round)
    ensures
        -1 <= proposal_index(s, r) < s.len(),
        proposal_index(s, r) >= 0 ==> s[proposal_index(s, r)].0 == r,
    decreases s.len(),
{
    if s.len() > 0 {
        lemma_proposal_index_range(s.drop_last(), r);
    }
}

fn find_proposal<B>(props: &Vec<(Round, BlockHash, B)>, r: Round) -> (res: Option<usize>)
    ensures
        match res {
            Some(i) => i == proposal_index(props@, r) && i < props@.len() && props@[i as int].0 == r,
            None => proposal_index(props@, r) == -1,
        },
{
    let mut res: Option<usize> = None;
    let mut i: usize = 0;
    while i < props.len()
        invariant
            i <= props.len(),
            match res {
                Some(j) => j == proposal_index(props@.take(i as int), r) && j < i,
                None => proposal_index(props@.take(i as int), r) == -1,
            },
        decreases props.len() - i,
    {
        assert(props@.take(i + 1).drop_last() =~= props@.take(i as int));
        if props[i].0 == r {
            res = Some(i);
        }
        i = i + 1;
    }
    assert(props@.take(i as int) =~= props@);
    proof {
        lemma_proposal_index_range(props@, r);
    }
    res
}

fn collect_supporting(table: &Vec<Vote>, vals: &Vec<ValidatorId>, r: Round, h: BlockHash) -> (res: Vec<Vote>)
    ensures
        res@ == supporting(table@, vals@, r, h),
{
    let mut res: Vec<Vote> = Vec::new();
    let mut i: usize = 0;
    while i < vals.len()
        invariant
            i <= vals.len(),
            res@ == supporting(table@, vals@.take(i as int), r, h),
        decreases vals.len() - i,
    {
        assert(vals@.take(i + 1).drop_last() =~= vals@.take(i as int));
        match find_vote(table, r, vals[i]) {
            Some(v) => {
                if same_hash(v.block_hash, Some(h)) {
                    res.push(v);
                }
            },
            None => {},
        }
        i = i + 1;
    }
    assert(vals@.take(i as int) =~= vals@);
    res
}

/// Whether `q` asks this node for proposal content.
pub open spec fn has_request(q: Seq<StateMachineEvent>) -> bool {
    exists|i: int| 0 <= i < q.len() && q[i] is GetProposal
}

proof fn lemma_cons(x: StateMachineEvent, q: Seq<StateMachineEvent>)
    ensures
        has_decision(seq![x] + q) == (x is Decision || has_decision(q)),
        has_request(seq![x] + q) == (x is GetProposal || has_request(q)),
{
    let c = seq![x] + q;
    assert(c[0] == x);
    assert forall|i: int| 0 <= i < q.len() implies c[i + 1] == q[i] by {}
    if has_decision(c) {
        let i = choose|i: int| 0 <= i < c.len() && c[i] is Decision;
        if i > 0 {
            assert(q[i - 1] is Decision);
        }
    }
    if has_request(c) {
        let i = choose|i: int| 0 <= i < c.len() && c[i] is GetProposal;
        if i > 0 {
            assert(q[i - 1] is GetProposal);
        }
    }
    if has_decision(q) {
        let i = choose|i: int| 0 <= i < q.len() && q[i] is Decision;
        assert(c[i + 1] is Decision);
    }
    if has_request(q) {
        let i = choose|i: int| 0 <= i < q.len() && q[i] is GetProposal;
        assert(c[i + 1] is GetProposal);
    }
}

/// The state machine decides at most once, never asks for proposal content
/// after it started, and keeps its identity.
proof fn lemma_next_decision(s: RoundState, e: StateMachineEvent)
    ensures
        s.decided ==> s.next(e).0.decided && !has_decision(s.next(e).1),
        s.next(e).0.id == s.id,
        has_decision(s.next(e).1) ==> s.next(e).0.decided,
        !has_request(s.next(e).1),
        !s.decided && s.next(e).0.decided ==> has_decision(s.next(e).1),
{
    assert forall|t: RoundState, h: Option<BlockHash>, r: Round|
        #![trigger t.on_precommit(h, r)]
        (t.decided ==> t.on_precommit(h, r).0.decided && !has_decision(t.on_precommit(h, r).1))
            && (has_decision(t.on_precommit(h, r).1) ==> t.on_precommit(h, r).0.decided)
            && (!t.decided && t.on_precommit(h, r).0.decided ==> has_decision(t.on_precommit(h, r).1))
            && !has_request(t.on_precommit(h, r).1) by {
        lemma_cons(StateMachineEvent::Decision(h->0, r), seq![]);
        assert(seq![StateMachineEvent::Decision(h->0, r)] =~= seq![StateMachineEvent::Decision(h->0, r)]
            + Seq::<StateMachineEvent>::empty());
    }
    assert forall|t: RoundState, h: Option<BlockHash>, r: Round|
        #![trigger t.on_prevote(h, r)]
        (t.decided ==> t.on_prevote(h, r).0.decided && !has_decision(t.on_prevote(h, r).1))
            && (has_decision(t.on_prevote(h, r).1) ==> t.on_prevote(h, r).0.decided)
            && (!t.decided && t.on_prevote(h, r).0.decided ==> has_decision(t.on_prevote(h, r).1))
            && !has_request(t.on_prevote(h, r).1) by {
        let s2 = RoundState { prevotes: t.prevotes.push((r, h)), ..t };
        lemma_cons(StateMachineEvent::Precommit(h, r), RoundState { step: Step::Precommit, ..s2 }.on_precommit(h, r).1);
    }
    assert forall|t: RoundState, h: Option<BlockHash>, r: Round|
        #![trigger t.on_proposal(h, r)]
        (t.decided ==> t.on_proposal(h, r).0.decided && !has_decision(t.on_proposal(h, r).1))
            && (has_decision(t.on_proposal(h, r).1) ==> t.on_proposal(h, r).0.decided)
            && (!t.decided && t.on_proposal(h, r).0.decided ==> has_decision(t.on_proposal(h, r).1))
            && !has_request(t.on_proposal(h, r).1) by {
        lemma_cons(StateMachineEvent::Prevote(h, r), RoundState { step: Step::Prevote, ..t }.on_prevote(h, r).1);
    }
    if let StateMachineEvent::GetProposal(h, r) = e {
        lemma_cons(StateMachineEvent::Proposal(Some(h->0), r), s.on_proposal(Some(h->0), r).1);
    }
}

proof fn lemma_has_decision_concat(a: Seq<StateMachineEvent>, b: Seq<StateMachineEvent>)
    ensures
        has_decision(a + b) == (has_decision(a) || has_decision(b)),
{
    if has_decision(a + b) {
        let i = choose|i: int| 0 <= i < (a + b).len() && (a + b)[i] is Decision;
        if i >= a.len() {
            assert(b[i - a.len()] is Decision);
        }
    }
    if has_decision(b) {
        let i = choose|i: int| 0 <= i < b.len() && b[i] is Decision;
        assert((a + b)[a.len() + i] is Decision);
    }
    if has_decision(a) {
        let i = choose|i: int| 0 <= i < a.len() && a[i] is Decision;
        assert((a + b)[i] is Decision);
    }
}

proof fn lemma_drop_first_decision(q: Seq<StateMachineEvent>)
    requires
        q.len() > 0,
    ensures
        has_decision(q.drop_first()) ==> has_decision(q),
        q[0] is Decision ==> has_decision(q),
        !(q[0] is Decision) && has_decision(q) ==> has_decision(q.drop_first()),
        forall|r: Round, h: Option<BlockHash>|
            #[trigger] queued_precommits(q, r, h) == queued_precommits(q.drop_first(), r, h) + if q[0]
                == StateMachineEvent::Precommit(h, r) {
                1nat
            } else {
                0nat
            },
{
    if has_decision(q.drop_first()) {
        let i = choose|i: int| 0 <= i < q.drop_first().len() && q.drop_first()[i] is Decision;
        assert(q[i + 1] is Decision);
    }
    if !(q[0] is Decision) && has_decision(q) {
        let i = choose|i: int| 0 <= i < q.len() && q[i] is Decision;
        assert(q.drop_first()[i - 1] is Decision);
    }
    assert(q =~= seq![q[0]] + q.drop_first());
    assert forall|r: Round, h: Option<BlockHash>|
        #[trigger] queued_precommits(q, r, h) == queued_precommits(q.drop_first(), r, h) + if q[0]
            == StateMachineEvent::Precommit(h, r) {
            1nat
        } else {
            0nat
        } by {
        lemma_queued_concat(seq![q[0]], q.drop_first(), r, h);
        lemma_queued_single(q[0], r, h);
    }
}

proof fn lemma_table_count_push(t: Seq<Vote>, v: Vote, r: Round, h: Option<BlockHash>)
    ensures
        table_count(t.push(v), r, h) == table_count(t, r, h) + if v.round == r && v.block_hash == h {
            1nat
        } else {
            0nat
        },
{
    assert(t.push(v).drop_last() =~= t);
}

proof fn lemma_skip_quiet_decision(q: Seq<StateMachineEvent>)
    ensures
        has_decision(skip_quiet(q)) ==> has_decision(q),
    decreases q.len(),
{
    if q.len() > 0 && is_quiet(q[0]) {
        lemma_skip_quiet_decision(q.drop_first());
        lemma_drop_first_decision(q);
    }
}

fn quiet(e: &StateMachineEvent) -> (r: bool)
    ensures
        r == is_quiet(*e),
{
    match e {
        StateMachineEvent::Proposal(_, _) => true,
        _ => false,
    }
}

impl<B: ConsensusBlock> SingleHeightConsensus<B> {
    /// A coordinator for `height`, run by validator `id` among `validators`;
    /// the quorum is more than two thirds of the number of validators.
    pub fn new(height: BlockNumber, id: ValidatorId, validators: Vec<ValidatorId>) -> (s: Self)
        requires
            validators@.no_duplicates(),
        ensures
            s.wf(),
            s.height() == height,
            s.id() == id,
            s.validators() == validators@,
            s.machine() == (RoundState {
                id,
                round: 0,
                step: Step::Propose,
                quorum: quorum_of(validators@.len()),
                decided: false,
                prevotes: seq![],
                precommits: seq![],
            }),
            s.proposals() == Seq::<(Round, BlockHash, B)>::empty(),
            s.prevotes() == Seq::<Vote>::empty(),
            s.precommits() == Seq::<Vote>::empty(),
            s.pending() == Seq::<StateMachineEvent>::empty(),
            s.building() is None,
            !s.decided(),
            !s.halted(),
    {
        let state_machine = StateMachine::new(id, validators.len() as u64);
        let s = SingleHeightConsensus {
            height,
            validators,
            id,
            state_machine,
            proposals: Vec::new(),
            prevotes: Vec::new(),
            precommits: Vec::new(),
            events: Vec::new(),
            building: None,
            decided: false,
            halted: false,
        };
        assert(s.proposals@ =~= Seq::<(Round, BlockHash, B)>::empty());
        s
    }

    fn feed(&mut self, e: StateMachineEvent)
        requires
            old(self).core_ok(),
            old(self).counts_ok(precommit_key(e)),
            is_inbound(e),
        ensures
            final(self).wf(),
            old(self).fed(e, final(self)),
            final(self).proposals() == old(self).proposals(),
            final(self).prevotes() == old(self).prevotes(),
            final(self).precommits() == old(self).precommits(),
            final(self).building() == old(self).building(),
            final(self).halted() == old(self).halted(),
    {
        let ghost s0 = self.state_machine@;
        let ghost q0 = self.events@;
        let mut out = self.state_machine.handle_event(e);
        let ghost o = out@;
        self.events.append(&mut out);
        proof {
            lemma_next_decision(s0, e);
            lemma_has_decision_concat(q0, o);
            lemma_next_counts(s0, e, 0, None);
            if !self.decided && !self.halted {
                assert forall|r: Round, h: Option<BlockHash>|
                    #[trigger] count_votes(self.state_machine@.precommits, r, h) + (if None::<VoteKey> == Some((r, h)) {
                        1nat
                    } else {
                        0nat
                    }) == table_count(self.precommits@, r, h) + queued_precommits(self.events@, r, h) by {
                    lemma_next_counts(s0, e, r, h);
                    lemma_queued_concat(q0, o, r, h);
                }
            }
        }
    }

    /// Begin the height: round zero starts, and this node is asked for a
    /// proposal when it is the round's `leader`.
    pub fn start(&mut self, leader: ValidatorId)
        requires
            old(self).wf(),
        ensures
            final(self).wf(),
            final(self).machine() == (RoundState { round: 0, step: Step::Propose, ..old(self).machine() }),
            final(self).pending() == old(self).pending() + if old(self).id() == leader {
                seq![StateMachineEvent::GetProposal(None, 0)]
            } else {
                Seq::<StateMachineEvent>::empty()
            },
            final(self).height() == old(self).height(),
            final(self).validators() == old(self).validators(),
            final(self).id() == old(self).id(),
            final(self).proposals() == old(self).proposals(),
            final(self).prevotes() == old(self).prevotes(),
            final(self).precommits() == old(self).precommits(),
            final(self).building() == old(self).building(),
            final(self).decided() == old(self).decided(),
    {
        let ghost q0 = self.events@;
        let mut out = self.state_machine.start(leader);
        let ghost o = out@;
        self.events.append(&mut out);
        proof {
            lemma_has_decision_concat(q0, o);
            assert forall|r: Round, h: Option<BlockHash>|
                #[trigger] queued_precommits(self.events@, r, h) == queued_precommits(q0, r, h) by {
                lemma_queued_concat(q0, o, r, h);
                if o.len() > 0 {
                    lemma_queued_single(o[0], r, h);
                    assert(o =~= seq![o[0]]);
                } else {
                    assert(queued_precommits(o, r, h) == 0);
                }
            }
            assert(o =~= if old(self).id() == leader {
                seq![StateMachineEvent::GetProposal(None, 0)]
            } else {
                Seq::<StateMachineEvent>::empty()
            });
        }
    }

    /// Check a proposal's announcement before any of its content is read:
    /// it must be for this height and come from the expected `proposer`.
    pub fn validate_proposal_init(&self, init: &ProposalInit, proposer: ValidatorId) -> (r: Result<(), ConsensusError>)
        ensures
            r == Self::init_outcome(self.height(), *init, proposer),
    {
        if init.height != self.height {
            return Err(
                ConsensusError::InvalidProposal(
                    proposer,
                    self.height,
                    ProposalFault::WrongHeight(self.height, init.height),
                ),
            );
        }
        if init.proposer != proposer {
            return Err(
                ConsensusError::InvalidProposal(
                    proposer,
                    self.height,
                    ProposalFault::WrongProposer(proposer, init.proposer),
                ),
            );
        }
        Ok(())
    }

    /// Accept a peer's proposal for round zero, whose content was assembled into
    /// `block` and whose proposer closed it with `fin`. The announcement is
    /// checked first; a second proposal for the round is refused; the block's id
    /// must equal `fin`. An accepted proposal is fed to the state machine.
    pub fn handle_proposal(
        &mut self,
        init: ProposalInit,
        proposer: ValidatorId,
        block: B,
        fin: BlockHash,
    ) -> (r: Result<(), ConsensusError>)
        requires
            old(self).wf(),
        ensures
            final(self).wf(),
            Self::init_outcome(old(self).height(), init, proposer) is Err ==> r == Self::init_outcome(
                old(self).height(),
                init,
                proposer,
            ) && *final(self) == *old(self),
            Self::init_outcome(old(self).height(), init, proposer) is Ok && (proposal_index(
                old(self).proposals(),
                ROUND_ZERO,
            ) != -1 || old(self).building() == Some(ROUND_ZERO)) ==> r == Err::<(), ConsensusError>(
                ConsensusError::InvalidProposal(proposer, old(self).height(), ProposalFault::Duplicate),
            ) && *final(self) == *old(self),
            Self::init_outcome(old(self).height(), init, proposer) is Ok && proposal_index(
                old(self).proposals(),
                ROUND_ZERO,
            ) == -1 && old(self).building() != Some(ROUND_ZERO) ==> match r {
                Ok(_) => {
                    &&& final(self).proposals() == old(self).proposals().push((ROUND_ZERO, fin, block))
                    &&& final(self).prevotes() == old(self).prevotes()
                    &&& final(self).precommits() == old(self).precommits()
                    &&& final(self).building() == old(self).building()
                    &&& old(self).fed(StateMachineEvent::Proposal(Some(fin), ROUND_ZERO), final(self))
                },
                Err(e) => {
                    &&& e is InvalidProposal
                    &&& e->InvalidProposal_0 == proposer
                    &&& e->InvalidProposal_1 == old(self).height()
                    &&& e->InvalidProposal_2 is HashMismatch
                    &&& e->InvalidProposal_2->HashMismatch_0 != fin
                    &&& e->InvalidProposal_2->HashMismatch_1 == fin
                    &&& *final(self) == *old(self)
                },
            },
    {
        let id = block.id();
        self.accept_proposal(init, proposer, block, id, fin)
    }

    /// Accept a peer's proposal for round zero: `block`, whose id is `id`,
    /// closed by its proposer with `fin`. The announcement is checked first; a
    /// second proposal for the round is refused; `id` must equal `fin`. An
    /// accepted proposal is recorded and fed to the state machine.
    pub fn accept_proposal(
        &mut self,
        init: ProposalInit,
        proposer: ValidatorId,
        block: B,
        id: BlockHash,
        fin: BlockHash,
    ) -> (r: Result<(), ConsensusError>)
        requires
            old(self).wf(),
        ensures
            final(self).wf(),
            Self::init_outcome(old(self).height(), init, proposer) is Err ==> r == Self::init_outcome(
                old(self).height(),
                init,
                proposer,
            ) && *final(self) == *old(self),
            Self::init_outcome(old(self).height(), init, proposer) is Ok && (proposal_index(
                old(self).proposals(),
                ROUND_ZERO,
            ) != -1 || old(self).building() == Some(ROUND_ZERO)) ==> r == Err::<(), ConsensusError>(
                ConsensusError::InvalidProposal(proposer, old(self).height(), ProposalFault::Duplicate),
            ) && *final(self) == *old(self),
            Self::init_outcome(old(self).height(), init, proposer) is Ok && proposal_index(
                old(self).proposals(),
                ROUND_ZERO,
            ) == -1 && old(self).building() != Some(ROUND_ZERO) ==> if id == fin {
                &&& r is Ok
                &&& final(self).proposals() == old(self).proposals().push((ROUND_ZERO, fin, block))
                &&& final(self).prevotes() == old(self).prevotes()
                &&& final(self).precommits() == old(self).precommits()
                &&& final(self).building() == old(self).building()
                &&& old(self).fed(StateMachineEvent::Proposal(Some(fin), ROUND_ZERO), final(self))
            } else {
                &&& r == Err::<(), ConsensusError>(
                    ConsensusError::InvalidProposal(
                        proposer,
                        old(self).height(),
                        ProposalFault::HashMismatch(id, fin),
                    ),
                )
                &&& *final(self) == *old(self)
            },
    {
        match self.validate_proposal_init(&init, proposer) {
            Err(e) => {
                return Err(e);
            },
            Ok(()) => {},
        }
        let dup = match find_proposal(&self.proposals, ROUND_ZERO) {
            Some(_) => true,
            None => match self.building {
                Some(b) => b == ROUND_ZERO,
                None => false,
            },
        };
        if dup {
            return Err(ConsensusError::InvalidProposal(proposer, self.height, ProposalFault::Duplicate));
        }
        if id != fin {
            return Err(
                ConsensusError::InvalidProposal(proposer, self.height, ProposalFault::HashMismatch(id, fin)),
            );
        }
        let ghost p0 = self.proposals@;
        self.proposals.push((ROUND_ZERO, id, block));
        proof {
            assert(self.proposals@.drop_last() =~= p0);
        }
        self.feed(StateMachineEvent::Proposal(Some(id), ROUND_ZERO));
        Ok(())
    }

    /// Record the block that this node built for the round it was asked to
    /// propose in, and feed its id to the state machine. Returns the id, with
    /// which the driver closes the announced proposal.
    pub fn handle_built_proposal(&mut self, block: B) -> (id: BlockHash)
        requires
            old(self).wf(),
            old(self).building() is Some,
        ensures
            final(self).wf(),
            final(self).proposals() == old(self).proposals().push((old(self).building()->0, id, block)),
            final(self).building() is None,
            final(self).prevotes() == old(self).prevotes(),
            final(self).precommits() == old(self).precommits(),
            old(self).fed(StateMachineEvent::GetProposal(Some(id), old(self).building()->0), final(self)),
    {
        let id = block.id();
        self.accept_built_proposal(block, id);
        id
    }

    /// Record `block`, whose id is `id`, as this node's proposal for the round
    /// it was asked to propose in, and feed the id to the state machine.
    pub fn accept_built_proposal(&mut self, block: B, id: BlockHash)
        requires
            old(self).wf(),
            old(self).building() is Some,
        ensures
            final(self).wf(),
            final(self).proposals() == old(self).proposals().push((old(self).building()->0, id, block)),
            final(self).building() is None,
            final(self).prevotes() == old(self).prevotes(),
            final(self).precommits() == old(self).precommits(),
            old(self).fed(StateMachineEvent::GetProposal(Some(id), old(self).building()->0), final(self)),
    {
        let r = match self.building {
            Some(r) => r,
            None => 0,
        };
        self.proposals.push((r, id, block));
        self.building = None;
        self.feed(StateMachineEvent::GetProposal(Some(id), r));
    }

    /// Record a peer's vote and feed it to the state machine. A vote for another
    /// height is refused. A repeat of a recorded vote changes nothing; a vote
    /// that differs from the recorded one of its key and type is equivocation.
    pub fn handle_vote(&mut self, vote: Vote) -> (r: Result<(), ConsensusError>)
        requires
            old(self).wf(),
        ensures
            final(self).wf(),
            Self::vote_step(old(self), final(self), vote, r),
    {
        if vote.height != self.height {
            return Err(ConsensusError::OtherHeight(self.height, ConsensusMessage::Vote(vote)));
        }
        let found = match vote.vote_type {
            VoteType::Prevote => find_vote(&self.prevotes, vote.round, vote.voter),
            VoteType::Precommit => find_vote(&self.precommits, vote.round, vote.voter),
        };
        match found {
            Some(o) => {
                if same_hash(o.block_hash, vote.block_hash) {
                    Ok(())
                } else {
                    Err(
                        ConsensusError::Equivocation(
                            self.height,
                            ConsensusMessage::Vote(o),
                            ConsensusMessage::Vote(vote),
                        ),
                    )
                }
            },
            None => {
                proof {
                    lemma_vote_at(self.prevotes@, vote.round, vote.voter);
                    lemma_vote_at(self.precommits@, vote.round, vote.voter);
                }
                let e = match vote.vote_type {
                    VoteType::Prevote => {
                        self.prevotes.push(vote);
                        StateMachineEvent::Prevote(vote.block_hash, vote.round)
                    },
                    VoteType::Precommit => {
                        let ghost t0 = self.precommits@;
                        self.precommits.push(vote);
                        proof {
                            if !self.decided && !self.halted {
                                assert forall|r: Round, h: Option<BlockHash>|
                                    #[trigger] count_votes(self.state_machine@.precommits, r, h) + (if Some(
                                        (vote.round, vote.block_hash),
                                    ) == Some((r, h)) {
                                        1nat
                                    } else {
                                        0nat
                                    }) == table_count(self.precommits@, r, h) + queued_precommits(
                                        self.events@,
                                        r,
                                        h,
                                    ) by {
                                    lemma_table_count_push(t0, vote, r, h);
                                }
                            }
                        }
                        StateMachineEvent::Precommit(vote.block_hash, vote.round)
                    },
                };
                self.feed(e);
                Ok(())
            },
        }
    }

    /// Handle a message from a peer. Proposals travel through
    /// `handle_proposal` and are not accepted here.
    pub fn handle_message(&mut self, message: ConsensusMessage) -> (r: Result<(), ConsensusError>)
        requires
            old(self).wf(),
            message is Vote,
        ensures
            final(self).wf(),
            Self::vote_step(old(self), final(self), message->Vote_0, r),
    {
        match message {
            ConsensusMessage::Vote(vote) => self.handle_vote(vote),
            ConsensusMessage::Proposal(_) => Ok(()),
        }
    }

    fn cast_own_vote(&mut self, t: VoteType, h: Option<BlockHash>, r: Round) -> (res: Result<Vote, Violation>)
        ensures
            old(self).tables_typed() ==> final(self).tables_typed(),
            ({
                let v = Vote { vote_type: t, height: old(self).height(), round: r, block_hash: h, voter: old(self).id() };
                match vote_at(old(self).table(t), r, old(self).id()) {
                    Some(o) => res == Err::<Vote, Violation>(Violation::RepeatVote(o, v)) && *final(self) == *old(self),
                    None => {
                        &&& res == Ok::<Vote, Violation>(v)
                        &&& old(self).tables_after(t, v, final(self))
                        &&& final(self).events == old(self).events
                        &&& final(self).state_machine == old(self).state_machine
                        &&& final(self).proposals == old(self).proposals
                        &&& final(self).building == old(self).building
                        &&& final(self).decided == old(self).decided
                        &&& final(self).halted == old(self).halted
                        &&& final(self).height == old(self).height
                        &&& final(self).id == old(self).id
                        &&& final(self).validators == old(self).validators
                    },
                }
            }),
    {
        let v = Vote { vote_type: t, height: self.height, round: r, block_hash: h, voter: self.id };
        let found = match t {
            VoteType::Prevote => find_vote(&self.prevotes, r, self.id),
            VoteType::Precommit => find_vote(&self.precommits, r, self.id),
        };
        match found {
            Some(o) => Err(Violation::RepeatVote(o, v)),
            None => {
                proof {
                    lemma_vote_at(self.prevotes@, r, self.id);
                    lemma_vote_at(self.precommits@, r, self.id);
                }
                match t {
                    VoteType::Prevote => self.prevotes.push(v),
                    VoteType::Precommit => self.precommits.push(v),
                }
                Ok(v)
            },
        }
    }

    fn decide(&mut self, h: BlockHash, r: Round) -> (a: ShcAction<B>)
        requires
            old(self).building matches Some(b) ==> proposal_index(old(self).proposals@, b) == -1,
            old(self).state_machine@.id == old(self).id,
            old(self).tables_typed(),
            old(self).round_zero(),
            old(self).state_machine@.decided,
            !old(self).decided,
            old(self).events@.len() == 0,
        ensures
            final(self).wf(),
            Self::decision_step(old(self), final(self), h, r, &a),
            final(self).decided ==> a is Decided,
            final(self).height == old(self).height,
            final(self).validators == old(self).validators,
            final(self).id == old(self).id,
    {
        match find_proposal(&self.proposals, r) {
            None => {
                self.halted = true;
                ShcAction::Halt(Violation::UnknownDecision(h, r))
            },
            Some(i) => {
                let stored = self.proposals[i].1;
                if stored != h {
                    self.halted = true;
                    return ShcAction::Halt(Violation::StoredBlockMismatch(stored, h));
                }
                let sup = collect_supporting(&self.precommits, &self.validators, r, h);
                let q = self.state_machine.quorum_size();
                if (sup.len() as u64) < q {
                    self.halted = true;
                    return ShcAction::Halt(Violation::NoQuorum(sup.len(), q));
                }
                let p = self.proposals.remove(i);
                assert(self.events@ =~= Seq::<StateMachineEvent>::empty());
                self.decided = true;
                self.building = None;
                ShcAction::Decided(Decision { precommits: sup, block: p.2 })
            },
        }
    }

    /// Handle the queued state machine events in order until one needs the
    /// driver: a proposal to build, a vote of this node's to broadcast, or the
    /// decision. Proposal events are passed over. A decision ends the height
    /// and drops what is still queued; it comes at most once.
    pub fn handle_state_machine_events(&mut self) -> (a: ShcAction<B>)
        requires
            old(self).wf(),
        ensures
            final(self).wf(),
            Self::events_step(old(self), final(self), &a),
            final(self).height() == old(self).height(),
            final(self).validators() == old(self).validators(),
            final(self).id() == old(self).id(),
            old(self).decided() ==> final(self).decided() && !(a is Decided),
            a is Decided ==> final(self).decided(),
    {
        let ghost q0 = self.events@;
        while self.events.len() > 0 && quiet(&self.events[0])
            invariant
                self.wf(),
                skip_quiet(self.events@) == skip_quiet(q0),
                self.state_machine == old(self).state_machine,
                self.proposals == old(self).proposals,
                self.prevotes == old(self).prevotes,
                self.precommits == old(self).precommits,
                self.building == old(self).building,
                self.decided == old(self).decided,
                self.halted == old(self).halted,
                self.height == old(self).height,
                self.id == old(self).id,
                self.validators == old(self).validators,
            decreases self.events.len(),
        {
            let ghost q = self.events@;
            self.events.remove(0);
            proof {
                assert(self.events@ =~= q.drop_first());
                lemma_drop_first_decision(q);
            }
        }
        proof {
            lemma_skip_quiet_decision(q0);
        }
        if self.events.len() == 0 {
            assert(self.events@ =~= Seq::<StateMachineEvent>::empty());
            return ShcAction::Idle;
        }
        let ghost q = self.events@;
        let e = self.events.remove(0);
        proof {
            assert(self.events@ =~= q.drop_first());
            lemma_drop_first_decision(q);
        }
        match e {
            StateMachineEvent::GetProposal(_, r) => {
                match find_proposal(&self.proposals, r) {
                    Some(_) => {
                        self.halted = true;
                        ShcAction::Halt(Violation::DuplicateProposal(r))
                    },
                    None => {
                        self.building = Some(r);
                        ShcAction::BuildProposal(r)
                    },
                }
            },
            StateMachineEvent::Prevote(h, r) => match self.cast_own_vote(VoteType::Prevote, h, r) {
                Ok(v) => ShcAction::Broadcast(v),
                Err(x) => {
                    self.halted = true;
                    ShcAction::Halt(x)
                },
            },
            StateMachineEvent::Precommit(h, r) => {
                let ghost t0 = self.precommits@;
                match self.cast_own_vote(VoteType::Precommit, h, r) {
                    Ok(v) => {
                        proof {
                            if !self.decided && !self.halted {
                                assert forall|r2: Round, h2: Option<BlockHash>|
                                    #[trigger] count_votes(self.state_machine@.precommits, r2, h2) + (if None::<
                                        VoteKey,
                                    > == Some((r2, h2)) {
                                        1nat
                                    } else {
                                        0nat
                                    }) == table_count(self.precommits@, r2, h2) + queued_precommits(
                                        self.events@,
                                        r2,
                                        h2,
                                    ) by {
                                    lemma_table_count_push(t0, v, r2, h2);
                                }
                            }
                        }
                        ShcAction::Broadcast(v)
                    },
                    Err(x) => {
                        self.halted = true;
                        ShcAction::Halt(x)
                    },
                }
            },
            StateMachineEvent::Decision(h, r) => {
                self.events.clear();
                self.decide(h, r)
            },
            StateMachineEvent::Proposal(_, _) => ShcAction::Idle,
        }
    }
}


proof fn lemma_vote_at(s: Seq<Vote>, r: Round, voter: ValidatorId)
    ensures
        vote_at(s, r, voter) matches Some(v) ==> v.round == r && v.voter == voter && s.contains(v),
        vote_at(s, r, voter) is None ==> forall|i: int|
            0 <= i < s.len() ==> !((#[trigger] s[i]).round == r && s[i].voter == voter),
    decreases s.len(),
{
    if s.len() > 0 {
        lemma_vote_at(s.drop_last(), r, voter);
        if vote_at(s, r, voter) is None {
            assert forall|i: int| 0 <= i < s.len() implies !((#[trigger] s[i]).round == r && s[i].voter == voter) by {
                if i < s.len() - 1 {
                    assert(s[i] == s.drop_last()[i]);
                }
            }
        }
        match vote_at(s.drop_last(), r, voter) {
            Some(v) => {
                let k = choose|k: int| 0 <= k < s.drop_last().len() && s.drop_last()[k] == v;
                assert(s[k] == v);
            },
            None => {},
        }
        assert(s[s.len() - 1] == s.last());
    }
}

/// Every supporting precommit is a vote for `h` in round `r` by a validator of `vals`.
pub proof fn lemma_supporting(table: Seq<Vote>, vals: Seq<ValidatorId>, r: Round, h: BlockHash)
    ensures
        forall|j: int|
            0 <= j < supporting(table, vals, r, h).len() ==> {
                let v = #[trigger] supporting(table, vals, r, h)[j];
                &&& v.block_hash == Some(h)
                &&& v.round == r
                &&& vals.contains(v.voter)
                &&& table.contains(v)
            },
        vals.no_duplicates() ==> forall|j: int, k: int|
            0 <= j < k < supporting(table, vals, r, h).len() ==> (#[trigger] supporting(table, vals, r, h)[j]).voter
                != (#[trigger] supporting(table, vals, r, h)[k]).voter,
    decreases vals.len(),
{
    if vals.len() > 0 {
        assert(vals.no_duplicates() ==> vals.drop_last().no_duplicates());
        lemma_supporting(table, vals.drop_last(), r, h);
        lemma_vote_at(table, r, vals.last());
        let rest = supporting(table, vals.drop_last(), r, h);
        assert forall|j: int| 0 <= j < rest.len() implies vals.contains(#[trigger] rest[j].voter) by {
            let k = choose|k: int| 0 <= k < vals.drop_last().len() && vals.drop_last()[k] == rest[j].voter;
            assert(vals[k] == rest[j].voter);
        }
        assert(vals[vals.len() - 1] == vals.last());
        if vals.no_duplicates() {
            assert forall|j: int| 0 <= j < rest.len() implies (#[trigger] rest[j]).voter != vals.last() by {
                let k = choose|k: int| 0 <= k < vals.drop_last().len() && vals.drop_last()[k] == rest[j].voter;
                assert(vals[k] == rest[j].voter);
            }
        }
    }
}

/// A decision of the coordinator is for the block recorded for the decided
/// round, round zero, under the decided hash, and is supported by at least a
/// quorum of precommit votes, each for that hash and round and by a validator
/// of the height, no two by the same validator.
pub proof fn lemma_decision_binding<B>(
    pre: &SingleHeightConsensus<B>,
    post: &SingleHeightConsensus<B>,
    a: &ShcAction<B>,
)
    requires
        pre.wf(),
        SingleHeightConsensus::<B>::events_step(pre, post, a),
        *a is Decided,
    ensures
        ({
            let e = skip_quiet(pre.pending())[0];
            let h = e->Decision_0;
            let r = e->Decision_1;
            let i = proposal_index(pre.proposals(), r);
            let d = a->Decided_0;
            &&& skip_quiet(pre.pending()).len() > 0
            &&& e is Decision
            &&& r == ROUND_ZERO
            &&& 0 <= i < pre.proposals().len()
            &&& pre.proposals()[i] == (r, h, d.block)
            &&& d.precommits@.len() >= pre.machine().quorum
            &&& forall|j: int|
                0 <= j < d.precommits@.len() ==> {
                    let v = #[trigger] d.precommits@[j];
                    &&& v.vote_type == VoteType::Precommit
                    &&& v.block_hash == Some(h)
                    &&& v.round == r
                    &&& pre.validators().contains(v.voter)
                }
            &&& forall|j: int, k: int|
                0 <= j < k < d.precommits@.len() ==> (#[trigger] d.precommits@[j]).voter
                    != (#[trigger] d.precommits@[k]).voter
        }),
{
    let e = skip_quiet(pre.pending())[0];
    let h = e->Decision_0;
    let r = e->Decision_1;
    lemma_proposal_index_range(pre.proposals(), r);
    lemma_supporting(pre.precommits(), pre.validators(), r, h);
    let sup = supporting(pre.precommits(), pre.validators(), r, h);
    assert forall|j: int| 0 <= j < sup.len() implies (#[trigger] sup[j]).vote_type == VoteType::Precommit by {
        let k = choose|k: int| 0 <= k < pre.precommits().len() && pre.precommits()[k] == sup[j];
        assert(pre.precommits()[k].vote_type == VoteType::Precommit);
    }
}

/// Once a vote was accepted, a second vote of the same type, round and voter
/// for another hash is equivocation and changes nothing, while the same vote
/// again is a replay: no error and no change.
pub proof fn lemma_second_vote<B>(
    s0: &SingleHeightConsensus<B>,
    s1: &SingleHeightConsensus<B>,
    s2: &SingleHeightConsensus<B>,
    first: Vote,
    second: Vote,
    r1: Result<(), ConsensusError>,
    r2: Result<(), ConsensusError>,
)
    requires
        SingleHeightConsensus::<B>::vote_step(s0, s1, first, r1),
        SingleHeightConsensus::<B>::vote_step(s1, s2, second, r2),
        r1 is Ok,
        first.height == second.height,
        first.vote_type == second.vote_type,
        first.round == second.round,
        first.voter == second.voter,
    ensures
        *s2 == *s1,
        first.block_hash == second.block_hash ==> r2 is Ok,
        first.block_hash != second.block_hash ==> (r2 matches Err(
            ConsensusError::Equivocation(hh, ConsensusMessage::Vote(o), ConsensusMessage::Vote(n)),
        ) && hh == s1.height() && o.block_hash == first.block_hash && o.round == first.round
            && o.voter == first.voter && n == second),
{
    let t = first.vote_type;
    lemma_vote_at(s0.table(t), first.round, first.voter);
    if vote_at(s0.table(t), first.round, first.voter) is None {
        let tb = s0.table(t).push(first);
        assert(tb.last() == first);
        assert(vote_at(tb, first.round, first.voter) == Some(first));
    }
}


/// Until the height ends, a new precommit for a block, accepted from a peer,
/// queues the decision for that block and round exactly when the precommits
/// for them in the precommit table, this one included, together with this
/// node's precommits for them still queued, reach the quorum; otherwise it
/// queues nothing. So one precommit short of the quorum never decides.
pub proof fn lemma_precommit_decides<B>(
    pre: &SingleHeightConsensus<B>,
    post: &SingleHeightConsensus<B>,
    vote: Vote,
    r: Result<(), ConsensusError>,
)
    requires
        pre.wf(),
        !pre.decided(),
        !pre.halted(),
        !has_decision(pre.pending()),
        SingleHeightConsensus::<B>::vote_step(pre, post, vote, r),
        vote.height == pre.height(),
        vote.vote_type == VoteType::Precommit,
        vote.block_hash is Some,
        vote_at(pre.precommits(), vote.round, vote.voter) is None,
    ensures
        r is Ok,
        post.precommits() == pre.precommits().push(vote),
        post.pending() == pre.pending() + if table_count(post.precommits(), vote.round, vote.block_hash)
            + queued_precommits(pre.pending(), vote.round, vote.block_hash) >= pre.machine().quorum {
            seq![StateMachineEvent::Decision(vote.block_hash->0, vote.round)]
        } else {
            Seq::<StateMachineEvent>::empty()
        },
{
    let k = (vote.round, vote.block_hash);
    assert(count_votes(pre.machine().precommits, vote.round, vote.block_hash) == table_count(
        pre.precommits(),
        vote.round,
        vote.block_hash,
    ) + queued_precommits(pre.pending(), vote.round, vote.block_hash));
    lemma_count_push(pre.machine().precommits, k, vote.round, vote.block_hash);
    lemma_table_count_push(pre.precommits(), vote, vote.round, vote.block_hash);
    lemma_quorum_decision(pre.machine(), vote.block_hash->0, vote.round);
    let out = pre.machine().next(StateMachineEvent::Precommit(vote.block_hash, vote.round)).1;
    if !has_decision(out) {
        assert(out =~= Seq::<StateMachineEvent>::empty());
    }
}

} // verus!
