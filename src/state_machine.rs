use vstd::prelude::*;

use crate::types::{same_hash, BlockHash, Round, ValidatorId};

verus! {

/// Events both fed into and emitted by the round state machine.
#[derive(Clone, Copy, Debug, PartialEq, Eq, Structural)]
pub enum StateMachineEvent {
    /// Emitted with `None`: this node proposes in the round and needs content.
    /// Fed back with the id of the built block.
    GetProposal(Option<BlockHash>, Round),
    Proposal(Option<BlockHash>, Round),
    Prevote(Option<BlockHash>, Round),
    Precommit(Option<BlockHash>, Round),
    Decision(BlockHash, Round),
}

#[derive(Clone, Copy, Debug, PartialEq, Eq, Structural)]
pub enum Step {
    Propose,
    Prevote,
    Precommit,
}

/// A vote as the state machine sees it: its round and the hash it supports.
pub type VoteKey = (Round, Option<BlockHash>);

/// Number of entries of `s` equal to `(r, h)`.
pub open spec fn count_votes(s: Seq<VoteKey>, r: Round, h: Option<BlockHash>) -> nat
    decreases s.len(),
{
    if s.len() == 0 {
        0
    } else {
        count_votes(s.drop_last(), r, h) + if s.last() == (r, h) {
            1nat
        } else {
            0nat
        }
    }
}

/// Votes needed among `n` validators: more than two thirds.
pub open spec fn quorum_of(n: nat) -> nat {
    2 * n / 3 + 1
}

/// The abstract phase of the state machine.
pub struct RoundState {
    pub id: ValidatorId,
    pub round: Round,
    pub step: Step,
    pub quorum: nat,
    pub decided: bool,
    /// Every prevote fed in, in order.
    pub prevotes: Seq<VoteKey>,
    /// Every precommit fed in, in order.
    pub precommits: Seq<VoteKey>,
}

impl RoundState {
    /// Record a precommit; decide once a non-nil hash gathers a quorum.
    pub open spec fn on_precommit(self, h: Option<BlockHash>, r: Round) -> (RoundState, Seq<StateMachineEvent>) {
        let s = RoundState { precommits: self.precommits.push((r, h)), ..self };
        if h is Some && !self.decided && count_votes(s.precommits, r, h) >= self.quorum {
            (RoundState { decided: true, ..s }, seq![StateMachineEvent::Decision(h->0, r)])
        } else {
            (s, seq![])
        }
    }

    /// Record a prevote; precommit once its hash gathers a quorum while prevoting.
    pub open spec fn on_prevote(self, h: Option<BlockHash>, r: Round) -> (RoundState, Seq<StateMachineEvent>) {
        let s = RoundState { prevotes: self.prevotes.push((r, h)), ..self };
        if self.step == Step::Prevote && r == self.round && count_votes(s.prevotes, r, h) >= self.quorum {
            let next = RoundState { step: Step::Precommit, ..s }.on_precommit(h, r);
            (next.0, seq![StateMachineEvent::Precommit(h, r)] + next.1)
        } else {
            (s, seq![])
        }
    }

    /// A proposal for the current round while proposing leads to a prevote for it.
    pub open spec fn on_proposal(self, h: Option<BlockHash>, r: Round) -> (RoundState, Seq<StateMachineEvent>) {
        if self.step == Step::Propose && r == self.round {
            let next = RoundState { step: Step::Prevote, ..self }.on_prevote(h, r);
            (next.0, seq![StateMachineEvent::Prevote(h, r)] + next.1)
        } else {
            (self, seq![])
        }
    }

    /// Content built by this node becomes the round's proposal.
    pub open spec fn on_get_proposal(self, h: BlockHash, r: Round) -> (RoundState, Seq<StateMachineEvent>) {
        let next = self.on_proposal(Some(h), r);
        (next.0, seq![StateMachineEvent::Proposal(Some(h), r)] + next.1)
    }

    /// The state and the events that follow a well-formed inbound event.
    pub open spec fn next(self, e: StateMachineEvent) -> (RoundState, Seq<StateMachineEvent>) {
        match e {
            StateMachineEvent::GetProposal(h, r) => self.on_get_proposal(h->0, r),
            StateMachineEvent::Proposal(h, r) => self.on_proposal(h, r),
            StateMachineEvent::Prevote(h, r) => self.on_prevote(h, r),
            StateMachineEvent::Precommit(h, r) => self.on_precommit(h, r),
            StateMachineEvent::Decision(_, _) => (self, seq![]),
        }
    }
}

/// Whether `q` holds a decision.
pub open spec fn has_decision(q: Seq<StateMachineEvent>) -> bool {
    exists|i: int| 0 <= i < q.len() && q[i] is Decision
}

/// Events that the state machine accepts as input.
pub open spec fn is_inbound(e: StateMachineEvent) -> bool {
    match e {
        StateMachineEvent::GetProposal(h, _) => h is Some,
        StateMachineEvent::Decision(_, _) => false,
        _ => true,
    }
}

/// The deterministic round state machine of one height. It keeps the stream of
/// votes it was fed; the caller deduplicates them.
pub struct StateMachine {
    id: ValidatorId,
    round: Round,
    step: Step,
    quorum: u64,
    decided: bool,
    prevotes: Vec<VoteKey>,
    precommits: Vec<VoteKey>,
}

impl View for StateMachine {
    type V = RoundState;

    closed spec fn view(&self) -> RoundState {
        RoundState {
            id: self.id,
            round: self.round,
            step: self.step,
            quorum: self.quorum as nat,
            decided: self.decided,
            prevotes: self.prevotes@,
            precommits: self.precommits@,
        }
    }
}

fn count_matching(v: &Vec<VoteKey>, r: Round, h: Option<BlockHash>) -> (c: usize)
    ensures
        c as nat == count_votes(v@, r, h),
{
    let mut c: usize = 0;
    let mut i: usize = 0;
    while i < v.len()
        invariant
            i <= v.len(),
            c <= i,
            c as nat == count_votes(v@.take(i as int), r, h),
        decreases v.len() - i,
    {
        assert(v@.take(i + 1).drop_last() =~= v@.take(i as int));
        if v[i].0 == r && same_hash(v[i].1, h) {
            c = c + 1;
        }
        i = i + 1;
    }
    assert(v@.take(i as int) =~= v@);
    c
}

fn push_then_count(v: &mut Vec<VoteKey>, r: Round, h: Option<BlockHash>) -> (c: usize)
    ensures
        final(v)@ == old(v)@.push((r, h)),
        c as nat == count_votes(final(v)@, r, h),
{
    v.push((r, h));
    count_matching(v, r, h)
}

impl StateMachine {
    /// A state machine for `total_weight` validators, each of weight one.
    pub fn new(id: ValidatorId, total_weight: u64) -> (sm: StateMachine)
        ensures
            sm@ == (RoundState {
                id,
                round: 0,
                step: Step::Propose,
                quorum: quorum_of(total_weight as nat),
                decided: false,
                prevotes: seq![],
                precommits: seq![],
            }),
    {
        let quorum = 2 * (total_weight / 3) + (2 * (total_weight % 3)) / 3 + 1;
        assert(quorum == quorum_of(total_weight as nat)) by (nonlinear_arith)
            requires
                quorum == 2 * (total_weight / 3) + (2 * (total_weight % 3)) / 3 + 1,
        {
        }
        StateMachine {
            id,
            round: 0,
            step: Step::Propose,
            quorum,
            decided: false,
            prevotes: Vec::new(),
            precommits: Vec::new(),
        }
    }

    /// Number of matching precommits that decide a round.
    pub fn quorum_size(&self) -> (q: u64)
        ensures
            q as nat == self@.quorum,
    {
        self.quorum
    }

    /// Whether a decision has been emitted.
    pub fn decided(&self) -> (d: bool)
        ensures
            d == self@.decided,
    {
        self.decided
    }

    /// Enter round zero; the round's leader is asked for proposal content.
    pub fn start(&mut self, leader: ValidatorId) -> (out: Vec<StateMachineEvent>)
        ensures
            final(self)@ == (RoundState { round: 0, step: Step::Propose, ..old(self)@ }),
            out@ == if old(self)@.id == leader {
                seq![StateMachineEvent::GetProposal(None, 0)]
            } else {
                seq![]
            },
    {
        self.round = 0;
        self.step = Step::Propose;
        let mut out: Vec<StateMachineEvent> = Vec::new();
        if self.id == leader {
            out.push(StateMachineEvent::GetProposal(None, 0));
        }
        assert(out@ =~= if old(self)@.id == leader {
            seq![StateMachineEvent::GetProposal(None, 0)]
        } else {
            seq![]
        });
        out
    }

    fn on_precommit(&mut self, h: Option<BlockHash>, r: Round) -> (out: Vec<StateMachineEvent>)
        ensures
            (final(self)@, out@) == old(self)@.on_precommit(h, r),
    {
        let c = push_then_count(&mut self.precommits, r, h);
        let mut out: Vec<StateMachineEvent> = Vec::new();
        match h {
            Some(hash) => {
                if !self.decided && c as u64 >= self.quorum {
                    self.decided = true;
                    out.push(StateMachineEvent::Decision(hash, r));
                }
            },
            None => {},
        }
        assert(out@ =~= old(self)@.on_precommit(h, r).1);
        out
    }

    fn on_prevote(&mut self, h: Option<BlockHash>, r: Round) -> (out: Vec<StateMachineEvent>)
        ensures
            (final(self)@, out@) == old(self)@.on_prevote(h, r),
    {
        let c = push_then_count(&mut self.prevotes, r, h);
        if self.step == Step::Prevote && r == self.round && c as u64 >= self.quorum {
            self.step = Step::Precommit;
            let mut out: Vec<StateMachineEvent> = Vec::new();
            out.push(StateMachineEvent::Precommit(h, r));
            let mut rest = self.on_precommit(h, r);
            out.append(&mut rest);
            out
        } else {
            Vec::new()
        }
    }

    fn on_proposal(&mut self, h: Option<BlockHash>, r: Round) -> (out: Vec<StateMachineEvent>)
        ensures
            (final(self)@, out@) == old(self)@.on_proposal(h, r),
    {
        if self.step == Step::Propose && r == self.round {
            self.step = Step::Prevote;
            let mut out: Vec<StateMachineEvent> = Vec::new();
            out.push(StateMachineEvent::Prevote(h, r));
            let mut rest = self.on_prevote(h, r);
            out.append(&mut rest);
            out
        } else {
            Vec::new()
        }
    }

    /// Feed one event; returns the events it leads to, in order.
    pub fn handle_event(&mut self, e: StateMachineEvent) -> (out: Vec<StateMachineEvent>)
        requires
            is_inbound(e),
        ensures
            (final(self)@, out@) == old(self)@.next(e),
    {
        match e {
            StateMachineEvent::GetProposal(h, r) => {
                let mut out: Vec<StateMachineEvent> = Vec::new();
                out.push(StateMachineEvent::Proposal(h, r));
                let mut rest = self.on_proposal(h, r);
                out.append(&mut rest);
                out
            },
            StateMachineEvent::Proposal(h, r) => self.on_proposal(h, r),
            StateMachineEvent::Prevote(h, r) => self.on_prevote(h, r),
            StateMachineEvent::Precommit(h, r) => self.on_precommit(h, r),
            StateMachineEvent::Decision(_, _) => Vec::new(),
        }
    }
}


/// The state machine decides on a precommit exactly when it is for a block,
/// nothing was decided before, and the precommits for that block in the round,
/// this one included, reach the quorum; the decision is then for that block and
/// round, and it is the only event emitted.
pub proof fn lemma_quorum_decision(s: RoundState, h: BlockHash, r: Round)
    ensures
        has_decision(s.next(StateMachineEvent::Precommit(Some(h), r)).1) == (!s.decided
            && count_votes(s.precommits.push((r, Some(h))), r, Some(h)) >= s.quorum),
        has_decision(s.next(StateMachineEvent::Precommit(Some(h), r)).1) ==> s.next(
            StateMachineEvent::Precommit(Some(h), r),
        ).1 == seq![StateMachineEvent::Decision(h, r)],
{
    let out = s.next(StateMachineEvent::Precommit(Some(h), r)).1;
    if !s.decided && count_votes(s.precommits.push((r, Some(h))), r, Some(h)) >= s.quorum {
        assert(out[0] is Decision);
    }
}

/// A nil precommit never decides.
pub proof fn lemma_nil_precommit_never_decides(s: RoundState, r: Round)
    ensures
        !has_decision(s.next(StateMachineEvent::Precommit(None, r)).1),
{
}


/// Number of precommit events for `h` in round `r` in `q`.
pub open spec fn queued_precommits(q: Seq<StateMachineEvent>, r: Round, h: Option<BlockHash>) -> nat
    decreases q.len(),
{
    if q.len() == 0 {
        0
    } else {
        queued_precommits(q.drop_last(), r, h) + if q.last() == StateMachineEvent::Precommit(h, r) {
            1nat
        } else {
            0nat
        }
    }
}

pub proof fn lemma_count_push(s: Seq<VoteKey>, x: VoteKey, r: Round, h: Option<BlockHash>)
    ensures
        count_votes(s.push(x), r, h) == count_votes(s, r, h) + if x == (r, h) {
            1nat
        } else {
            0nat
        },
{
    assert(s.push(x).drop_last() =~= s);
}

pub proof fn lemma_queued_concat(
    a: Seq<StateMachineEvent>,
    b: Seq<StateMachineEvent>,
    r: Round,
    h: Option<BlockHash>,
)
    ensures
        queued_precommits(a + b, r, h) == queued_precommits(a, r, h) + queued_precommits(b, r, h),
    decreases b.len(),
{
    if b.len() == 0 {
        assert(a + b =~= a);
    } else {
        lemma_queued_concat(a, b.drop_last(), r, h);
        assert((a + b).drop_last() =~= a + b.drop_last());
    }
}

pub proof fn lemma_queued_single(x: StateMachineEvent, r: Round, h: Option<BlockHash>)
    ensures
        queued_precommits(seq![x], r, h) == if x == StateMachineEvent::Precommit(h, r) {
            1nat
        } else {
            0nat
        },
{
    assert(seq![x].drop_last() =~= Seq::<StateMachineEvent>::empty());
    assert(seq![x].last() == x);
    assert(queued_precommits(Seq::<StateMachineEvent>::empty(), r, h) == 0);
}

proof fn lemma_queued_cons(x: StateMachineEvent, q: Seq<StateMachineEvent>, r: Round, h: Option<BlockHash>)
    ensures
        queued_precommits(seq![x] + q, r, h) == queued_precommits(q, r, h) + if x
            == StateMachineEvent::Precommit(h, r) {
            1nat
        } else {
            0nat
        },
{
    lemma_queued_concat(seq![x], q, r, h);
    lemma_queued_single(x, r, h);
}

/// Every precommit that the state machine counts was either fed in or is among
/// the events it emits, which this node then casts.
pub proof fn lemma_next_counts(s: RoundState, e: StateMachineEvent, r2: Round, h2: Option<BlockHash>)
    requires
        is_inbound(e),
    ensures
        count_votes(s.next(e).0.precommits, r2, h2) == count_votes(s.precommits, r2, h2)
            + queued_precommits(s.next(e).1, r2, h2) + if e == StateMachineEvent::Precommit(h2, r2) {
            1nat
        } else {
            0nat
        },
{
    assert forall|t: RoundState, h: Option<BlockHash>, r: Round|
        #![trigger t.on_precommit(h, r)]
        count_votes(t.on_precommit(h, r).0.precommits, r2, h2) == count_votes(t.precommits, r2, h2)
            + if (r, h) == (r2, h2) { 1nat } else { 0nat }
            && queued_precommits(t.on_precommit(h, r).1, r2, h2) == 0 by {
        lemma_count_push(t.precommits, (r, h), r2, h2);
        lemma_queued_single(StateMachineEvent::Decision(h->0, r), r2, h2);
        assert(queued_precommits(Seq::<StateMachineEvent>::empty(), r2, h2) == 0);
    }
    assert forall|t: RoundState, h: Option<BlockHash>, r: Round|
        #![trigger t.on_prevote(h, r)]
        count_votes(t.on_prevote(h, r).0.precommits, r2, h2) == count_votes(t.precommits, r2, h2)
            + queued_precommits(t.on_prevote(h, r).1, r2, h2) by {
        let s2 = RoundState { prevotes: t.prevotes.push((r, h)), ..t };
        lemma_queued_cons(
            StateMachineEvent::Precommit(h, r),
            RoundState { step: Step::Precommit, ..s2 }.on_precommit(h, r).1,
            r2,
            h2,
        );
        assert(queued_precommits(Seq::<StateMachineEvent>::empty(), r2, h2) == 0);
    }
    assert forall|t: RoundState, h: Option<BlockHash>, r: Round|
        #![trigger t.on_proposal(h, r)]
        count_votes(t.on_proposal(h, r).0.precommits, r2, h2) == count_votes(t.precommits, r2, h2)
            + queued_precommits(t.on_proposal(h, r).1, r2, h2) by {
        lemma_queued_cons(
            StateMachineEvent::Prevote(h, r),
            RoundState { step: Step::Prevote, ..t }.on_prevote(h, r).1,
            r2,
            h2,
        );
        assert(queued_precommits(Seq::<StateMachineEvent>::empty(), r2, h2) == 0);
    }
    if let StateMachineEvent::GetProposal(h, r) = e {
        lemma_queued_cons(StateMachineEvent::Proposal(Some(h->0), r), s.on_proposal(Some(h->0), r).1, r2, h2);
    }
}

} // verus!
