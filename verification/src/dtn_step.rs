//! One tick of the outbound loop: the order in which a station sends its pending pushes,
//! runs a round on the carrier, routes what completed and looks for pushes gone quiet.
//!
//! The tick says what to do next on the push table, the link and the ledger, and is told
//! what came of it.

use vstd::prelude::*;

use crate::control::PayloadKind;
use crate::dtn_loop::{
    abandoned_send, push_payload, receipt_reply, route, DtnLoop, DtnOutbound, Pull, PushToSend,
    Reply, Route,
};
use crate::dtn_sync::{elapsed, Backpressure, Completed, Priority};
use crate::tables::Id;

verus! {

/// What to do next. Each is answered by an event.
#[derive(Clone, Debug, PartialEq, Eq)]
pub enum StepTodo {
    /// Pull pending pushes from the push table; answered by `Pushes`.
    Pull(Pull),
    /// Send a payload on the link; answered by `Sent`.
    Send(Reply),
    /// Mark a push as abandoned; answered by `Done`.
    Abandon(Id),
    /// Run a round on the carrier; answered by `Ticked`.
    Tick,
    /// Ingest a bundle; answered by `Ingested`.
    Ingest {
        /// The bundle.
        bundle: Vec<u8>,
    },
    /// Correlate a receipt with one of the station's own pushes; answered by `Done`.
    Correlate {
        /// Who sent it.
        source: String,
        /// The receipt.
        receipt: Vec<u8>,
    },
    /// Nothing; answered by `Done`.
    Proceed,
    /// The tick is over.
    End,
}

/// What came of the last thing to do.
#[derive(Debug, PartialEq, Eq)]
pub enum StepEvent {
    /// The pushes that were pulled.
    Pushes(Vec<PushToSend>),
    /// Whether the payload was queued.
    Sent(Result<(), Backpressure>),
    /// The payloads that completed; nothing where the carrier failed.
    Ticked(Option<Vec<Completed>>),
    /// The receipt of an ingested bundle, where there is one.
    Ingested(Option<Vec<u8>>),
    /// It was done.
    Done,
}

/// Where a tick stands: what it waits for.
#[derive(Clone, Debug, PartialEq, Eq)]
pub enum StepStage {
    /// For the pulled pushes.
    Pulling,
    /// To send the next push.
    Sending,
    /// For the link's word on a push.
    Framing(Id),
    /// For what completed.
    Ticking,
    /// To route the next completed payload.
    Routing,
    /// For the receipt of a bundle from a peer.
    Ingesting(String),
    /// For the link's word on a receipt.
    Replying,
    /// For nothing: the tick is over.
    Ended,
}

/// One tick of the outbound loop.
pub struct DtnStep {
    /// The loop.
    pub state: DtnLoop,
    /// When the tick runs.
    pub now: i64,
    /// What the tick waits for.
    pub stage: StepStage,
    /// Whether the round on the carrier is over.
    pub ticked: bool,
    /// The pushes still to be sent.
    pub pushes: Vec<PushToSend>,
    /// The completed payloads still to be routed.
    pub completed: Vec<Completed>,
}

/// A tick as plain values.
pub struct StepState {
    /// The loop.
    pub state: DtnLoop,
    /// When the tick runs.
    pub now: i64,
    /// What the tick waits for.
    pub stage: StepStage,
    /// Whether the round on the carrier is over.
    pub ticked: bool,
    /// The pushes still to be sent.
    pub pushes: Seq<PushToSend>,
    /// The completed payloads still to be routed.
    pub completed: Seq<Completed>,
}

impl View for DtnStep {
    type V = StepState;

    open spec fn view(&self) -> StepState {
        StepState {
            state: self.state,
            now: self.now,
            stage: self.stage,
            ticked: self.ticked,
            pushes: self.pushes@,
            completed: self.completed@,
        }
    }
}

/// Whether an event answers what a tick waits for.
pub open spec fn step_answers(stage: StepStage, event: StepEvent) -> bool {
    match stage {
        StepStage::Pulling => event is Pushes,
        StepStage::Framing(_) | StepStage::Replying => event is Sent,
        StepStage::Ticking => event is Ticked,
        StepStage::Ingesting(_) => event is Ingested,
        StepStage::Ended => false,
        StepStage::Sending | StepStage::Routing => event is Done,
    }
}

/// What a tick begins with: a pull on the loop's first tick or on a wake, else the round.
pub open spec fn step_begins(
    was: DtnLoop,
    wakes: Seq<DtnOutbound>,
    now: i64,
    t: StepState,
    todo: StepTodo,
) -> bool {
    let pulls = !was.started || wakes.len() > 0;
    &&& t == (StepState {
        state: DtnLoop {
            last_rescan_at: if was.started {
                was.last_rescan_at
            } else {
                now
            },
            started: true,
            ..was
        },
        now,
        stage: if pulls {
            StepStage::Pulling
        } else {
            StepStage::Ticking
        },
        ticked: false,
        pushes: Seq::empty(),
        completed: Seq::empty(),
    })
    &&& todo == if pulls {
        StepTodo::Pull(Pull { ttl_secs: was.push_ttl_secs, quiet_for: None })
    } else {
        StepTodo::Tick
    }
}

/// The payload of a push.
pub open spec fn bundle_of_push(p: PushToSend) -> Reply {
    Reply { to: p.to, kind: PayloadKind::Bundle, payload: p.bundle, priority: p.priority }
}

/// One step of a tick: from a state, on an event, to a state and what to do next.
pub open spec fn step_goes(s: StepState, event: StepEvent, t: StepState, todo: StepTodo) -> bool {
    match (s.stage, event) {
        (StepStage::Pulling, StepEvent::Pushes(pushes)) => {
            &&& t == (StepState { stage: StepStage::Sending, pushes: pushes@, ..s })
            &&& todo is Proceed
        },
        (StepStage::Sending, StepEvent::Done) => if s.pushes.len() > 0 {
            &&& t == (StepState {
                stage: StepStage::Framing(s.pushes[0].push_id),
                pushes: s.pushes.skip(1),
                ..s
            })
            &&& todo == StepTodo::Send(bundle_of_push(s.pushes[0]))
        } else if s.ticked {
            &&& t == (StepState { stage: StepStage::Ended, ..s })
            &&& todo is End
        } else {
            &&& t == (StepState { stage: StepStage::Ticking, ..s })
            &&& todo is Tick
        },
        (StepStage::Framing(id), StepEvent::Sent(sent)) => {
            &&& t == (StepState { stage: StepStage::Sending, ..s })
            &&& todo == if sent matches Err(bp) && bp.depth == 0 {
                StepTodo::Abandon(id)
            } else {
                StepTodo::Proceed
            }
        },
        (StepStage::Ticking, StepEvent::Ticked(done)) => {
            &&& t == (StepState {
                stage: StepStage::Routing,
                ticked: true,
                completed: match done {
                    Some(v) => v@,
                    None => Seq::empty(),
                },
                ..s
            })
            &&& todo is Proceed
        },
        (StepStage::Routing, StepEvent::Done) => if s.completed.len() > 0 {
            let c = s.completed[0];
            match c.kind {
                PayloadKind::Bundle => {
                    &&& t == (StepState {
                        stage: StepStage::Ingesting(c.source),
                        completed: s.completed.skip(1),
                        ..s
                    })
                    &&& todo == (StepTodo::Ingest { bundle: c.bytes })
                },
                PayloadKind::Receipt => {
                    &&& t == (StepState { completed: s.completed.skip(1), ..s })
                    &&& todo == (StepTodo::Correlate { source: c.source, receipt: c.bytes })
                },
            }
        } else if s.state.rescan_due(s.now) {
            &&& t == (StepState {
                state: DtnLoop { last_rescan_at: s.now, ..s.state },
                stage: StepStage::Pulling,
                ..s
            })
            &&& todo == StepTodo::Pull(
                Pull {
                    ttl_secs: s.state.push_ttl_secs,
                    quiet_for: Some(s.state.push_rescan_secs),
                },
            )
        } else {
            &&& t == (StepState { stage: StepStage::Ended, ..s })
            &&& todo is End
        },
        (StepStage::Ingesting(source), StepEvent::Ingested(receipt)) => match receipt {
            Some(payload) => {
                &&& t == (StepState { stage: StepStage::Replying, ..s })
                &&& todo == StepTodo::Send(
                    Reply {
                        to: source,
                        kind: PayloadKind::Receipt,
                        payload,
                        priority: Priority::Economic,
                    },
                )
            },
            None => {
                &&& t == (StepState { stage: StepStage::Routing, ..s })
                &&& todo is Proceed
            },
        },
        (StepStage::Replying, StepEvent::Sent(_)) => {
            &&& t == (StepState { stage: StepStage::Routing, ..s })
            &&& todo is Proceed
        },
        _ => false,
    }
}

impl DtnStep {
    /// Begins a tick at `now`, and says what to do first.
    pub fn start(state: DtnLoop, wakes: &Vec<DtnOutbound>, now: i64) -> (r: (Self, StepTodo))
        ensures
            step_begins(state, wakes@, now, r.0@, r.1),
    {
        let mut state = state;
        let (stage, todo) = match state.begin(now, wakes) {
            Some(pull) => (StepStage::Pulling, StepTodo::Pull(pull)),
            None => (StepStage::Ticking, StepTodo::Tick),
        };
        let step = DtnStep {
            state,
            now,
            stage,
            ticked: false,
            pushes: Vec::new(),
            completed: Vec::new(),
        };
        (step, todo)
    }

    /// Takes what came of the last thing to do, and says what to do next.
    pub fn feed(&mut self, event: StepEvent) -> (r: StepTodo)
        requires
            step_answers(old(self).stage, event),
        ensures
            step_goes(old(self)@, event, final(self)@, r),
    {
        match event {
            StepEvent::Pushes(pushes) => {
                self.pushes = pushes;
                self.stage = StepStage::Sending;
                StepTodo::Proceed
            },
            StepEvent::Ticked(done) => {
                self.completed = match done {
                    Some(v) => v,
                    None => Vec::new(),
                };
                self.ticked = true;
                self.stage = StepStage::Routing;
                StepTodo::Proceed
            },
            StepEvent::Sent(sent) => self.sent(sent),
            StepEvent::Ingested(receipt) => self.ingested(receipt),
            StepEvent::Done => match &self.stage {
                StepStage::Sending => self.send_next(),
                _ => self.route_next(),
            },
        }
    }

    fn send_next(&mut self) -> (r: StepTodo)
        requires
            old(self).stage is Sending,
        ensures
            step_goes(old(self)@, StepEvent::Done, final(self)@, r),
    {
        if self.pushes.len() > 0 {
            let push = self.pushes.remove(0);
            assert(self.pushes@ =~= old(self).pushes@.skip(1));
            self.stage = StepStage::Framing(push.push_id);
            StepTodo::Send(push_payload(push))
        } else if self.ticked {
            self.stage = StepStage::Ended;
            StepTodo::End
        } else {
            self.stage = StepStage::Ticking;
            StepTodo::Tick
        }
    }

    fn sent(&mut self, sent: Result<(), Backpressure>) -> (r: StepTodo)
        requires
            step_answers(old(self).stage, StepEvent::Sent(sent)),
        ensures
            step_goes(old(self)@, StepEvent::Sent(sent), final(self)@, r),
    {
        match &self.stage {
            StepStage::Framing(id) => {
                let todo = match abandoned_send(*id, sent) {
                    Some(id) => StepTodo::Abandon(id),
                    None => StepTodo::Proceed,
                };
                self.stage = StepStage::Sending;
                todo
            },
            _ => {
                self.stage = StepStage::Routing;
                StepTodo::Proceed
            },
        }
    }

    fn route_next(&mut self) -> (r: StepTodo)
        requires
            old(self).stage is Routing,
        ensures
            step_goes(old(self)@, StepEvent::Done, final(self)@, r),
    {
        if self.completed.len() > 0 {
            let done = self.completed.remove(0);
            assert(self.completed@ =~= old(self).completed@.skip(1));
            match route(done) {
                Route::Ingest { source, bundle } => {
                    self.stage = StepStage::Ingesting(source);
                    StepTodo::Ingest { bundle }
                },
                Route::Correlate { source, receipt } => StepTodo::Correlate { source, receipt },
            }
        } else {
            match self.state.rescan(self.now) {
                Some(pull) => {
                    self.stage = StepStage::Pulling;
                    StepTodo::Pull(pull)
                },
                None => {
                    self.stage = StepStage::Ended;
                    StepTodo::End
                },
            }
        }
    }

    fn ingested(&mut self, receipt: Option<Vec<u8>>) -> (r: StepTodo)
        requires
            old(self).stage is Ingesting,
        ensures
            step_goes(old(self)@, StepEvent::Ingested(receipt), final(self)@, r),
    {
        let source = match &self.stage {
            StepStage::Ingesting(source) => source.clone(),
            _ => String::new(),
        };
        match receipt_reply(source, receipt) {
            Some(reply) => {
                self.stage = StepStage::Replying;
                StepTodo::Send(reply)
            },
            None => {
                self.stage = StepStage::Routing;
                StepTodo::Proceed
            },
        }
    }
}

/// A tick from its start on: the states it went through, what it said to do in each, and
/// the events that took it from each state to the next.
pub struct StepRun {
    /// The states.
    pub states: Seq<StepState>,
    /// What to do in each.
    pub todos: Seq<StepTodo>,
    /// What came of it.
    pub events: Seq<StepEvent>,
}

impl StepRun {
    /// The first state is a tick's beginning, and every other comes of the one before it.
    pub open spec fn valid(&self, was: DtnLoop, wakes: Seq<DtnOutbound>, now: i64) -> bool {
        &&& self.states.len() == self.events.len() + 1
        &&& self.todos.len() == self.states.len()
        &&& step_begins(was, wakes, now, self.states[0], self.todos[0])
        &&& forall|i: int|
            0 <= i < self.events.len() ==> step_goes(
                #[trigger] self.states[i],
                self.events[i],
                self.states[i + 1],
                self.todos[i + 1],
            )
    }

    /// The tick came to its end.
    pub open spec fn ended(&self) -> bool {
        self.states.last().stage is Ended
    }
}

/// The pushes that were pulled, in order.
pub open spec fn pulled(events: Seq<StepEvent>) -> Seq<PushToSend>
    decreases events.len(),
{
    if events.len() == 0 {
        Seq::empty()
    } else {
        match events.last() {
            StepEvent::Pushes(v) => pulled(events.drop_last()) + v@,
            _ => pulled(events.drop_last()),
        }
    }
}

/// The payloads that completed, in order.
pub open spec fn finished(events: Seq<StepEvent>) -> Seq<Completed>
    decreases events.len(),
{
    if events.len() == 0 {
        Seq::empty()
    } else {
        match events.last() {
            StepEvent::Ticked(Some(v)) => finished(events.drop_last()) + v@,
            _ => finished(events.drop_last()),
        }
    }
}

/// The bundles that were to be sent, in order.
pub open spec fn sent_bundles(todos: Seq<StepTodo>) -> Seq<Reply>
    decreases todos.len(),
{
    if todos.len() == 0 {
        Seq::empty()
    } else {
        match todos.last() {
            StepTodo::Send(r) => if r.kind == PayloadKind::Bundle {
                sent_bundles(todos.drop_last()).push(r)
            } else {
                sent_bundles(todos.drop_last())
            },
            _ => sent_bundles(todos.drop_last()),
        }
    }
}

/// The payloads that were to be ingested or correlated, in order.
pub open spec fn routed(todos: Seq<StepTodo>) -> Seq<(PayloadKind, Vec<u8>)>
    decreases todos.len(),
{
    if todos.len() == 0 {
        Seq::empty()
    } else {
        match todos.last() {
            StepTodo::Ingest { bundle } => routed(todos.drop_last()).push(
                (PayloadKind::Bundle, bundle),
            ),
            StepTodo::Correlate { source, receipt } => routed(todos.drop_last()).push(
                (PayloadKind::Receipt, receipt),
            ),
            _ => routed(todos.drop_last()),
        }
    }
}

/// How many rounds were to be run.
pub open spec fn rounds(todos: Seq<StepTodo>) -> nat
    decreases todos.len(),
{
    if todos.len() == 0 {
        0
    } else if todos.last() is Tick {
        rounds(todos.drop_last()) + 1
    } else {
        rounds(todos.drop_last())
    }
}

/// The payloads of pushes.
pub open spec fn bundles(pushes: Seq<PushToSend>) -> Seq<Reply> {
    pushes.map_values(|p: PushToSend| bundle_of_push(p))
}

/// Completed payloads by kind.
pub open spec fn by_kind(completed: Seq<Completed>) -> Seq<(PayloadKind, Vec<u8>)> {
    completed.map_values(|c: Completed| (c.kind, c.bytes))
}

spec fn served_so_far(run: StepRun, i: int) -> bool {
    let s = run.states[i];
    let todos = run.todos.take(i + 1);
    let events = run.events.take(i);
    let sending = s.stage is Sending || s.stage is Framing;
    let routing = s.stage is Routing || s.stage is Ingesting || s.stage is Replying;
    &&& sent_bundles(todos) + bundles(s.pushes) == bundles(pulled(events))
    &&& routed(todos) + by_kind(s.completed) == by_kind(finished(events))
    &&& !sending ==> s.pushes.len() == 0
    &&& !routing ==> s.completed.len() == 0
    &&& routing ==> s.ticked
    &&& s.stage is Ended ==> s.ticked
    &&& s.stage is Ticking ==> !s.ticked
    &&& rounds(todos) == if s.ticked || s.stage is Ticking {
        1nat
    } else {
        0
    }
}

proof fn lemma_served(run: StepRun, was: DtnLoop, wakes: Seq<DtnOutbound>, now: i64, i: int)
    requires
        run.valid(was, wakes, now),
        0 <= i < run.states.len(),
    ensures
        served_so_far(run, i),
    decreases i,
{
    let s = run.states[i];
    let todos = run.todos.take(i + 1);
    let events = run.events.take(i);
    assert(todos.drop_last() =~= run.todos.take(i));
    assert(todos.last() == run.todos[i]);
    reveal_with_fuel(sent_bundles, 2);
    reveal_with_fuel(routed, 2);
    reveal_with_fuel(rounds, 2);
    if i == 0 {
        assert(run.todos.take(0) =~= Seq::<StepTodo>::empty());
        assert(sent_bundles(todos) + bundles(s.pushes) =~= bundles(pulled(events)));
        assert(routed(todos) + by_kind(s.completed) =~= by_kind(finished(events)));
    } else {
        let p = run.states[i - 1];
        let event = run.events[i - 1];
        lemma_served(run, was, wakes, now, i - 1);
        assert(step_goes(p, event, run.states[i - 1 + 1], run.todos[i - 1 + 1]));
        assert(events.drop_last() =~= run.events.take(i - 1));
        assert(events.last() == event);
        assert(sent_bundles(todos) + bundles(s.pushes) =~= bundles(pulled(events))) by {
            if p.stage is Sending && p.pushes.len() > 0 {
                assert(bundles(p.pushes) =~= seq![bundle_of_push(p.pushes[0])] + bundles(
                    s.pushes,
                ));
            } else if p.stage is Pulling {
                assert(bundles(pulled(events)) =~= bundles(pulled(events.drop_last())) + bundles(
                    s.pushes,
                ));
                assert(bundles(p.pushes) =~= Seq::<Reply>::empty());
            }
        }
        assert(routed(todos) + by_kind(s.completed) =~= by_kind(finished(events))) by {
            if p.stage is Routing && p.completed.len() > 0 {
                assert(by_kind(p.completed) =~= seq![(p.completed[0].kind, p.completed[0].bytes)]
                    + by_kind(s.completed));
            } else if p.stage is Ticking {
                assert(by_kind(finished(events)) =~= by_kind(finished(events.drop_last()))
                    + by_kind(s.completed));
                assert(by_kind(p.completed) =~= Seq::<(PayloadKind, Vec<u8>)>::empty());
            }
        }
    }
}

/// By the end of a tick every push that was pulled was sent once, in order, every payload
/// that completed was ingested or correlated once, in order, and the carrier ran one
/// round.
pub proof fn law_a_tick_serves_everything(
    run: StepRun,
    was: DtnLoop,
    wakes: Seq<DtnOutbound>,
    now: i64,
)
    requires
        run.valid(was, wakes, now),
        run.ended(),
    ensures
        sent_bundles(run.todos) == bundles(pulled(run.events)),
        routed(run.todos) == by_kind(finished(run.events)),
        rounds(run.todos) == 1,
{
    let n = run.states.len() - 1;
    let s = run.states[n];
    lemma_served(run, was, wakes, now, n);
    assert(run.todos.take(n + 1) =~= run.todos);
    assert(run.events.take(n) =~= run.events);
    assert(sent_bundles(run.todos) + bundles(s.pushes) =~= sent_bundles(run.todos));
    assert(routed(run.todos) + by_kind(s.completed) =~= routed(run.todos));
}

/// A push is abandoned exactly where sending it was refused with a depth of zero, and it is
/// the push that was sent: what was not framed is given up, what met a full queue is not.
pub proof fn law_only_unframed_pushes_are_abandoned(
    run: StepRun,
    was: DtnLoop,
    wakes: Seq<DtnOutbound>,
    now: i64,
    j: int,
)
    requires
        run.valid(was, wakes, now),
        0 < j < run.events.len(),
        run.states[j - 1].stage is Sending,
        run.states[j - 1].pushes.len() > 0,
        run.events[j - 1] is Done,
        run.events[j] is Sent,
    ensures
        ({
            let push = run.states[j - 1].pushes[0];
            let sent = run.events[j]->Sent_0;
            &&& run.todos[j] matches StepTodo::Send(p) && p.to@ == push.to@ && p.payload@
                == push.bundle@ && p.priority == push.priority && p.kind == PayloadKind::Bundle
            &&& (sent matches Err(bp) && bp.depth == 0) ==> run.todos[j + 1] == StepTodo::Abandon(
                push.push_id,
            )
            &&& !(sent matches Err(bp) && bp.depth == 0) ==> !(run.todos[j + 1] is Abandon)
        }),
{
    let i = j - 1;
    assert(step_goes(run.states[i], run.events[i], run.states[i + 1], run.todos[i + 1]));
    assert(step_goes(run.states[j], run.events[j], run.states[j + 1], run.todos[j + 1]));
}

/// The receipt of a bundle goes back to the peer that the bundle came from, ahead of other
/// traffic; a bundle without a receipt is not answered. A receipt that arrived is correlated
/// under the peer that it came from.
pub proof fn law_a_receipt_goes_back_to_its_sender(
    run: StepRun,
    was: DtnLoop,
    wakes: Seq<DtnOutbound>,
    now: i64,
    j: int,
)
    requires
        run.valid(was, wakes, now),
        0 < j < run.events.len(),
        run.states[j - 1].stage is Routing,
        run.states[j - 1].completed.len() > 0,
        run.events[j - 1] is Done,
    ensures
        ({
            let done = run.states[j - 1].completed[0];
            &&& done.kind == PayloadKind::Receipt ==> (run.todos[j] matches StepTodo::Correlate {
                source,
                receipt,
            } && source@ == done.source@ && receipt@ == done.bytes@)
            &&& done.kind == PayloadKind::Bundle ==> {
                &&& run.todos[j] matches StepTodo::Ingest { bundle } && bundle@ == done.bytes@
                &&& run.events[j] matches StepEvent::Ingested(Some(receipt)) ==> (
                run.todos[j + 1] matches StepTodo::Send(p) && p.to@ == done.source@ && p.payload@
                    == receipt@ && p.kind == PayloadKind::Receipt && p.priority
                    == Priority::Economic)
                &&& run.events[j] matches StepEvent::Ingested(None) ==> !(run.todos[j + 1] is Send)
            }
        }),
{
    let i = j - 1;
    assert(step_goes(run.states[i], run.events[i], run.states[i + 1], run.todos[i + 1]));
    assert(step_goes(run.states[j], run.events[j], run.states[j + 1], run.todos[j + 1]));
}

/// Everything pending is pulled on the first tick and on every wake, and what went quiet is
/// pulled again once the re-scan interval has passed since the last scan; a tick pulls
/// nothing else.
pub proof fn law_pulls_come_when_they_are_due(
    run: StepRun,
    was: DtnLoop,
    wakes: Seq<DtnOutbound>,
    now: i64,
    j: int,
)
    requires
        run.valid(was, wakes, now),
        0 <= j < run.todos.len(),
        was.push_rescan_secs > i64::MIN,
    ensures
        run.todos[0] is Pull <==> !was.started || wakes.len() > 0,
        run.todos[0] matches StepTodo::Pull(p) ==> p.quiet_for is None && p.ttl_secs
            == was.push_ttl_secs,
        j > 0 ==> (run.todos[j] matches StepTodo::Pull(p) ==> {
            &&& now - (if was.started {
                was.last_rescan_at
            } else {
                now
            }) >= was.push_rescan_secs
            &&& p.quiet_for == Some(was.push_rescan_secs)
            &&& p.ttl_secs == was.push_ttl_secs
        }),
        run.ended() && now - (if was.started {
            was.last_rescan_at
        } else {
            now
        }) >= was.push_rescan_secs ==> exists|i: int|
            0 < i < run.todos.len() && #[trigger] run.todos[i] is Pull,
{
    if j > 0 {
        lemma_loop_state(run, was, wakes, now, j - 1);
        let i = j - 1;
        assert(step_goes(run.states[i], run.events[i], run.states[i + 1], run.todos[i + 1]));
    }
    if run.ended() {
        lemma_loop_state(run, was, wakes, now, run.states.len() - 1);
    }
}

proof fn lemma_loop_state(
    run: StepRun,
    was: DtnLoop,
    wakes: Seq<DtnOutbound>,
    now: i64,
    i: int,
)
    requires
        run.valid(was, wakes, now),
        0 <= i < run.states.len(),
    ensures
        run.states[i].now == now,
        run.states[i].state.push_rescan_secs == was.push_rescan_secs,
        run.states[i].state.push_ttl_secs == was.push_ttl_secs,
        ({
            let scanned = exists|k: int| 0 < k <= i && #[trigger] run.todos[k] is Pull;
            let last = if was.started {
                was.last_rescan_at
            } else {
                now
            };
            let due = elapsed(now, last) >= was.push_rescan_secs;
            &&& !scanned ==> run.states[i].state.last_rescan_at == last
            &&& !scanned && run.states[i].stage is Ended ==> !due
            &&& !scanned && run.states[i].ticked ==> run.states[i].stage is Routing
                || run.states[i].stage is Ingesting || run.states[i].stage is Replying
                || run.states[i].stage is Ended
            &&& scanned ==> run.states[i].ticked && !(run.states[i].stage is Ticking) && !(
            run.states[i].stage is Routing) && !(run.states[i].stage is Ingesting) && !(
            run.states[i].stage is Replying)
            &&& run.states[i].stage is Routing || run.states[i].stage is Ingesting
                || run.states[i].stage is Replying || run.states[i].stage is Ended
                ==> run.states[i].ticked
            &&& run.states[i].stage is Ticking ==> !run.states[i].ticked
        }),
    decreases i,
{
    if i > 0 {
        let p = i - 1;
        lemma_loop_state(run, was, wakes, now, p);
        assert(step_goes(run.states[p], run.events[p], run.states[p + 1], run.todos[p + 1]));
        let before = exists|k: int| 0 < k <= p && #[trigger] run.todos[k] is Pull;
        let scanned = exists|k: int| 0 < k <= i && #[trigger] run.todos[k] is Pull;
        if before {
            let k = choose|k: int| 0 < k <= p && #[trigger] run.todos[k] is Pull;
            assert(0 < k <= i && run.todos[k] is Pull);
        }
        if scanned && !before {
            let k = choose|k: int| 0 < k <= i && #[trigger] run.todos[k] is Pull;
            assert(k == i);
        }
        if run.todos[i] is Pull {
            assert(0 < i <= i && run.todos[i] is Pull);
        }
    }
}

} // verus!
