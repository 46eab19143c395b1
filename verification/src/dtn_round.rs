//! One round of the delay-tolerant engine: the order in which a station sends what the
//! airtime budget clears, takes what arrived, asks for what is missing and pokes what
//! went quiet.
//!
//! The round owns the engine while it lasts. It says what to do next on the carrier,
//! the pacer and the reassembler, and is told what came of it.

use vstd::prelude::*;
use vstd::slice::slice_to_vec;

use crate::control::{
    control_bytes, control_of, law_decode_inverts_encode, Control, ControlFrame, PayloadKind,
};
use crate::dtn_sync::{
    copy_offer, frames, law_untag_inverts_tag, listed, picked, same_offer, tagged, Arrival, Burst,
    CachedSend, ChunkIds, Completed, DtnSyncer, Frame, InboundState, Offer, PeerPayload,
};
use crate::tables::{Id, Key};

verus! {

/// A frame that the airtime budget cleared.
#[derive(Clone, Debug, PartialEq, Eq)]
pub struct Outgoing {
    /// The peer it goes to.
    pub to: String,
    /// The frame.
    pub frame: Vec<u8>,
    /// The ids of a data chunk; none for a control frame.
    pub ids: Option<ChunkIds>,
}

/// A frame that arrived.
#[derive(Clone, Debug, PartialEq, Eq)]
pub struct Incoming {
    /// The peer it came from.
    pub from: String,
    /// The frame.
    pub frame: Vec<u8>,
}

/// What to do next. Each is answered by an event.
#[derive(Clone, Debug, PartialEq, Eq)]
pub enum Todo {
    /// Take the frames that the airtime budget clears off the pacer; answered by
    /// `Cleared`.
    Clear,
    /// Send a frame on the carrier, whether or not that succeeds; answered by `Done`.
    Transmit {
        /// The peer it goes to.
        to: String,
        /// The frame.
        frame: Vec<u8>,
    },
    /// Take what arrived off the carrier; answered by `Received` or `Failed`.
    Receive,
    /// Hand a data chunk to the reassembler; answered by `Accepted`.
    Accept {
        /// The chunk.
        frame: Vec<u8>,
    },
    /// Offer a frame to the pacer; answered by `Enqueued`.
    Enqueue(Offer),
    /// List the missing chunks of a payload; answered by `Missing`.
    ListMissing(Id),
    /// A payload was poked: offer its first chunk to the pacer; answered by `Enqueued`,
    /// or by `Done` where there is nothing to offer.
    Poke {
        /// The payload.
        key: PeerPayload,
        /// Its first chunk, unless it is queued already.
        offer: Option<Offer>,
    },
    /// Prune the reassembler; answered by `Done`.
    Prune,
    /// Nothing; answered by `Done`.
    Proceed,
    /// The round is over.
    End,
    /// The carrier failed and the round is broken off.
    Fail,
}

/// What came of the last thing to do.
#[derive(Clone, Debug, PartialEq, Eq)]
pub enum Event {
    /// The frames that the budget cleared.
    Cleared(Vec<Outgoing>),
    /// What arrived.
    Received(Vec<Incoming>),
    /// The carrier failed.
    Failed,
    /// What the reassembler made of a chunk, and the payload in the chunk's header.
    Accepted {
        /// The payload.
        payload_id: Option<Id>,
        /// What the reassembler made of it.
        arrival: Arrival,
    },
    /// Whether the pacer took the frame.
    Enqueued(bool),
    /// The missing chunks of a payload; none where the reassembler does not know it.
    Missing(Option<Vec<u16>>),
    /// It was done.
    Done,
}

/// Where a round stands: what it waits for.
#[derive(Clone, Debug, PartialEq, Eq)]
pub enum Stage {
    /// For the cleared frames.
    Clearing,
    /// For the next cleared frame to be sent.
    Sending,
    /// For what arrived.
    Receiving,
    /// To take the next arrival.
    Taking,
    /// For the reassembler's word on a chunk.
    Accepting,
    /// For the pacer's word on an acknowledgement.
    Acking,
    /// To offer the next chunk that a peer asked for.
    Resending,
    /// For the pacer's word on a chunk that a peer asked for.
    Offering(Offer),
    /// To ask for the next payload's missing chunks.
    Asking,
    /// For a payload's missing chunks.
    Listing,
    /// For the pacer's word on a request to a peer.
    Queueing(String),
    /// To poke the next payload.
    Poking,
    /// For the pacer's word on a poked payload's first chunk.
    Nudging(Offer),
    /// For the reassembler to be pruned.
    Pruning,
    /// For nothing: the round is over.
    Ended,
    /// For nothing: the round was broken off.
    Failed,
}

/// A round as plain values.
pub struct RoundState {
    /// When the round runs.
    pub now: i64,
    /// The engine.
    pub engine: DtnSyncer,
    /// What the round waits for.
    pub stage: Stage,
    /// The frames that the budget cleared.
    pub cleared: Seq<Outgoing>,
    /// How many of them were sent.
    pub sent: nat,
    /// What arrived.
    pub arrivals: Seq<Incoming>,
    /// How many of them were taken.
    pub taken: nat,
    /// The chunks that a peer asked for.
    pub burst: Burst,
    /// The payloads that completed.
    pub completed: Seq<Completed>,
    /// The payloads whose missing chunks are due to be asked for.
    pub requests: Seq<Seq<u8>>,
    /// How many of them were asked for.
    pub asked: nat,
    /// The payloads that are due to be poked.
    pub pokes: Seq<(Seq<char>, Seq<u8>)>,
    /// How many of them were poked.
    pub poked: nat,
}

/// One round of the engine.
pub struct DtnRound {
    now: i64,
    syncer: DtnSyncer,
    stage: Stage,
    cleared: Vec<Outgoing>,
    sent: usize,
    arrivals: Vec<Incoming>,
    taken: usize,
    burst: Burst,
    completed: Vec<Completed>,
    requests: Vec<Id>,
    asked: usize,
    pokes: Vec<PeerPayload>,
    poked: usize,
}

impl View for DtnRound {
    type V = RoundState;

    closed spec fn view(&self) -> RoundState {
        RoundState {
            now: self.now,
            engine: self.syncer,
            stage: self.stage,
            cleared: self.cleared@,
            sent: self.sent as nat,
            arrivals: self.arrivals@,
            taken: self.taken as nat,
            burst: self.burst,
            completed: self.completed@,
            requests: self.requests@.map_values(|i: Id| i@),
            asked: self.asked as nat,
            pokes: self.pokes@.map_values(|k: PeerPayload| k@),
            poked: self.poked as nat,
        }
    }
}

/// Whether an event answers what a round waits for.
pub open spec fn answers(stage: Stage, event: Event) -> bool {
    match stage {
        Stage::Clearing => event is Cleared,
        Stage::Receiving => event is Received || event is Failed,
        Stage::Accepting => event is Accepted,
        Stage::Acking | Stage::Offering(_) | Stage::Queueing(_) | Stage::Nudging(
            _,
        ) => event is Enqueued,
        Stage::Listing => event is Missing,
        Stage::Ended | Stage::Failed => false,
        _ => event is Done,
    }
}

/// What a poke makes of the engine, with the payload's first chunk to offer, unless it
/// is queued already.
pub open spec fn nudges(
    before: DtnSyncer,
    after: DtnSyncer,
    key: (Seq<char>, Seq<u8>),
    now: i64,
    offer: Option<Offer>,
) -> bool {
    let kept = before.cache()[key];
    &&& after.same_but_cache(&before)
    &&& after.cache() == before.cache().insert(key, CachedSend { last_touched: now, ..kept })
    &&& match offer {
        Some(o) => {
            &&& kept.chunks@.len() > 0
            &&& o.priority == kept.priority
            &&& o.to@ == key.0
            &&& (Frame { bytes: o.frame@, ids: o.ids }) == kept.chunks@[0]@
            &&& before.wanted(key.0, o.ids)
        },
        None => kept.chunks@.len() > 0 ==> !before.wanted(key.0, kept.chunks@[0].ids),
    }
}

/// One step of a round: from a state, on an event, to a state and what to do next.
pub open spec fn step(s: RoundState, event: Event, t: RoundState, todo: Todo) -> bool {
    match (s.stage, event) {
        (Stage::Clearing, Event::Cleared(frames)) => {
            &&& t == (RoundState { stage: Stage::Sending, cleared: frames@, sent: 0, ..s })
            &&& todo is Proceed
        },
        (Stage::Sending, Event::Done) => if s.sent < s.cleared.len() {
            let f = s.cleared[s.sent as int];
            &&& t == (RoundState { engine: t.engine, sent: s.sent + 1, ..s })
            &&& s.engine.on_frame_sent(&t.engine, f.to@, f.frame@, f.ids)
            &&& todo matches Todo::Transmit { to, frame } && to@ == f.to@ && frame@ == f.frame@
        } else {
            &&& t == (RoundState { stage: Stage::Receiving, ..s })
            &&& todo is Receive
        },
        (Stage::Receiving, Event::Received(frames)) => {
            &&& t == (RoundState { stage: Stage::Taking, arrivals: frames@, taken: 0, ..s })
            &&& todo is Proceed
        },
        (Stage::Receiving, Event::Failed) => {
            &&& t == (RoundState { stage: Stage::Failed, ..s })
            &&& todo is Fail
        },
        (Stage::Taking, Event::Done) => if s.taken < s.arrivals.len() {
            let a = s.arrivals[s.taken as int];
            match control_of(a.frame@) {
                Some(ctrl) => {
                    &&& t == (RoundState {
                        engine: t.engine,
                        stage: Stage::Resending,
                        taken: s.taken + 1,
                        burst: t.burst,
                        ..s
                    })
                    &&& s.engine.on_control(&t.engine, a.from@, ctrl, s.now, t.burst)
                    &&& todo is Proceed
                },
                None => {
                    &&& t == (RoundState { stage: Stage::Accepting, taken: s.taken + 1, ..s })
                    &&& todo matches Todo::Accept { frame } && frame@ == a.frame@
                },
            }
        } else {
            &&& t == (RoundState { stage: Stage::Asking, requests: t.requests, asked: 0, ..s })
            &&& s.engine.lists_requests(t.requests, s.now)
            &&& todo is Proceed
        },
        (Stage::Accepting, Event::Accepted { payload_id, arrival }) => {
            let from = s.arrivals[s.taken - 1].from@;
            &&& todo is Enqueue || todo is Proceed
            &&& t == (RoundState {
                engine: t.engine,
                stage: if todo is Enqueue {
                    Stage::Acking
                } else {
                    Stage::Taking
                },
                completed: t.completed,
                ..s
            })
            &&& t.completed == s.completed || t.completed == s.completed.push(t.completed.last())
            &&& s.engine.on_arrival(
                &t.engine,
                from,
                payload_id,
                arrival,
                (
                    match todo {
                        Todo::Enqueue(ack) => Some(ack),
                        _ => None,
                    },
                    if t.completed == s.completed {
                        None
                    } else {
                        Some(t.completed.last())
                    },
                ),
            )
        },
        (Stage::Acking, Event::Enqueued(_)) => {
            &&& t == (RoundState { stage: Stage::Taking, ..s })
            &&& todo is Proceed
        },
        (Stage::Resending, Event::Done) => match todo {
            Todo::Enqueue(o) => {
                &&& t == (RoundState { stage: t.stage, burst: t.burst, ..s })
                &&& t.stage matches Stage::Offering(held) && same_offer(held, o)
                &&& s.engine.offers_next(s.burst, t.burst, Some(o))
            },
            _ => {
                &&& t == (RoundState { stage: Stage::Taking, burst: t.burst, ..s })
                &&& s.engine.offers_next(s.burst, t.burst, None)
                &&& todo is Proceed
            },
        },
        (Stage::Offering(o), Event::Enqueued(taken)) => {
            &&& t == (RoundState { engine: t.engine, stage: Stage::Resending, ..s })
            &&& if taken {
                s.engine.on_chunk_queued(&t.engine, o)
            } else {
                t.engine == s.engine
            }
            &&& todo is Proceed
        },
        (Stage::Asking, Event::Done) => if s.asked < s.requests.len() {
            &&& t == (RoundState { stage: Stage::Listing, asked: s.asked + 1, ..s })
            &&& todo matches Todo::ListMissing(id) && id@ == s.requests[s.asked as int]
        } else {
            &&& t == (RoundState { stage: Stage::Poking, pokes: t.pokes, poked: 0, ..s })
            &&& s.engine.lists_pokes(t.pokes, s.now)
            &&& todo is Proceed
        },
        (Stage::Listing, Event::Missing(missing)) => {
            let id = s.requests[s.asked - 1];
            match todo {
                Todo::Enqueue(o) => {
                    &&& t == (RoundState { engine: t.engine, stage: Stage::Queueing(o.to), ..s })
                    &&& s.engine.on_request(&t.engine, id, listed(missing), s.now, Some(o))
                },
                _ => {
                    &&& t == (RoundState { engine: t.engine, stage: Stage::Asking, ..s })
                    &&& s.engine.on_request(&t.engine, id, listed(missing), s.now, None)
                    &&& todo is Proceed
                },
            }
        },
        (Stage::Queueing(to), Event::Enqueued(taken)) => {
            &&& t == (RoundState { engine: t.engine, stage: Stage::Asking, ..s })
            &&& if taken {
                s.engine.on_request_queued(&t.engine, to@, s.requests[s.asked - 1])
            } else {
                t.engine == s.engine
            }
            &&& todo is Proceed
        },
        (Stage::Poking, Event::Done) => if s.poked < s.pokes.len() {
            &&& t == (RoundState { engine: t.engine, stage: t.stage, poked: s.poked + 1, ..s })
            &&& todo matches Todo::Poke { key, offer } && {
                &&& key@ == s.pokes[s.poked as int]
                &&& nudges(s.engine, t.engine, key@, s.now, offer)
                &&& match offer {
                    Some(o) => t.stage matches Stage::Nudging(held) && same_offer(held, o),
                    None => t.stage == Stage::Poking,
                }
            }
        } else {
            &&& t == (RoundState { stage: Stage::Pruning, ..s })
            &&& todo is Prune
        },
        (Stage::Nudging(o), Event::Enqueued(taken)) => {
            &&& t == (RoundState { engine: t.engine, stage: Stage::Poking, ..s })
            &&& if taken {
                s.engine.on_chunk_queued(&t.engine, o)
            } else {
                t.engine == s.engine
            }
            &&& todo is Proceed
        },
        (Stage::Pruning, Event::Done) => {
            &&& t == (RoundState { engine: t.engine, stage: Stage::Ended, ..s })
            &&& s.engine.on_prune(&t.engine, s.now)
            &&& todo is End
        },
        _ => false,
    }
}

impl RoundState {
    /// A round that has just begun.
    pub open spec fn fresh(&self) -> bool {
        &&& self.stage is Clearing
        &&& self.cleared.len() == 0
        &&& self.sent == 0
        &&& self.arrivals.len() == 0
        &&& self.taken == 0
        &&& self.burst.rest() == Seq::<Frame>::empty()
        &&& self.completed.len() == 0
        &&& self.requests.len() == 0
        &&& self.asked == 0
        &&& self.pokes.len() == 0
        &&& self.poked == 0
    }

    /// The counts lie within their lists, and what is still to be served is there.
    pub open spec fn wf(&self) -> bool {
        &&& self.engine.wf()
        &&& self.burst.wf()
        &&& self.sent <= self.cleared.len()
        &&& self.taken <= self.arrivals.len()
        &&& self.asked <= self.requests.len()
        &&& self.poked <= self.pokes.len()
        &&& self.requests.no_duplicates()
        &&& self.pokes.no_duplicates()
        &&& self.stage is Accepting ==> self.taken > 0
        &&& self.stage is Listing || self.stage is Queueing ==> self.asked > 0
        &&& self.stage is Asking || self.stage is Listing || self.stage is Queueing ==> forall|
            j: int,
        |
            0 <= j < self.requests.len() ==> self.engine.in_flight().dom().contains(
                #[trigger] self.requests[j],
            )
        &&& self.stage is Poking || self.stage is Nudging ==> forall|j: int|
            0 <= j < self.pokes.len() ==> self.engine.cache().dom().contains(
                #[trigger] self.pokes[j],
            )
    }
}

impl DtnRound {
    /// Begins a round at `now`, and says what to do first.
    pub fn start(syncer: DtnSyncer, now: i64) -> (r: (Self, Todo))
        requires
            syncer.wf(),
        ensures
            r.0@.wf(),
            r.0@.fresh(),
            r.0@.engine == syncer,
            r.0@.now == now,
            r.1 is Clear,
    {
        let round = DtnRound {
            now,
            syncer,
            stage: Stage::Clearing,
            cleared: Vec::new(),
            sent: 0,
            arrivals: Vec::new(),
            taken: 0,
            burst: Burst::empty(String::new()),
            completed: Vec::new(),
            requests: Vec::new(),
            asked: 0,
            pokes: Vec::new(),
            poked: 0,
        };
        (round, Todo::Clear)
    }

    /// Takes what came of the last thing to do, and says what to do next.
    pub fn feed(&mut self, event: Event) -> (r: Todo)
        requires
            old(self)@.wf(),
            answers(old(self)@.stage, event),
        ensures
            final(self)@.wf(),
            step(old(self)@, event, final(self)@, r),
    {
        match event {
            Event::Cleared(frames) => {
                self.cleared = frames;
                self.sent = 0;
                self.stage = Stage::Sending;
                Todo::Proceed
            },
            Event::Received(frames) => {
                self.arrivals = frames;
                self.taken = 0;
                self.stage = Stage::Taking;
                Todo::Proceed
            },
            Event::Failed => {
                self.stage = Stage::Failed;
                Todo::Fail
            },
            Event::Accepted { payload_id, arrival } => self.accepted(payload_id, arrival),
            Event::Enqueued(taken) => self.enqueued(taken),
            Event::Missing(missing) => self.listed_missing(missing),
            Event::Done => match &self.stage {
                Stage::Sending => self.send_next(),
                Stage::Taking => self.take_next(),
                Stage::Resending => self.resend_next(),
                Stage::Asking => self.ask_next(),
                Stage::Poking => self.poke_next(),
                _ => {
                    self.syncer.prune_outbound(self.now);
                    self.stage = Stage::Ended;
                    Todo::End
                },
            },
        }
    }

    fn send_next(&mut self) -> (r: Todo)
        requires
            old(self)@.wf(),
            old(self)@.stage is Sending,
        ensures
            final(self)@.wf(),
            step(old(self)@, Event::Done, final(self)@, r),
    {
        if self.sent < self.cleared.len() {
            let f = &self.cleared[self.sent];
            let (to, frame) = (f.to.clone(), slice_to_vec(f.frame.as_slice()));
            self.syncer.frame_sent(&f.to, f.frame.as_slice(), f.ids);
            self.sent = self.sent + 1;
            Todo::Transmit { to, frame }
        } else {
            self.stage = Stage::Receiving;
            Todo::Receive
        }
    }

    fn take_next(&mut self) -> (r: Todo)
        requires
            old(self)@.wf(),
            old(self)@.stage is Taking,
        ensures
            final(self)@.wf(),
            step(old(self)@, Event::Done, final(self)@, r),
    {
        if self.taken < self.arrivals.len() {
            let a = &self.arrivals[self.taken];
            match ControlFrame::decode(a.frame.as_slice()) {
                Some(ctrl) => {
                    self.burst = self.syncer.handle_control(&a.from, ctrl, self.now);
                    self.taken = self.taken + 1;
                    self.stage = Stage::Resending;
                    Todo::Proceed
                },
                None => {
                    let frame = slice_to_vec(a.frame.as_slice());
                    self.taken = self.taken + 1;
                    self.stage = Stage::Accepting;
                    Todo::Accept { frame }
                },
            }
        } else {
            self.requests = self.syncer.due_requests(self.now);
            self.asked = 0;
            self.stage = Stage::Asking;
            proof {
                let ids = self@.requests;
                assert forall|j: int| 0 <= j < ids.len() implies self.syncer.in_flight().dom().contains(
                    #[trigger] ids[j],
                ) by {
                    assert(ids.contains(ids[j]));
                }
            }
            Todo::Proceed
        }
    }

    fn resend_next(&mut self) -> (r: Todo)
        requires
            old(self)@.wf(),
            old(self)@.stage is Resending,
        ensures
            final(self)@.wf(),
            step(old(self)@, Event::Done, final(self)@, r),
    {
        match self.syncer.next_offer(&mut self.burst) {
            Some(o) => {
                self.stage = Stage::Offering(copy_offer(&o));
                Todo::Enqueue(o)
            },
            None => {
                self.stage = Stage::Taking;
                Todo::Proceed
            },
        }
    }

    fn accepted(&mut self, payload_id: Option<Id>, arrival: Arrival) -> (r: Todo)
        requires
            old(self)@.wf(),
            old(self)@.stage is Accepting,
        ensures
            final(self)@.wf(),
            step(old(self)@, (Event::Accepted { payload_id, arrival }), final(self)@, r),
    {
        let (ack, done) = self.syncer.arrival(
            &self.arrivals[self.taken - 1].from,
            payload_id,
            arrival,
        );
        match done {
            Some(c) => {
                self.completed.push(c);
                assert(self.completed@.len() == old(self)@.completed.len() + 1);
            },
            None => {},
        }
        match ack {
            Some(o) => {
                self.stage = Stage::Acking;
                Todo::Enqueue(o)
            },
            None => {
                self.stage = Stage::Taking;
                Todo::Proceed
            },
        }
    }

    fn enqueued(&mut self, taken: bool) -> (r: Todo)
        requires
            old(self)@.wf(),
            answers(old(self)@.stage, Event::Enqueued(taken)),
        ensures
            final(self)@.wf(),
            step(old(self)@, Event::Enqueued(taken), final(self)@, r),
    {
        match &self.stage {
            Stage::Offering(o) => {
                if taken {
                    self.syncer.chunk_queued(o);
                }
                self.stage = Stage::Resending;
            },
            Stage::Nudging(o) => {
                if taken {
                    self.syncer.chunk_queued(o);
                }
                self.stage = Stage::Poking;
            },
            Stage::Queueing(to) => {
                if taken {
                    self.syncer.request_queued(to.clone(), self.requests[self.asked - 1]);
                }
                self.stage = Stage::Asking;
            },
            _ => {
                self.stage = Stage::Taking;
            },
        }
        Todo::Proceed
    }

    fn ask_next(&mut self) -> (r: Todo)
        requires
            old(self)@.wf(),
            old(self)@.stage is Asking,
        ensures
            final(self)@.wf(),
            step(old(self)@, Event::Done, final(self)@, r),
    {
        if self.asked < self.requests.len() {
            let id = self.requests[self.asked];
            self.asked = self.asked + 1;
            self.stage = Stage::Listing;
            Todo::ListMissing(id)
        } else {
            self.pokes = self.syncer.due_pokes(self.now);
            self.poked = 0;
            self.stage = Stage::Poking;
            proof {
                let keys = self@.pokes;
                assert forall|j: int| 0 <= j < keys.len() implies self.syncer.cache().dom().contains(
                    #[trigger] keys[j],
                ) by {
                    assert(keys.contains(keys[j]));
                }
            }
            Todo::Proceed
        }
    }

    fn listed_missing(&mut self, missing: Option<Vec<u16>>) -> (r: Todo)
        requires
            old(self)@.wf(),
            old(self)@.stage is Listing,
        ensures
            final(self)@.wf(),
            step(old(self)@, Event::Missing(missing), final(self)@, r),
    {
        let id = self.requests[self.asked - 1];
        assert(id@ == self@.requests[self.asked - 1]);
        match self.syncer.make_request(id, missing, self.now) {
            Some(o) => {
                self.stage = Stage::Queueing(o.to.clone());
                Todo::Enqueue(o)
            },
            None => {
                self.stage = Stage::Asking;
                Todo::Proceed
            },
        }
    }

    fn poke_next(&mut self) -> (r: Todo)
        requires
            old(self)@.wf(),
            old(self)@.stage is Poking,
        ensures
            final(self)@.wf(),
            step(old(self)@, Event::Done, final(self)@, r),
    {
        if self.poked < self.pokes.len() {
            let key = self.pokes[self.poked].copy_key();
            let ghost before = self.syncer;
            let ghost kept = before.cache()[key@];
            assert(key@ == self@.pokes[self.poked as int]);
            let mut burst = self.syncer.poke(self.pokes[self.poked].copy_key(), self.now);
            let ghost all = burst;
            let offer = self.syncer.next_offer(&mut burst);
            self.poked = self.poked + 1;
            proof {
                if kept.chunks@.len() > 0 {
                    assert(all.rest().len() == 1);
                    assert(all.rest()[0] == all.chunks@[all.next as int]@);
                    assert(all.rest()[0] == kept.chunks@[0]@);
                } else {
                    assert(all.rest().len() == 0);
                }
            }
            match &offer {
                Some(o) => {
                    self.stage = Stage::Nudging(copy_offer(o));
                },
                None => {},
            }
            assert(nudges(before, self.syncer, key@, self.now, offer));
            Todo::Poke { key, offer }
        } else {
            self.stage = Stage::Pruning;
            Todo::Prune
        }
    }

    /// The engine once the round is over, and the payloads that completed; none of a
    /// round that was broken off.
    pub fn finish(self) -> (r: (DtnSyncer, Option<Vec<Completed>>))
        ensures
            r.0 == self@.engine,
            match r.1 {
                Some(done) => self@.stage is Ended && done@ == self@.completed,
                None => !(self@.stage is Ended),
            },
    {
        match self.stage {
            Stage::Ended => (self.syncer, Some(self.completed)),
            _ => (self.syncer, None),
        }
    }
}

/// A round from its start on: the states it went through, what it said to do in each,
/// and the events that took it from each state to the next.
pub struct Run {
    /// The states.
    pub states: Seq<RoundState>,
    /// What to do in each.
    pub todos: Seq<Todo>,
    /// What came of it.
    pub events: Seq<Event>,
}

impl Run {
    /// Every state but the first comes of the one before it by a step.
    pub open spec fn valid(&self) -> bool {
        &&& self.states.len() == self.events.len() + 1
        &&& self.todos.len() == self.states.len()
        &&& self.states[0].fresh()
        &&& self.todos[0] is Clear
        &&& forall|i: int|
            0 <= i < self.events.len() ==> step(
                #[trigger] self.states[i],
                self.events[i],
                self.states[i + 1],
                self.todos[i + 1],
            )
    }

    /// The round came to its end.
    pub open spec fn ended(&self) -> bool {
        self.states.last().stage is Ended
    }

    /// The time of the round.
    pub open spec fn now(&self) -> i64 {
        self.states[0].now
    }

    /// The moment at which the last arrival had been taken.
    pub open spec fn arrivals_taken(&self, a: int) -> bool {
        &&& 0 <= a < self.events.len()
        &&& self.states[a].stage is Taking
        &&& self.states[a + 1].stage is Asking
    }

    /// The moment at which the last request had been made.
    pub open spec fn requests_made(&self, b: int) -> bool {
        &&& 0 <= b < self.events.len()
        &&& self.states[b].stage is Asking
        &&& self.states[b + 1].stage is Poking
    }
}

/// The frames that were to be sent on the carrier, in order.
pub open spec fn sent_frames(todos: Seq<Todo>) -> Seq<(Seq<char>, Seq<u8>)>
    decreases todos.len(),
{
    if todos.len() == 0 {
        Seq::empty()
    } else {
        match todos.last() {
            Todo::Transmit { to, frame } => sent_frames(todos.drop_last()).push((to@, frame@)),
            _ => sent_frames(todos.drop_last()),
        }
    }
}

/// The chunks that were handed to the reassembler, in order.
pub open spec fn accepted_chunks(todos: Seq<Todo>) -> Seq<Seq<u8>>
    decreases todos.len(),
{
    if todos.len() == 0 {
        Seq::empty()
    } else {
        match todos.last() {
            Todo::Accept { frame } => accepted_chunks(todos.drop_last()).push(frame@),
            _ => accepted_chunks(todos.drop_last()),
        }
    }
}

/// The payloads whose missing chunks were to be listed, in order.
pub open spec fn asked_ids(todos: Seq<Todo>) -> Seq<Seq<u8>>
    decreases todos.len(),
{
    if todos.len() == 0 {
        Seq::empty()
    } else {
        match todos.last() {
            Todo::ListMissing(id) => asked_ids(todos.drop_last()).push(id@),
            _ => asked_ids(todos.drop_last()),
        }
    }
}

/// The payloads that were poked, in order.
pub open spec fn poked_keys(todos: Seq<Todo>) -> Seq<(Seq<char>, Seq<u8>)>
    decreases todos.len(),
{
    if todos.len() == 0 {
        Seq::empty()
    } else {
        match todos.last() {
            Todo::Poke { key, .. } => poked_keys(todos.drop_last()).push(key@),
            _ => poked_keys(todos.drop_last()),
        }
    }
}

/// How far a round has come: it clears, sends, receives, takes, asks, pokes and prunes,
/// in this order.
pub open spec fn phase(stage: Stage) -> int {
    match stage {
        Stage::Clearing => 0,
        Stage::Sending => 1,
        Stage::Receiving => 2,
        Stage::Taking | Stage::Accepting | Stage::Acking | Stage::Resending | Stage::Offering(
            _,
        ) => 3,
        Stage::Asking | Stage::Listing | Stage::Queueing(_) => 4,
        Stage::Poking | Stage::Nudging(_) => 5,
        Stage::Pruning => 6,
        Stage::Ended | Stage::Failed => 7,
    }
}

/// What is left of a phase.
pub open spec fn left(s: RoundState) -> int {
    if phase(s.stage) == 1 {
        s.cleared.len() - s.sent
    } else if phase(s.stage) == 3 {
        s.arrivals.len() - s.taken
    } else if phase(s.stage) == 4 {
        s.requests.len() - s.asked
    } else if phase(s.stage) == 5 {
        s.pokes.len() - s.poked
    } else {
        0
    }
}

/// What is left of one arrival, request or poke.
pub open spec fn inner(s: RoundState) -> int {
    match s.stage {
        Stage::Offering(_) => 2 * (s.burst.chunks@.len() - s.burst.next) + 2,
        Stage::Resending => 2 * (s.burst.chunks@.len() - s.burst.next) + 1,
        Stage::Accepting => 2,
        Stage::Acking => 1,
        Stage::Listing => 2,
        Stage::Queueing(_) => 1,
        Stage::Nudging(_) => 1,
        _ => 0,
    }
}

/// Every step brings a round nearer to its end: to a later phase, or to less that is
/// left of the phase. So every round ends.
pub proof fn law_a_round_moves_on(s: RoundState, event: Event, t: RoundState, todo: Todo)
    requires
        s.wf(),
        step(s, event, t, todo),
    ensures
        phase(s.stage) <= phase(t.stage) <= 7,
        phase(t.stage) == phase(s.stage) ==> 0 <= left(t) <= left(s),
        phase(t.stage) == phase(s.stage) && left(t) == left(s) ==> 0 <= inner(t) < inner(s),
{
}

/// The phases of a round come in their order.
pub proof fn law_phases_come_in_order(run: Run, i: int, j: int)
    requires
        run.valid(),
        0 <= i <= j < run.states.len(),
    ensures
        phase(run.states[i].stage) <= phase(run.states[j].stage),
        run.states[j].now == run.states[i].now,
    decreases j - i,
{
    if i < j {
        law_phases_come_in_order(run, i, j - 1);
        assert(step(
            run.states[j - 1],
            run.events[j - 1],
            run.states[j - 1 + 1],
            run.todos[j - 1 + 1],
        ));
    }
}

/// What is to be sent of the frames that the budget cleared.
pub open spec fn cleared_frames(cleared: Seq<Outgoing>) -> Seq<(Seq<char>, Seq<u8>)> {
    cleared.map_values(|f: Outgoing| (f.to@, f.frame@))
}

/// The frames among the arrivals that are no control frames, in order.
pub open spec fn data_chunks(arrivals: Seq<Incoming>) -> Seq<Seq<u8>>
    decreases arrivals.len(),
{
    if arrivals.len() == 0 {
        Seq::empty()
    } else if control_of(arrivals.last().frame@) is None {
        data_chunks(arrivals.drop_last()).push(arrivals.last().frame@)
    } else {
        data_chunks(arrivals.drop_last())
    }
}

proof fn lemma_said(todos: Seq<Todo>, i: int)
    requires
        0 <= i < todos.len(),
    ensures
        todos.take(i + 1).last() == todos[i],
        todos.take(i + 1).drop_last() == todos.take(i),
{
    assert(todos.take(i + 1).drop_last() =~= todos.take(i));
}

proof fn lemma_frames(run: Run, i: int)
    requires
        run.valid(),
        0 <= i < run.states.len(),
    ensures
        ({
            let s = run.states[i];
            let sent = sent_frames(run.todos.take(i + 1));
            if phase(s.stage) == 0 {
                sent.len() == 0
            } else {
                &&& s.sent <= s.cleared.len()
                &&& sent == cleared_frames(s.cleared.take(s.sent as int))
                &&& phase(s.stage) > 1 ==> s.sent == s.cleared.len()
            }
        }),
        ({
            let s = run.states[i];
            let accepted = accepted_chunks(run.todos.take(i + 1));
            if phase(s.stage) < 3 || s.stage is Failed {
                accepted.len() == 0
            } else {
                &&& s.taken <= s.arrivals.len()
                &&& accepted == data_chunks(s.arrivals.take(s.taken as int))
                &&& phase(s.stage) > 3 ==> s.taken == s.arrivals.len()
            }
        }),
    decreases i,
{
    let s = run.states[i];
    lemma_said(run.todos, i);
    reveal_with_fuel(sent_frames, 2);
    reveal_with_fuel(accepted_chunks, 2);
    if i > 0 {
        let p = run.states[i - 1];
        let todo = run.todos[i];
        lemma_frames(run, i - 1);
        assert(step(p, run.events[i - 1], run.states[i - 1 + 1], run.todos[i - 1 + 1]));
        if p.stage is Clearing {
            assert(s.cleared.take(0) =~= Seq::<Outgoing>::empty());
            assert(sent_frames(run.todos.take(i + 1)) =~= cleared_frames(s.cleared.take(0)));
        } else if p.stage is Sending && p.sent < p.cleared.len() {
            assert(cleared_frames(s.cleared.take(s.sent as int)) =~= cleared_frames(
                p.cleared.take(p.sent as int),
            ).push((p.cleared[p.sent as int].to@, p.cleared[p.sent as int].frame@)));
        } else if p.stage is Receiving {
            assert(s.arrivals.take(0) =~= Seq::<Incoming>::empty());
            assert(accepted_chunks(run.todos.take(i + 1)) =~= data_chunks(s.arrivals.take(0)));
        } else if p.stage is Taking && p.taken < p.arrivals.len() {
            assert(s.arrivals.take(s.taken as int).drop_last() =~= p.arrivals.take(
                p.taken as int,
            ));
            assert(s.arrivals.take(s.taken as int).last() == p.arrivals[p.taken as int]);
        }
    } else {
        assert(run.todos.take(0) =~= Seq::<Todo>::empty());
    }
}

/// By the end of a round every frame that the budget cleared was sent once, in order,
/// and every arrival was taken once, in order: what is no control frame went to the
/// reassembler.
pub proof fn law_a_round_passes_every_frame_on(run: Run)
    requires
        run.valid(),
        run.ended(),
    ensures
        sent_frames(run.todos) == cleared_frames(run.states.last().cleared),
        accepted_chunks(run.todos) == data_chunks(run.states.last().arrivals),
        run.states.last().taken == run.states.last().arrivals.len(),
{
    let n = run.states.len() - 1;
    let s = run.states[n];
    lemma_frames(run, n);
    assert(run.todos.take(n + 1) =~= run.todos);
    assert(s.cleared.take(s.sent as int) =~= s.cleared);
    assert(s.arrivals.take(s.taken as int) =~= s.arrivals);
}

spec fn asked_in(run: Run, i: int) -> bool {
    let s = run.states[i];
    let asked = asked_ids(run.todos.take(i + 1));
    if phase(s.stage) < 4 || s.stage is Failed {
        asked.len() == 0
    } else {
        &&& s.asked <= s.requests.len()
        &&& asked == s.requests.take(s.asked as int)
        &&& phase(s.stage) > 4 ==> s.asked == s.requests.len()
    }
}

spec fn poked_in(run: Run, i: int) -> bool {
    let s = run.states[i];
    let poked = poked_keys(run.todos.take(i + 1));
    if phase(s.stage) < 5 || s.stage is Failed {
        poked.len() == 0
    } else {
        &&& s.poked <= s.pokes.len()
        &&& poked == s.pokes.take(s.poked as int)
        &&& phase(s.stage) > 5 ==> s.poked == s.pokes.len()
    }
}

proof fn lemma_served(run: Run, i: int)
    requires
        run.valid(),
        0 <= i < run.states.len(),
    ensures
        asked_in(run, i),
        poked_in(run, i),
    decreases i,
{
    let s = run.states[i];
    lemma_said(run.todos, i);
    reveal_with_fuel(asked_ids, 2);
    reveal_with_fuel(poked_keys, 2);
    if i > 0 {
        let p = run.states[i - 1];
        lemma_served(run, i - 1);
        assert(step(p, run.events[i - 1], run.states[i - 1 + 1], run.todos[i - 1 + 1]));
        if p.stage is Taking && s.stage is Asking {
            assert(asked_ids(run.todos.take(i + 1)) =~= s.requests.take(0));
        } else if p.stage is Asking && s.stage is Listing {
            assert(s.requests.take(s.asked as int) =~= p.requests.take(p.asked as int).push(
                p.requests[p.asked as int],
            ));
        } else if p.stage is Asking {
            assert(poked_keys(run.todos.take(i + 1)) =~= s.pokes.take(0));
        } else if p.stage is Poking && p.poked < p.pokes.len() {
            assert(s.pokes.take(s.poked as int) =~= p.pokes.take(p.poked as int).push(
                p.pokes[p.poked as int],
            ));
        }
    } else {
        assert(run.todos.take(0) =~= Seq::<Todo>::empty());
    }
}

/// The last moment before a state at which all arrivals had been taken, with the list of
/// requests that was made then.
proof fn lemma_arrivals_taken(run: Run, i: int) -> (a: int)
    requires
        run.valid(),
        0 <= i < run.states.len(),
        phase(run.states[i].stage) >= 4,
        !(run.states[i].stage is Failed),
    ensures
        a < i,
        run.arrivals_taken(a),
        run.states[a].engine.lists_requests(run.states[i].requests, run.now()),
    decreases i,
{
    let p = run.states[i - 1];
    assert(step(p, run.events[i - 1], run.states[i - 1 + 1], run.todos[i - 1 + 1]));
    law_phases_come_in_order(run, 0, i - 1);
    if phase(p.stage) == 3 {
        assert(run.states[i - 1 + 1].stage is Asking);
        i - 1
    } else {
        lemma_arrivals_taken(run, i - 1)
    }
}

proof fn lemma_requests_made(run: Run, i: int) -> (b: int)
    requires
        run.valid(),
        0 <= i < run.states.len(),
        phase(run.states[i].stage) >= 5,
        !(run.states[i].stage is Failed),
    ensures
        b < i,
        run.requests_made(b),
        run.states[b].engine.lists_pokes(run.states[i].pokes, run.now()),
        run.states[b].requests == run.states[i].requests,
    decreases i,
{
    let p = run.states[i - 1];
    assert(step(p, run.events[i - 1], run.states[i - 1 + 1], run.todos[i - 1 + 1]));
    law_phases_come_in_order(run, 0, i - 1);
    if phase(p.stage) == 4 {
        assert(run.states[i - 1 + 1].stage is Poking);
        i - 1
    } else {
        lemma_requests_made(run, i - 1)
    }
}

/// By the end of a round every payload whose missing chunks were due once the arrivals
/// had been taken was asked for once, and every payload that was due to be poked once the
/// requests had been made was poked once; no other was. The result is these two moments.
pub proof fn law_a_round_serves_what_is_due(run: Run) -> (r: (int, int))
    requires
        run.valid(),
        run.ended(),
    ensures
        r.0 < r.1,
        run.arrivals_taken(r.0),
        run.requests_made(r.1),
        run.states[r.0].engine.lists_requests(asked_ids(run.todos), run.now()),
        run.states[r.1].engine.lists_pokes(poked_keys(run.todos), run.now()),
{
    let n = run.states.len() - 1;
    let s = run.states[n];
    lemma_served(run, n);
    assert(run.todos.take(n + 1) =~= run.todos);
    assert(s.requests.take(s.asked as int) =~= s.requests);
    assert(s.pokes.take(s.poked as int) =~= s.pokes);
    let b = lemma_requests_made(run, n);
    let a = lemma_arrivals_taken(run, b);
    (a, b)
}

/// What answering a request for its missing chunks leaves of an in-flight payload: it
/// counts as asked for at `now` where the reassembler listed any.
pub open spec fn asked_for(state: InboundState, missing: Option<Vec<u16>>, now: i64) -> InboundState {
    if listed(missing).len() > 0 {
        InboundState { last_request_at: now, ..state }
    } else {
        state
    }
}

spec fn unasked_kept(run: Run, a: int, i: int) -> bool {
    let s = run.states[i];
    let was = run.states[a].engine.in_flight();
    let is = s.engine.in_flight();
    &&& is.dom() == was.dom()
    &&& forall|k: int|
        s.asked - (if s.stage is Listing {
            1int
        } else {
            0
        }) <= k < s.requests.len() ==> is[#[trigger] s.requests[k]] == was[s.requests[k]]
    &&& forall|id: Seq<u8>| #[trigger]
        is.dom().contains(id) && !s.requests.contains(id) ==> is[id] == was[id]
}

proof fn lemma_asking(run: Run, a: int, i: int)
    requires
        run.valid(),
        run.arrivals_taken(a),
        a < i < run.states.len(),
    ensures
        phase(run.states[i].stage) >= 4,
        !(run.states[i].stage is Failed),
        run.states[a].engine.lists_requests(run.states[i].requests, run.now()),
        run.states[i].asked <= run.states[i].requests.len(),
        run.states[i].stage is Listing || run.states[i].stage is Queueing ==> run.states[i].asked
            > 0,
        unasked_kept(run, a, i),
    decreases i,
{
    let s = run.states[i];
    let p = run.states[i - 1];
    let event = run.events[i - 1];
    let was = run.states[a].engine.in_flight();
    law_phases_come_in_order(run, 0, i - 1);
    assert(step(p, event, run.states[i - 1 + 1], run.todos[i - 1 + 1]));
    if i > a + 1 {
        lemma_asking(run, a, i - 1);
        if p.stage is Listing {
            let id = p.requests[p.asked - 1];
            assert(p.requests.contains(id));
            assert(run.states[a].engine.request_due(id, run.now()));
            assert(s.engine.in_flight().dom() =~= was.dom());
        }
    }
}

proof fn lemma_asked(run: Run, a: int, j: int, i: int)
    requires
        run.valid(),
        run.arrivals_taken(a),
        a < j < i < run.states.len(),
        run.states[j].stage is Listing,
    ensures
        run.states[i].requests == run.states[j].requests,
        run.states[i].asked >= run.states[j].asked > 0,
        run.states[i].stage is Listing ==> run.states[i].asked > run.states[j].asked,
        run.events[j] is Missing,
        ({
            let id = run.states[j].requests[run.states[j].asked - 1];
            run.states[i].engine.in_flight()[id] == asked_for(
                run.states[a].engine.in_flight()[id],
                run.events[j]->Missing_0,
                run.now(),
            )
        }),
    decreases i,
{
    let s = run.states[i];
    let p = run.states[i - 1];
    law_phases_come_in_order(run, 0, i - 1);
    lemma_asking(run, a, i - 1);
    assert(step(p, run.events[i - 1], run.states[i - 1 + 1], run.todos[i - 1 + 1]));
    if i > j + 1 {
        lemma_asked(run, a, j, i - 1);
    }
}

/// A payload that a round asks for is noted as asked for exactly where the reassembler
/// listed missing chunks of it, and then the request for those chunks is what the round
/// offers next; no other in-flight payload is touched from then on. `a` is the moment at
/// which the arrivals had been taken.
pub proof fn law_a_round_notes_its_requests(run: Run, a: int, j: int, id: Id)
    requires
        run.valid(),
        run.ended(),
        run.arrivals_taken(a),
        0 <= j < run.events.len(),
        run.todos[j] == Todo::ListMissing(id),
    ensures
        a < j,
        run.events[j] is Missing,
        ({
            let missing = run.events[j]->Missing_0;
            let was = run.states[a].engine.in_flight();
            &&& run.states.last().engine.in_flight()[id@] == asked_for(was[id@], missing, run.now())
            &&& listed(missing).len() > 0 ==> (run.todos[j + 1] matches Todo::Enqueue(o) && o.to
                == was[id@].source && o.ids is None && o.frame@ == control_bytes(
                Control::RequestMissing { payload_id: id@, missing: listed(missing) },
            ))
        }),
        run.states.last().engine.in_flight().dom() == run.states[a].engine.in_flight().dom(),
        forall|other: Seq<u8>| #[trigger]
            run.states.last().engine.in_flight().dom().contains(other)
                && !run.states[a].engine.request_due(other, run.now())
                ==> run.states.last().engine.in_flight()[other]
                == run.states[a].engine.in_flight()[other],
{
    let n = run.states.len() - 1;
    if j == 0 {
        assert(run.todos[0] is Clear);
    } else {
        assert(step(
            run.states[j - 1],
            run.events[j - 1],
            run.states[j - 1 + 1],
            run.todos[j - 1 + 1],
        ));
        assert(run.states[j].stage is Listing);
    }
    assert(step(run.states[j], run.events[j], run.states[j + 1], run.todos[j + 1]));
    if j <= a {
        law_phases_come_in_order(run, j, a);
    }
    lemma_asking(run, a, j);
    lemma_asking(run, a, n);
    lemma_asked(run, a, j, n);
    assert(run.states[j].requests[run.states[j].asked - 1] == id@);
}

spec fn poking_kept(run: Run, b: int, i: int) -> bool {
    let s = run.states[i];
    let was = run.states[b].engine;
    let done = s.pokes.take(s.poked as int);
    &&& s.engine.tuning() == was.tuning()
    &&& if s.stage is Ended {
        &&& forall|key: (Seq<char>, Seq<u8>)|
            #![trigger s.engine.cache().dom().contains(key)]
            s.engine.cache().dom().contains(key) <==> was.cache().dom().contains(key)
                && !was.expired(key, run.now())
    } else {
        s.engine.cache().dom() == was.cache().dom()
    }
    &&& forall|key: (Seq<char>, Seq<u8>)|
        #![trigger s.engine.cache().dom().contains(key)]
        s.engine.cache().dom().contains(key) ==> s.engine.cache()[key] == if done.contains(key) {
            CachedSend { last_touched: run.now(), ..was.cache()[key] }
        } else {
            was.cache()[key]
        }
}

proof fn lemma_poking(run: Run, b: int, i: int)
    requires
        run.valid(),
        run.requests_made(b),
        b < i < run.states.len(),
    ensures
        phase(run.states[i].stage) >= 5,
        !(run.states[i].stage is Failed),
        run.states[b].engine.lists_pokes(run.states[i].pokes, run.now()),
        run.states[i].poked <= run.states[i].pokes.len(),
        phase(run.states[i].stage) > 5 ==> run.states[i].poked == run.states[i].pokes.len(),
        poking_kept(run, b, i),
    decreases i,
{
    let s = run.states[i];
    let p = run.states[i - 1];
    let event = run.events[i - 1];
    let was = run.states[b].engine;
    law_phases_come_in_order(run, 0, i - 1);
    assert(step(p, event, run.states[i - 1 + 1], run.todos[i - 1 + 1]));
    if i == b + 1 {
        assert(s.pokes.take(0) =~= Seq::<(Seq<char>, Seq<u8>)>::empty());
    } else {
        lemma_poking(run, b, i - 1);
        let had = p.pokes.take(p.poked as int);
        let has = s.pokes.take(s.poked as int);
        if p.stage is Poking && p.poked < p.pokes.len() {
            let key = p.pokes[p.poked as int];
            assert(has =~= had.push(key));
            assert(p.pokes.contains(key));
            assert(was.poke_due(key, run.now()));
            assert forall|x: (Seq<char>, Seq<u8>)| has.contains(x) <==> had.contains(x) || x
                == key by {
                if had.contains(x) {
                    let k = choose|k: int| 0 <= k < had.len() && had[k] == x;
                    assert(has[k] == x);
                }
                if has.contains(x) && x != key {
                    let k = choose|k: int| 0 <= k < has.len() && has[k] == x;
                    assert(had[k] == x);
                }
                assert(has[had.len() as int] == key);
            }
            if had.contains(key) {
                let k = choose|k: int| 0 <= k < had.len() && had[k] == key;
                assert(p.pokes[k] == key);
            }
            assert(p.engine.cache().dom().contains(key));
            assert(s.engine.cache().dom() =~= was.cache().dom());
        } else if p.stage is Pruning {
            assert forall|key: (Seq<char>, Seq<u8>)|
                #![trigger s.engine.cache().dom().contains(key)]
                s.engine.cache().dom().contains(key) <==> was.cache().dom().contains(key)
                    && !was.expired(key, run.now()) by {
                assert(p.engine.cache().dom().contains(key) == was.cache().dom().contains(key));
            }
        }
    }
}

/// By the end of a round every payload that it poked counts as touched then, every other
/// is as it was, and those past their time to live are gone. `b` is the moment at which
/// the requests had been made.
pub proof fn law_a_round_touches_what_it_poked(run: Run, b: int, key: (Seq<char>, Seq<u8>))
    requires
        run.valid(),
        run.ended(),
        run.requests_made(b),
    ensures
        run.states.last().engine.cache().dom().contains(key)
            <==> run.states[b].engine.cache().dom().contains(key)
            && !run.states[b].engine.expired(key, run.now()),
        run.states.last().engine.cache().dom().contains(key)
            ==> run.states.last().engine.cache()[key] == if run.states[b].engine.poke_due(
            key,
            run.now(),
        ) {
            CachedSend { last_touched: run.now(), ..run.states[b].engine.cache()[key] }
        } else {
            run.states[b].engine.cache()[key]
        },
{
    let n = run.states.len() - 1;
    let s = run.states[n];
    lemma_poking(run, b, n);
    assert(s.pokes.take(s.poked as int) =~= s.pokes);
    assert(s.pokes.contains(key) <==> run.states[b].engine.poke_due(key, run.now()));
}

/// A poke offers the payload's first chunk, in the payload's class, to its peer; nothing
/// is offered only where that chunk is queued already. `b` is the moment at which the
/// requests had been made.
pub proof fn law_a_poke_offers_the_first_chunk(
    run: Run,
    b: int,
    j: int,
    key: PeerPayload,
    offer: Option<Offer>,
)
    requires
        run.valid(),
        run.requests_made(b),
        0 < j < run.states.len(),
        run.todos[j] == (Todo::Poke { key, offer }),
    ensures
        b < j,
        ({
            let kept = run.states[b].engine.cache()[key@];
            match offer {
                Some(o) => {
                    &&& kept.chunks@.len() > 0
                    &&& o.priority == kept.priority
                    &&& o.to@ == key@.0
                    &&& (Frame { bytes: o.frame@, ids: o.ids }) == kept.chunks@[0]@
                },
                None => kept.chunks@.len() > 0 ==> !run.states[j - 1].engine.wanted(
                    key@.0,
                    kept.chunks@[0].ids,
                ),
            }
        }),
{
    let p = run.states[j - 1];
    assert(step(p, run.events[j - 1], run.states[j - 1 + 1], run.todos[j - 1 + 1]));
    if j - 1 <= b {
        law_phases_come_in_order(run, j - 1, b);
    }
    lemma_poking(run, b, j - 1);
    assert(p.pokes.contains(p.pokes[p.poked as int]));
    assert(run.states[b].engine.poke_due(key@, run.now()));
    assert(p.engine.cache().dom().contains(key@));
}

/// A data chunk is answered to the peer that it came from: where it completes its payload,
/// the acknowledgement is offered to that peer next, and the payload is handed on under that
/// peer's name, with the kind and the bytes that were sent. `j` is the moment at which the
/// arrival at a place was taken.
pub proof fn law_a_chunk_is_answered_to_its_sender(
    run: Run,
    j: int,
    k: int,
    id: Id,
    tagged_bytes: Vec<u8>,
    kind: PayloadKind,
    payload: Seq<u8>,
)
    requires
        run.valid(),
        0 <= j < run.events.len() - 1,
        run.states[j].stage is Taking,
        run.states[j].taken == k,
        0 <= k < run.states[j].arrivals.len(),
        control_of(run.states[j].arrivals[k].frame@) is None,
        run.events[j + 1] == (Event::Accepted {
            payload_id: Some(id),
            arrival: Arrival::Complete(tagged_bytes),
        }),
        tagged_bytes@ == tagged(kind, payload),
    ensures
        ({
            let a = run.states[j].arrivals[k];
            let after = run.states[j + 2];
            &&& run.todos[j + 1] matches Todo::Accept { frame } && frame@ == a.frame@
            &&& run.todos[j + 2] matches Todo::Enqueue(ack) && ack.to@ == a.from@ && control_of(
                ack.frame@,
            ) == Some(Control::Ack { payload_id: id@ })
            &&& after.completed.len() == run.states[j].completed.len() + 1
            &&& after.completed.drop_last() == run.states[j].completed
            &&& after.completed.last().source@ == a.from@
            &&& after.completed.last().kind == kind
            &&& after.completed.last().bytes@ == payload
            &&& !after.engine.in_flight().dom().contains(id@)
        }),
{
    let s = run.states[j];
    let m = run.states[j + 1];
    let i = j + 1;
    assert(step(run.states[j], run.events[j], run.states[j + 1], run.todos[j + 1]));
    assert(step(run.states[i], run.events[i], run.states[i + 1], run.todos[i + 1]));
    law_untag_inverts_tag(kind, payload);
    law_decode_inverts_encode(ControlFrame::Ack { payload_id: id.bytes });
    assert(m.arrivals[m.taken - 1] == s.arrivals[k]);
    let after = run.states[i + 1];
    assert(after.completed.drop_last() =~= s.completed);
}

/// A control frame is taken as what it is, from the peer that it came from: an
/// acknowledgement forgets that peer's payload and no other, and the chunks that a request
/// asks for go back to the peer that asked.
pub proof fn law_a_control_frame_is_answered_to_its_sender(
    run: Run,
    j: int,
    k: int,
    other: (Seq<char>, Seq<u8>),
)
    requires
        run.valid(),
        0 <= j < run.events.len(),
        run.states[j].stage is Taking,
        run.states[j].taken == k,
        0 <= k < run.states[j].arrivals.len(),
        control_of(run.states[j].arrivals[k].frame@) is Some,
    ensures
        run.states[j + 1].stage is Resending,
        run.states[j + 1].burst.to@ == run.states[j].arrivals[k].from@,
        control_of(run.states[j].arrivals[k].frame@) matches Some(Control::Ack { payload_id }) ==> {
            let key = (run.states[j].arrivals[k].from@, payload_id);
            &&& !run.states[j + 1].engine.cache().dom().contains(key)
            &&& other != key ==> run.states[j + 1].engine.cache().dom().contains(other)
                == run.states[j].engine.cache().dom().contains(other)
                && run.states[j + 1].engine.cache()[other] == run.states[j].engine.cache()[other]
        },
        control_of(run.states[j].arrivals[k].frame@) matches Some(
            Control::RequestMissing { payload_id, missing },
        ) ==> {
            let key = (run.states[j].arrivals[k].from@, payload_id);
            let kept = run.states[j].engine.cache();
            &&& kept.dom().contains(key) && !run.states[j].engine.expired(key, run.states[j].now)
                ==> run.states[j + 1].burst.rest() == picked(frames(kept[key].chunks@), missing)
                && run.states[j + 1].burst.priority == kept[key].priority
            &&& !kept.dom().contains(key) ==> run.states[j + 1].burst.rest().len() == 0
        },
{
    assert(step(run.states[j], run.events[j], run.states[j + 1], run.todos[j + 1]));
}

/// What the pacer took counts as queued, for the peer that it goes to, and what it refused
/// does not: a chunk that a peer asked for, the first chunk of a payload that was poked, and
/// a request for missing chunks.
pub proof fn law_what_the_pacer_takes_is_queued(run: Run, j: int, taken: bool)
    requires
        run.valid(),
        0 < j < run.events.len(),
        run.events[j] == Event::Enqueued(taken),
    ensures
        ({
            let was = run.states[j].engine;
            let is = run.states[j + 1].engine;
            &&& !taken ==> is.queued_chunks() == was.queued_chunks() && is.queued_requests()
                == was.queued_requests()
            &&& taken && run.states[j].stage is Offering ==> (run.todos[j] matches Todo::Enqueue(o)
                && (o.ids matches Some(c) ==> is.queued_chunks() == was.queued_chunks().insert(
                (o.to@, c.payload_id@, c.index),
            )))
            &&& taken && run.states[j].stage is Nudging ==> (run.todos[j] matches Todo::Poke {
                key,
                offer: Some(o),
            } && (o.ids matches Some(c) ==> is.queued_chunks() == was.queued_chunks().insert(
                (o.to@, c.payload_id@, c.index),
            )))
            &&& taken && run.states[j].stage is Queueing ==> (run.todos[j] matches Todo::Enqueue(o)
                && is.queued_requests() == was.queued_requests().insert(
                (o.to@, run.states[j].requests[run.states[j].asked - 1]),
            ))
            &&& is.cache() == was.cache()
            &&& is.in_flight() == was.in_flight()
        }),
{
    let i = j - 1;
    assert(step(run.states[i], run.events[i], run.states[i + 1], run.todos[i + 1]));
    assert(step(run.states[j], run.events[j], run.states[j + 1], run.todos[j + 1]));
}

} // verus!
