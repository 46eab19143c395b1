//! Sending one payload: its chunks go to the pacer one after another, all of them or
//! until it refuses one.
//!
//! The send owns the engine while it lasts. It says which chunk to offer next, and is
//! told whether the pacer took it.

use vstd::prelude::*;

use crate::dtn_sync::{
    copy_offer, same_offer, Backpressure, Burst, CachedSend, DtnSyncer, Offer,
};
use crate::tables::Id;

verus! {

/// A payload on its way to the pacer, waiting for the pacer's word on a chunk.
pub struct DtnSend {
    syncer: DtnSyncer,
    burst: Burst,
    payload_id: Id,
    now: i64,
    held: Offer,
}

/// A send as plain values.
pub struct SendState {
    /// The engine.
    pub engine: DtnSyncer,
    /// The payload's chunks; the last one that was passed is the one offered.
    pub burst: Burst,
    /// The payload.
    pub payload_id: Id,
    /// When it is sent.
    pub now: i64,
    /// The chunk that is offered.
    pub held: Offer,
}

/// What a send comes to.
pub enum SendStep {
    /// A chunk is to be offered to the pacer.
    Offer {
        /// The chunk.
        offer: Offer,
        /// The send, to be told of the pacer's word.
        send: DtnSend,
    },
    /// Every chunk is queued, and the payload is kept for retransmit.
    Sent(DtnSyncer),
    /// The pacer refused a chunk, and the payload is not kept.
    Refused {
        /// The engine.
        syncer: DtnSyncer,
        /// Why.
        reason: Backpressure,
    },
}

impl View for DtnSend {
    type V = SendState;

    closed spec fn view(&self) -> SendState {
        SendState {
            engine: self.syncer,
            burst: self.burst,
            payload_id: self.payload_id,
            now: self.now,
            held: self.held,
        }
    }
}

/// The first chunks of a payload are queued.
pub open spec fn queued_up_to(engine: DtnSyncer, burst: Burst, n: int) -> bool {
    forall|k: int|
        0 <= k < n ==> ((#[trigger] burst.chunks@[k]).ids matches Some(c)
            ==> engine.queued_chunks().contains((burst.to@, c.payload_id@, c.index)))
}

impl SendState {
    /// A chunk is offered, and those before it are queued.
    pub open spec fn wf(&self) -> bool {
        &&& self.engine.wf()
        &&& self.burst.wf()
        &&& self.burst.next > 0
        &&& self.held.to@ == self.burst.to@
        &&& self.held.ids == self.burst.chunks@[self.burst.next - 1].ids
        &&& queued_up_to(self.engine, self.burst, self.burst.next - 1)
    }
}

/// The queued chunks once the pacer took another.
pub open spec fn with_chunk(engine: DtnSyncer, taken: Option<Offer>) -> Set<
    (Seq<char>, Seq<u8>, u16),
> {
    match taken {
        Some(o) => match o.ids {
            Some(c) => engine.queued_chunks().insert((o.to@, c.payload_id@, c.index)),
            None => engine.queued_chunks(),
        },
        None => engine.queued_chunks(),
    }
}

/// What a send goes on to once the pacer took a chunk, if it did: the next chunk that is
/// not queued already or, where there is none, the payload's place in the cache. The
/// engine is otherwise as it was.
pub open spec fn goes_on(
    was: DtnSyncer,
    taken: Option<Offer>,
    burst: Burst,
    payload_id: Id,
    now: i64,
    r: SendStep,
) -> bool {
    match r {
        SendStep::Offer { offer, send } => {
            let engine = send@.engine;
            &&& send@.wf()
            &&& send@.payload_id == payload_id
            &&& send@.now == now
            &&& same_offer(send@.held, offer)
            &&& engine.offers_next(burst, send@.burst, Some(offer))
            &&& engine.queued_chunks() == with_chunk(was, taken)
            &&& engine.tuning() == was.tuning()
            &&& engine.queued_requests() == was.queued_requests()
            &&& engine.in_flight() == was.in_flight()
            &&& engine.cache() == was.cache()
        },
        SendStep::Sent(engine) => {
            &&& engine.wf()
            &&& queued_up_to(engine, burst, burst.chunks@.len() as int)
            &&& engine.queued_chunks() == with_chunk(was, taken)
            &&& engine.tuning() == was.tuning()
            &&& engine.queued_requests() == was.queued_requests()
            &&& engine.in_flight() == was.in_flight()
            &&& engine.cache() == was.cache().insert(
                (burst.to@, payload_id@),
                CachedSend {
                    chunks: burst.chunks,
                    priority: burst.priority,
                    sent_at: now,
                    last_touched: now,
                },
            )
        },
        SendStep::Refused { .. } => false,
    }
}

impl DtnSend {
    /// Begins to send a framed payload.
    pub fn start(syncer: DtnSyncer, burst: Burst, payload_id: Id, now: i64) -> (r: SendStep)
        requires
            syncer.wf(),
            burst.wf(),
            burst.next == 0,
        ensures
            goes_on(syncer, None, burst, payload_id, now, r),
    {
        DtnSend::offer_next(syncer, burst, payload_id, now)
    }

    fn offer_next(syncer: DtnSyncer, burst: Burst, payload_id: Id, now: i64) -> (r: SendStep)
        requires
            syncer.wf(),
            burst.wf(),
            queued_up_to(syncer, burst, burst.next as int),
        ensures
            goes_on(syncer, None, burst, payload_id, now, r),
    {
        let mut syncer = syncer;
        let mut burst = burst;
        match syncer.next_offer(&mut burst) {
            Some(offer) => {
                let held = copy_offer(&offer);
                SendStep::Offer { offer, send: DtnSend { syncer, burst, payload_id, now, held } }
            },
            None => {
                syncer.send_done(burst, payload_id, now);
                SendStep::Sent(syncer)
            },
        }
    }

    /// Goes on with the pacer's word on the offered chunk: a refusal ends the send, and
    /// the payload is dropped from the cache, so that the caller retries the whole of it.
    pub fn feed(self, taken: Result<(), Backpressure>) -> (r: SendStep)
        requires
            self@.wf(),
        ensures
            match taken {
                Ok(()) => goes_on(
                    self@.engine,
                    Some(self@.held),
                    self@.burst,
                    self@.payload_id,
                    self@.now,
                    r,
                ),
                Err(bp) => r matches SendStep::Refused { syncer, reason } && {
                    &&& reason == bp
                    &&& syncer.wf()
                    &&& syncer.same_but_cache(&self@.engine)
                    &&& syncer.cache() == self@.engine.cache().remove(
                        (self@.burst.to@, self@.payload_id@),
                    )
                },
            },
    {
        let DtnSend { syncer, burst, payload_id, now, held } = self;
        let mut syncer = syncer;
        match taken {
            Ok(()) => {
                syncer.chunk_queued(&held);
                DtnSend::offer_next(syncer, burst, payload_id, now)
            },
            Err(reason) => {
                syncer.send_refused(burst.to, payload_id);
                SendStep::Refused { syncer, reason }
            },
        }
    }
}

/// A send ends only once every chunk of the payload is queued for its peer, and then the
/// payload is kept whole, as sent now; until then it offers the first of the chunks behind
/// the last offered one that is not queued. Whatever else is queued or kept stays. `step` is
/// what `start` gave, or what `feed` gave when the pacer had taken a chunk.
pub proof fn law_a_send_queues_every_chunk(
    was: DtnSyncer,
    taken: Option<Offer>,
    burst: Burst,
    payload_id: Id,
    now: i64,
    step: SendStep,
    k: int,
    other: (Seq<char>, Seq<u8>),
    chunk: (Seq<char>, Seq<u8>, u16),
)
    requires
        goes_on(was, taken, burst, payload_id, now, step),
        burst.wf(),
    ensures
        step matches SendStep::Sent(engine) ==> {
            &&& 0 <= k < burst.chunks@.len() ==> (burst.chunks@[k].ids matches Some(c)
                ==> engine.queued_chunks().contains((burst.to@, c.payload_id@, c.index)))
            &&& engine.cache().dom().contains((burst.to@, payload_id@))
            &&& engine.cache()[(burst.to@, payload_id@)].chunks == burst.chunks
            &&& engine.cache()[(burst.to@, payload_id@)].priority == burst.priority
            &&& engine.cache()[(burst.to@, payload_id@)].sent_at == now
            &&& engine.cache()[(burst.to@, payload_id@)].last_touched == now
            &&& other != (burst.to@, payload_id@) ==> engine.cache().dom().contains(other)
                == was.cache().dom().contains(other) && engine.cache()[other] == was.cache()[other]
            &&& was.queued_chunks().contains(chunk) ==> engine.queued_chunks().contains(chunk)
        },
        step matches SendStep::Offer { offer, send } ==> {
            let at = send@.burst.next - 1;
            &&& burst.next <= at < burst.chunks@.len()
            &&& offer.to@ == burst.to@
            &&& offer.priority == burst.priority
            &&& offer.frame@ == burst.chunks@[at].bytes@
            &&& offer.ids == burst.chunks@[at].ids
            &&& offer.ids matches Some(c) ==> !send@.engine.queued_chunks().contains(
                (burst.to@, c.payload_id@, c.index),
            )
            &&& burst.next <= k < at ==> (burst.chunks@[k].ids matches Some(c)
                && send@.engine.queued_chunks().contains((burst.to@, c.payload_id@, c.index)))
            &&& send@.engine.cache() == was.cache()
            &&& was.queued_chunks().contains(chunk) ==> send@.engine.queued_chunks().contains(chunk)
        },
        !(step is Refused),
{
    if let SendStep::Offer { offer, send } = step {
        let at = send@.burst.next - 1;
        assert(burst.chunks@[at]@.bytes == offer.frame@);
        if burst.next <= k < at {
            assert(!send@.engine.wanted(offer.to@, burst.chunks@[k].ids));
        }
    }
}

} // verus!
