//! Delay-tolerant bundle sync: the bookkeeping of the engine that moves bundles
//! and receipts over a constrained carrier.
//!
//! The engine is clock-injected and pull-driven. Its caller owns the carrier, the
//! airtime pacer and the reassembler; it tells the engine what left, what arrived
//! and what the pacer took, and the engine says which frames to offer next:
//!
//! - a payload too big for one frame is chunked, and the chunks are kept until
//!   the peer acknowledges them or a TTL elapses;
//! - a receiver asks for the chunks still missing, one request at a time;
//! - a sender whose payload went quiet re-offers its first chunk;
//! - a chunk that is queued and not yet sent is never offered again.

use vstd::prelude::*;
use vstd::slice::slice_to_vec;

use crate::control::{control_of, law_decode_inverts_encode, Control, ControlFrame, PayloadKind};
use crate::tables::{Id, Key, KeyMap, KeySet};

verus! {

/// The classes of outbound traffic, most urgent first.
#[derive(Clone, Copy, Debug, PartialEq, Eq, Structural)]
pub enum Priority {
    /// Money, and the control frames that keep it moving.
    Economic,
    /// Governance and disputes.
    Governance,
    /// Everything else.
    Bulk,
}

/// The payload a data chunk belongs to and its place in it.
#[derive(Clone, Copy, Debug, PartialEq, Eq)]
pub struct ChunkIds {
    /// The payload.
    pub payload_id: Id,
    /// The chunk's index in the payload.
    pub index: u16,
}

/// One frame of a chunked payload, with the ids in its header where it has any.
#[derive(Clone, Debug, PartialEq, Eq)]
pub struct Chunk {
    /// The frame.
    pub bytes: Vec<u8>,
    /// The payload and index in the frame's header.
    pub ids: Option<ChunkIds>,
}

/// A frame as plain values.
#[verifier::ext_equal]
pub struct Frame {
    pub bytes: Seq<u8>,
    pub ids: Option<ChunkIds>,
}

impl View for Chunk {
    type V = Frame;

    open spec fn view(&self) -> Frame {
        Frame { bytes: self.bytes@, ids: self.ids }
    }
}

/// A chunk queued for a peer.
#[derive(Clone, Debug, PartialEq, Eq)]
pub struct ChunkKey {
    /// The peer.
    pub peer: String,
    /// The chunk.
    pub ids: ChunkIds,
}

impl View for ChunkKey {
    type V = (Seq<char>, Seq<u8>, u16);

    open spec fn view(&self) -> (Seq<char>, Seq<u8>, u16) {
        (self.peer@, self.ids.payload_id@, self.ids.index)
    }
}

impl Key for ChunkKey {
    fn same(&self, other: &Self) -> (r: bool) {
        self.ids.index == other.ids.index && self.ids.payload_id.same(&other.ids.payload_id)
            && self.peer.same(&other.peer)
    }

    fn copy_key(&self) -> (r: Self) {
        ChunkKey { peer: self.peer.clone(), ids: self.ids }
    }
}

/// A payload exchanged with a peer.
#[derive(Clone, Debug, PartialEq, Eq)]
pub struct PeerPayload {
    /// The peer.
    pub peer: String,
    /// The payload.
    pub payload_id: Id,
}

impl View for PeerPayload {
    type V = (Seq<char>, Seq<u8>);

    open spec fn view(&self) -> (Seq<char>, Seq<u8>) {
        (self.peer@, self.payload_id@)
    }
}

impl Key for PeerPayload {
    fn same(&self, other: &Self) -> (r: bool) {
        self.payload_id.same(&other.payload_id) && self.peer.same(&other.peer)
    }

    fn copy_key(&self) -> (r: Self) {
        PeerPayload { peer: self.peer.clone(), payload_id: self.payload_id }
    }
}

/// A payload that finished reassembling, for the caller to act on.
#[derive(Clone, Debug, PartialEq, Eq)]
pub struct Completed {
    /// The peer the payload arrived from.
    pub source: String,
    /// What it is.
    pub kind: PayloadKind,
    /// The reassembled payload bytes, the tag byte stripped.
    pub bytes: Vec<u8>,
}

/// Tuning for a [`DtnSyncer`].
#[derive(Clone, Copy, Debug)]
pub struct SyncConfig {
    /// How often (seconds) the receiver re-asks for a payload's still-missing
    /// chunks.
    pub resend_interval_secs: i64,
    /// How long (seconds) the sender keeps a payload's chunks for retransmit
    /// before giving up, if never acked.
    pub cache_ttl_secs: i64,
}

impl Default for SyncConfig {
    fn default() -> (r: Self)
        ensures
            r.resend_interval_secs == 30,
            r.cache_ttl_secs == 86400,
    {
        SyncConfig { resend_interval_secs: 30, cache_ttl_secs: 86400 }
    }
}

/// The pacer refused a frame: its queue for the class is full, or the payload
/// could not be framed at all.
#[derive(Clone, Copy, Debug, PartialEq, Eq)]
pub struct Backpressure {
    /// The refused frame's class.
    pub priority: Priority,
    /// How many frames the class holds.
    pub depth: usize,
}

/// A cached outbound payload's chunks, kept for retransmit until acked or TTL.
pub struct CachedSend {
    /// The payload's frames.
    pub chunks: Vec<Chunk>,
    /// The class they are sent in.
    pub priority: Priority,
    /// When the payload was sent; its time to live runs from here.
    pub sent_at: i64,
    /// When the payload was last sent, asked for or poked.
    pub last_touched: i64,
}

/// Who an inbound in-flight payload comes from, and when its missing chunks were
/// last asked for.
pub struct InboundState {
    /// The peer.
    pub source: String,
    /// When it was last asked; the smallest time before the first request.
    pub last_request_at: i64,
}

/// A frame to offer to the pacer.
#[derive(Clone, Debug, PartialEq, Eq)]
pub struct Offer {
    /// Its class.
    pub priority: Priority,
    /// The peer it goes to.
    pub to: String,
    /// The frame.
    pub frame: Vec<u8>,
    /// The ids of a data chunk; none for a control frame.
    pub ids: Option<ChunkIds>,
}

/// Chunks on their way to the pacer, one after another.
#[derive(Clone, Debug, PartialEq, Eq)]
pub struct Burst {
    /// The peer they go to.
    pub to: String,
    /// Their class.
    pub priority: Priority,
    /// The chunks.
    pub chunks: Vec<Chunk>,
    /// How many of them have been passed.
    pub next: usize,
}

/// What the reassembler made of a data chunk.
#[derive(Clone, Debug, PartialEq, Eq)]
pub enum Arrival {
    /// It completed its payload.
    Complete(Vec<u8>),
    /// Its payload still lacks chunks.
    Partial,
    /// It was malformed, repeated or over a cap.
    Ignored,
}

/// The bookkeeping of the delay-tolerant sync engine over one carrier.
pub struct DtnSyncer {
    config: SyncConfig,
    outbound: KeyMap<PeerPayload, CachedSend>,
    pending: KeySet<ChunkKey>,
    pending_requests: KeySet<PeerPayload>,
    inbound: KeyMap<Id, InboundState>,
}

/// What is tagged and chunked when a payload is sent.
pub open spec fn tagged(kind: PayloadKind, payload: Seq<u8>) -> Seq<u8> {
    seq![kind.tag_of()] + payload
}

/// The payload with its kind's tag in front.
pub fn tag_payload(kind: PayloadKind, payload: &[u8]) -> (r: Vec<u8>)
    ensures
        r@ == tagged(kind, payload@),
{
    let mut out: Vec<u8> = Vec::new();
    out.push(kind.tag());
    let mut rest = slice_to_vec(payload);
    out.append(&mut rest);
    assert(out@ =~= tagged(kind, payload@));
    out
}

/// The kind and the body that a tagged payload stands for, if its tag is known.
pub open spec fn untagged(bytes: Seq<u8>) -> Option<(PayloadKind, Seq<u8>)> {
    if bytes.len() == 0 {
        None
    } else if bytes[0] == PayloadKind::Bundle.tag_of() {
        Some((PayloadKind::Bundle, bytes.skip(1)))
    } else if bytes[0] == PayloadKind::Receipt.tag_of() {
        Some((PayloadKind::Receipt, bytes.skip(1)))
    } else {
        None
    }
}

/// A received payload carries the kind and the bytes it was sent with.
pub proof fn law_untag_inverts_tag(kind: PayloadKind, payload: Seq<u8>)
    ensures
        untagged(tagged(kind, payload)) == Some((kind, payload)),
{
    assert(tagged(kind, payload).skip(1) =~= payload);
}

/// Seconds between two times, at the ends of the range where they do not fit.
pub open spec fn elapsed(now: i64, since: i64) -> int {
    if now - since > i64::MAX {
        i64::MAX as int
    } else if now - since < i64::MIN {
        i64::MIN as int
    } else {
        now - since
    }
}

/// `now.saturating_sub(since)`.
pub fn elapsed_secs(now: i64, since: i64) -> (r: i64)
    ensures
        r == elapsed(now, since),
{
    match now.checked_sub(since) {
        Some(d) => d,
        None => if since < 0 {
            i64::MAX
        } else {
            i64::MIN
        },
    }
}

/// The cached chunks that a list of indexes names, in the list's order; an index
/// past the end names none.
pub open spec fn picked(chunks: Seq<Frame>, missing: Seq<u16>) -> Seq<Frame>
    decreases missing.len(),
{
    if missing.len() == 0 {
        Seq::empty()
    } else if missing.last() < chunks.len() {
        picked(chunks, missing.drop_last()).push(chunks[missing.last() as int])
    } else {
        picked(chunks, missing.drop_last())
    }
}

/// Frames as plain values.
pub open spec fn frames(chunks: Seq<Chunk>) -> Seq<Frame> {
    chunks.map_values(|c: Chunk| c@)
}

/// The missing chunks that a reassembler listed; it lists none of a payload that it
/// does not know.
pub open spec fn listed(missing: Option<Vec<u16>>) -> Seq<u16> {
    match missing {
        Some(m) => m@,
        None => Seq::empty(),
    }
}

fn copy_chunk(c: &Chunk) -> (r: Chunk)
    ensures
        r@ == c@,
{
    Chunk { bytes: slice_to_vec(c.bytes.as_slice()), ids: c.ids }
}

/// Two offers of the same frame.
pub open spec fn same_offer(a: Offer, b: Offer) -> bool {
    &&& a.priority == b.priority
    &&& a.to@ == b.to@
    &&& a.frame@ == b.frame@
    &&& a.ids == b.ids
}

pub(crate) fn copy_offer(o: &Offer) -> (r: Offer)
    ensures
        same_offer(r, *o),
{
    Offer {
        priority: o.priority,
        to: o.to.clone(),
        frame: slice_to_vec(o.frame.as_slice()),
        ids: o.ids,
    }
}

impl Burst {
    /// The chunks still to be passed.
    pub open spec fn rest(&self) -> Seq<Frame> {
        frames(self.chunks@).skip(self.next as int)
    }

    /// The position lies within the chunks.
    pub open spec fn wf(&self) -> bool {
        self.next <= self.chunks@.len()
    }

    /// A burst of no chunks.
    pub fn empty(to: String) -> (r: Self)
        ensures
            r.wf(),
            r.to == to,
            r.rest() == Seq::<Frame>::empty(),
    {
        let r = Burst { to, priority: Priority::Economic, chunks: Vec::new(), next: 0 };
        assert(r.rest() =~= Seq::<Frame>::empty());
        r
    }
}

impl DtnSyncer {
    /// The engine's tuning.
    pub closed spec fn tuning(&self) -> SyncConfig {
        self.config
    }

    /// The payloads kept for retransmit, by peer and payload.
    pub closed spec fn cache(&self) -> Map<(Seq<char>, Seq<u8>), CachedSend> {
        self.outbound@
    }

    /// The chunks queued and not yet sent.
    pub closed spec fn queued_chunks(&self) -> Set<(Seq<char>, Seq<u8>, u16)> {
        self.pending@
    }

    /// The requests queued and not yet sent.
    pub closed spec fn queued_requests(&self) -> Set<(Seq<char>, Seq<u8>)> {
        self.pending_requests@
    }

    /// The inbound payloads that still lack chunks.
    pub closed spec fn in_flight(&self) -> Map<Seq<u8>, InboundState> {
        self.inbound@
    }

    /// The tables are well formed.
    pub closed spec fn wf(&self) -> bool {
        &&& self.outbound.wf()
        &&& self.pending.wf()
        &&& self.pending_requests.wf()
        &&& self.inbound.wf()
    }

    /// Only the cache differs.
    pub open spec fn same_but_cache(&self, other: &DtnSyncer) -> bool {
        &&& self.tuning() == other.tuning()
        &&& self.queued_chunks() == other.queued_chunks()
        &&& self.queued_requests() == other.queued_requests()
        &&& self.in_flight() == other.in_flight()
    }

    /// Builds a syncer with nothing sent and nothing received.
    pub fn new(config: SyncConfig) -> (r: Self)
        ensures
            r.wf(),
            r.tuning() == config,
            r.cache() == Map::<(Seq<char>, Seq<u8>), CachedSend>::empty(),
            r.queued_chunks() == Set::<(Seq<char>, Seq<u8>, u16)>::empty(),
            r.queued_requests() == Set::<(Seq<char>, Seq<u8>)>::empty(),
            r.in_flight() == Map::<Seq<u8>, InboundState>::empty(),
    {
        DtnSyncer {
            config,
            outbound: KeyMap::new(),
            pending: KeySet::new(),
            pending_requests: KeySet::new(),
            inbound: KeyMap::new(),
        }
    }

    /// Whether a chunk may be offered for a peer: it is not queued already.
    pub open spec fn wanted(&self, to: Seq<char>, ids: Option<ChunkIds>) -> bool {
        match ids {
            Some(c) => !self.queued_chunks().contains((to, c.payload_id@, c.index)),
            None => true,
        }
    }

    fn is_wanted(&self, to: &String, ids: &Option<ChunkIds>) -> (r: bool)
        ensures
            r == self.wanted(to@, *ids),
    {
        match ids {
            Some(c) => {
                let key = ChunkKey { peer: to.clone(), ids: *c };
                !self.pending.contains(&key)
            },
            None => true,
        }
    }

    /// What comes of asking for a burst's next chunk: the first that is not queued
    /// already, if there is one, and the burst behind it.
    pub open spec fn offers_next(&self, burst: Burst, rest: Burst, r: Option<Offer>) -> bool {
        &&& rest.wf()
        &&& rest.to == burst.to
        &&& rest.priority == burst.priority
        &&& rest.chunks == burst.chunks
        &&& rest.next >= burst.next
        &&& match r {
            Some(o) => {
                let at = rest.next - 1;
                &&& burst.next <= at
                &&& o.priority == burst.priority
                &&& o.to@ == burst.to@
                &&& (Frame { bytes: o.frame@, ids: o.ids }) == burst.chunks@[at]@
                &&& self.wanted(o.to@, o.ids)
                &&& forall|i: int|
                    burst.next <= i < at ==> !self.wanted(
                        o.to@,
                        (#[trigger] burst.chunks@[i]).ids,
                    )
            },
            None => {
                &&& rest.next == burst.chunks@.len()
                &&& forall|i: int|
                    burst.next <= i < burst.chunks@.len() ==> !self.wanted(
                        burst.to@,
                        (#[trigger] burst.chunks@[i]).ids,
                    )
            },
        }
    }

    /// The next chunk of a burst to offer: chunks already queued for the peer are
    /// passed over.
    pub fn next_offer(&self, burst: &mut Burst) -> (r: Option<Offer>)
        requires
            old(burst).wf(),
        ensures
            self.offers_next(*old(burst), *final(burst), r),
    {
        while burst.next < burst.chunks.len()
            invariant
                burst.next <= burst.chunks@.len(),
                burst.next >= old(burst).next,
                burst.to == old(burst).to,
                burst.priority == old(burst).priority,
                burst.chunks == old(burst).chunks,
                forall|i: int|
                    old(burst).next <= i < burst.next ==> !self.wanted(
                        burst.to@,
                        (#[trigger] burst.chunks@[i]).ids,
                    ),
            decreases burst.chunks.len() - burst.next,
        {
            let at: usize = burst.next;
            burst.next = at + 1;
            if self.is_wanted(&burst.to, &burst.chunks[at].ids) {
                let c = copy_chunk(&burst.chunks[at]);
                return Some(
                    Offer {
                        priority: burst.priority,
                        to: burst.to.clone(),
                        frame: c.bytes,
                        ids: c.ids,
                    },
                );
            }
        }
        None
    }

    /// What the pacer's taking a data chunk makes of the engine.
    pub open spec fn on_chunk_queued(&self, after: &DtnSyncer, offer: Offer) -> bool {
        &&& after.tuning() == self.tuning()
        &&& after.cache() == self.cache()
        &&& after.queued_requests() == self.queued_requests()
        &&& after.in_flight() == self.in_flight()
        &&& after.queued_chunks() == match offer.ids {
            Some(c) => self.queued_chunks().insert((offer.to@, c.payload_id@, c.index)),
            None => self.queued_chunks(),
        }
    }

    /// The pacer took a data chunk: it counts as queued until it is sent.
    pub fn chunk_queued(&mut self, offer: &Offer)
        requires
            old(self).wf(),
        ensures
            final(self).wf(),
            old(self).on_chunk_queued(final(self), *offer),
    {
        match offer.ids {
            Some(c) => {
                let _ = self.pending.insert(ChunkKey { peer: offer.to.clone(), ids: c });
            },
            None => {},
        }
    }

    /// Starts sending a payload: what framing made of the tagged payload, or
    /// `None` where it could not be framed. A payload that cannot be framed is
    /// refused with a depth of zero.
    pub fn begin_send(
        to: String,
        priority: Priority,
        framed: Option<Vec<Chunk>>,
    ) -> (r: Result<Burst, Backpressure>)
        ensures
            match framed {
                Some(chunks) => {
                    &&& r is Ok
                    &&& r->Ok_0.wf()
                    &&& r->Ok_0.to == to
                    &&& r->Ok_0.priority == priority
                    &&& r->Ok_0.chunks == chunks
                    &&& r->Ok_0.next == 0
                },
                None => r == Err::<Burst, Backpressure>(Backpressure { priority, depth: 0 }),
            },
    {
        match framed {
            Some(chunks) => Ok(Burst { to, priority, chunks, next: 0 }),
            None => Err(Backpressure { priority, depth: 0 }),
        }
    }

    /// Every chunk of a payload was queued or was queued already: the payload is
    /// kept for retransmit.
    pub fn send_done(&mut self, burst: Burst, payload_id: Id, now: i64)
        requires
            old(self).wf(),
        ensures
            final(self).wf(),
            final(self).same_but_cache(old(self)),
            final(self).cache() == old(self).cache().insert(
                (burst.to@, payload_id@),
                CachedSend {
                    chunks: burst.chunks,
                    priority: burst.priority,
                    sent_at: now,
                    last_touched: now,
                },
            ),
    {
        let Burst { to, priority, chunks, next } = burst;
        self.outbound.insert(
            PeerPayload { peer: to, payload_id },
            CachedSend { chunks, priority, sent_at: now, last_touched: now },
        );
    }

    /// The pacer refused a chunk: the payload is dropped from the cache, so that
    /// the caller retries the whole of it.
    pub fn send_refused(&mut self, to: String, payload_id: Id)
        requires
            old(self).wf(),
        ensures
            final(self).wf(),
            final(self).same_but_cache(old(self)),
            final(self).cache() == old(self).cache().remove((to@, payload_id@)),
    {
        let _ = self.outbound.remove(&PeerPayload { peer: to, payload_id });
    }

    /// What a frame's leaving for the carrier makes of the engine.
    pub open spec fn on_frame_sent(
        &self,
        after: &DtnSyncer,
        to: Seq<char>,
        frame: Seq<u8>,
        ids: Option<ChunkIds>,
    ) -> bool {
        &&& after.tuning() == self.tuning()
        &&& after.cache() == self.cache()
        &&& after.in_flight() == self.in_flight()
        &&& after.queued_chunks() == match ids {
            Some(c) => self.queued_chunks().remove((to, c.payload_id@, c.index)),
            None => self.queued_chunks(),
        }
        &&& after.queued_requests() == match (ids, control_of(frame)) {
            (
                None,
                Some(Control::RequestMissing { payload_id, missing }),
            ) => self.queued_requests().remove((to, payload_id)),
            _ => self.queued_requests(),
        }
    }

    /// A frame left the pacer for the carrier: a data chunk, or a request for
    /// missing chunks, is no longer queued. `ids` are those of a data chunk.
    pub fn frame_sent(&mut self, to: &String, frame: &[u8], ids: Option<ChunkIds>)
        requires
            old(self).wf(),
        ensures
            final(self).wf(),
            old(self).on_frame_sent(final(self), to@, frame@, ids),
    {
        match ids {
            Some(c) => {
                let _ = self.pending.remove(&ChunkKey { peer: to.clone(), ids: c });
            },
            None => {
                match ControlFrame::decode(frame) {
                    Some(ControlFrame::RequestMissing { payload_id, missing }) => {
                        let key = PeerPayload {
                            peer: to.clone(),
                            payload_id: Id { bytes: payload_id },
                        };
                        let _ = self.pending_requests.remove(&key);
                    },
                    _ => {},
                }
            },
        }
    }

    /// Whether a cached payload has outlived its time to live without an
    /// acknowledgement.
    pub open spec fn expired(&self, key: (Seq<char>, Seq<u8>), now: i64) -> bool {
        &&& self.cache().dom().contains(key)
        &&& elapsed(now, self.cache()[key].sent_at) > self.tuning().cache_ttl_secs
    }

    /// What a control frame makes of the engine, and the burst that answers it.
    pub open spec fn on_control(
        &self,
        after: &DtnSyncer,
        from: Seq<char>,
        ctrl: Control,
        now: i64,
        r: Burst,
    ) -> bool {
        &&& after.tuning() == self.tuning()
        &&& after.queued_requests() == self.queued_requests()
        &&& after.in_flight() == self.in_flight()
        &&& r.wf()
        &&& r.to@ == from
        &&& match ctrl {
            Control::Ack { payload_id } => {
                &&& r.rest() == Seq::<Frame>::empty()
                &&& after.cache() == self.cache().remove((from, payload_id))
                &&& forall|k: (Seq<char>, Seq<u8>, u16)|
                    #![trigger after.queued_chunks().contains(k)]
                    after.queued_chunks().contains(k) <==> self.queued_chunks().contains(k) && !(
                    k.0 == from && k.1 == payload_id)
            },
            Control::RequestMissing { payload_id, missing } => {
                let key = (from, payload_id);
                &&& after.queued_chunks() == self.queued_chunks()
                &&& if self.cache().dom().contains(key) && !self.expired(key, now) {
                    let kept = self.cache()[key];
                    &&& r.priority == kept.priority
                    &&& r.rest() == picked(frames(kept.chunks@), missing)
                    &&& after.cache() == self.cache().insert(
                        key,
                        CachedSend { last_touched: now, ..kept },
                    )
                } else {
                    &&& r.rest() == Seq::<Frame>::empty()
                    &&& after.cache() == self.cache()
                }
            },
        }
    }

    /// A control frame arrived. An acknowledgement drops the payload and its
    /// queued chunks; a request names cached chunks, which the returned burst
    /// holds in the order asked for. Of a payload past its time to live nothing is
    /// sent again.
    pub fn handle_control(&mut self, from: &String, ctrl: ControlFrame, now: i64) -> (r: Burst)
        requires
            old(self).wf(),
        ensures
            final(self).wf(),
            old(self).on_control(final(self), from@, ctrl@, now, r),
    {
        match ctrl {
            ControlFrame::Ack { payload_id } => {
                let id = Id { bytes: payload_id };
                let _ = self.outbound.remove(
                    &PeerPayload { peer: from.clone(), payload_id: id },
                );
                self.drop_queued(from, &id);
                Burst::empty(from.clone())
            },
            ControlFrame::RequestMissing { payload_id, missing } => {
                let key = PeerPayload { peer: from.clone(), payload_id: Id { bytes: payload_id } };
                match self.outbound.remove(&key) {
                    None => {
                        assert(self.outbound@ =~= old(self).outbound@);
                        Burst::empty(from.clone())
                    },
                    Some(kept) => {
                        if elapsed_secs(now, kept.sent_at) > self.config.cache_ttl_secs {
                            self.outbound.insert(key, kept);
                            assert(self.outbound@ =~= old(self).outbound@);
                            return Burst::empty(from.clone());
                        }
                        let chunks = pick_chunks(&kept.chunks, &missing);
                        let priority = kept.priority;
                        let kept = CachedSend {
                            chunks: kept.chunks,
                            priority: kept.priority,
                            sent_at: kept.sent_at,
                            last_touched: now,
                        };
                        self.outbound.insert(key, kept);
                        assert(self.outbound@ =~= old(self).outbound@.insert(key@, kept));
                        let burst = Burst { to: from.clone(), priority, chunks, next: 0 };
                        assert(burst.rest() =~= frames(burst.chunks@));
                        burst
                    },
                }
            },
        }
    }

    fn drop_queued(&mut self, peer: &String, payload_id: &Id)
        requires
            old(self).wf(),
        ensures
            final(self).wf(),
            final(self).tuning() == old(self).tuning(),
            final(self).cache() == old(self).cache(),
            final(self).queued_requests() == old(self).queued_requests(),
            final(self).in_flight() == old(self).in_flight(),
            forall|k: (Seq<char>, Seq<u8>, u16)|
                #![trigger final(self).queued_chunks().contains(k)]
                final(self).queued_chunks().contains(k) <==> old(self).queued_chunks().contains(k)
                    && !(k.0 == peer@ && k.1 == payload_id@),
    {
        let mut i: usize = 0;
        let mut n: usize = self.pending.len();
        while i < n
            invariant
                self.wf(),
                self.config == old(self).config,
                self.outbound == old(self).outbound,
                self.pending_requests == old(self).pending_requests,
                self.inbound == old(self).inbound,
                i <= n,
                n == self.pending.keys().len(),
                self.pending@ == self.pending.keys().to_set(),
                forall|j: int|
                    0 <= j < i ==> !((#[trigger] self.pending.keys()[j]).0 == peer@
                        && self.pending.keys()[j].1 == payload_id@),
                forall|k: (Seq<char>, Seq<u8>, u16)|
                    #![trigger self.pending@.contains(k)]
                    self.pending@.contains(k) ==> old(self).pending@.contains(k),
                forall|k: (Seq<char>, Seq<u8>, u16)|
                    #![trigger self.pending@.contains(k)]
                    old(self).pending@.contains(k) && !(k.0 == peer@ && k.1 == payload_id@)
                        ==> self.pending@.contains(k),
            decreases n - i,
        {
            let drop = {
                let k = self.pending.key_at(i);
                k.peer.same(peer) && k.ids.payload_id.same(payload_id)
            };
            if drop {
                self.pending.remove_at(i);
                n = self.pending.len();
            } else {
                i = i + 1;
            }
        }
    }

    /// What a data chunk makes of the engine, with the acknowledgement to offer and
    /// the payload to hand on.
    pub open spec fn on_arrival(
        &self,
        after: &DtnSyncer,
        from: Seq<char>,
        payload_id: Option<Id>,
        arrival: Arrival,
        r: (Option<Offer>, Option<Completed>),
    ) -> bool {
        &&& after.tuning() == self.tuning()
        &&& after.cache() == self.cache()
        &&& after.queued_chunks() == self.queued_chunks()
        &&& after.queued_requests() == self.queued_requests()
        &&& match arrival {
            Arrival::Complete(tagged) => {
                &&& r.1 is Some <==> untagged(tagged@) is Some
                &&& r.1 matches Some(done) ==> done.source@ == from && untagged(tagged@) == Some(
                    (done.kind, done.bytes@),
                )
                &&& r.0 is Some <==> payload_id is Some
                &&& match payload_id {
                    Some(id) => {
                        &&& after.in_flight() == self.in_flight().remove(id@)
                        &&& r.0->0.priority == Priority::Economic
                        &&& r.0->0.to@ == from
                        &&& r.0->0.ids is None
                        &&& r.0->0.frame@ == crate::control::control_bytes(
                            Control::Ack { payload_id: id@ },
                        )
                    },
                    None => after.in_flight() == self.in_flight(),
                }
            },
            Arrival::Partial => {
                &&& r.0 is None
                &&& r.1 is None
                &&& match payload_id {
                    Some(id) => if self.in_flight().dom().contains(id@) {
                        after.in_flight() == self.in_flight()
                    } else {
                        &&& after.in_flight().dom() == self.in_flight().dom().insert(id@)
                        &&& after.in_flight().remove(id@) == self.in_flight()
                        &&& after.in_flight()[id@].source@ == from
                        &&& after.in_flight()[id@].last_request_at == i64::MIN
                    },
                    None => after.in_flight() == self.in_flight(),
                }
            },
            Arrival::Ignored => {
                &&& r.0 is None
                &&& r.1 is None
                &&& after.in_flight() == self.in_flight()
            },
        }
    }

    /// A data chunk arrived and went through the reassembler. A completed payload
    /// is acknowledged to its sender (the first part of the result) and, where its
    /// tag is known, handed on (the second part). An incomplete payload is
    /// remembered with the peer that its first chunk came from. `payload_id` is
    /// the id in the chunk's header.
    pub fn arrival(
        &mut self,
        from: &String,
        payload_id: Option<Id>,
        arrival: Arrival,
    ) -> (r: (Option<Offer>, Option<Completed>))
        requires
            old(self).wf(),
        ensures
            final(self).wf(),
            old(self).on_arrival(final(self), from@, payload_id, arrival, r),
    {
        match arrival {
            Arrival::Complete(tagged) => {
                let ack = match payload_id {
                    Some(id) => {
                        let _ = self.inbound.remove(&id);
                        let frame = ControlFrame::Ack { payload_id: id.bytes }.encode();
                        Some(
                            Offer {
                                priority: Priority::Economic,
                                to: from.clone(),
                                frame,
                                ids: None,
                            },
                        )
                    },
                    None => None,
                };
                (ack, finish_inbound(from, tagged))
            },
            Arrival::Partial => {
                match payload_id {
                    Some(id) => {
                        if !self.inbound.contains_key(&id) {
                            let state = InboundState {
                                source: from.clone(),
                                last_request_at: i64::MIN,
                            };
                            self.inbound.insert(id, state);
                            assert(self.inbound@.remove(id@) =~= old(self).inbound@);
                        }
                    },
                    None => {},
                }
                (None, None)
            },
            Arrival::Ignored => (None, None),
        }
    }

    /// The payloads whose missing chunks are due to be asked for: in flight, past
    /// the resend interval, and without a request still queued.
    pub open spec fn request_due(&self, id: Seq<u8>, now: i64) -> bool {
        &&& self.in_flight().dom().contains(id)
        &&& elapsed(now, self.in_flight()[id].last_request_at)
            >= self.tuning().resend_interval_secs
        &&& !self.queued_requests().contains((self.in_flight()[id].source@, id))
    }

    /// The ids are those of the payloads whose missing chunks are due to be asked for,
    /// each once.
    pub open spec fn lists_requests(&self, ids: Seq<Seq<u8>>, now: i64) -> bool {
        &&& ids.no_duplicates()
        &&& forall|id: Seq<u8>| #[trigger] ids.contains(id) <==> self.request_due(id, now)
    }

    /// The payloads whose missing chunks are due to be asked for, each once.
    pub fn due_requests(&self, now: i64) -> (r: Vec<Id>)
        requires
            self.wf(),
        ensures
            self.lists_requests(r@.map_values(|i: Id| i@), now),
    {
        let mut out: Vec<Id> = Vec::new();
        let n: usize = self.inbound.len();
        let mut i: usize = 0;
        while i < n
            invariant
                self.wf(),
                i <= n,
                n == self.inbound.keys().len(),
                self.inbound@.dom() == self.inbound.keys().to_set(),
                self.inbound.keys().no_duplicates(),
                self.inbound.vals().len() == n,
                forall|j: int|
                    0 <= j < n ==> self.inbound@.dom().contains(#[trigger] self.inbound.keys()[j])
                        && self.inbound@[self.inbound.keys()[j]] == self.inbound.vals()[j],
                out@.map_values(|i: Id| i@) == self.inbound.keys().take(i as int).filter(
                    |id: Seq<u8>| self.request_due(id, now),
                ),
            decreases n - i,
        {
            let ghost due = |id: Seq<u8>| self.request_due(id, now);
            let id: Id = self.inbound.key_at(i).copy_key();
            let state = self.inbound.value_at(i);
            let quiet = elapsed_secs(now, state.last_request_at);
            let key = PeerPayload { peer: state.source.clone(), payload_id: id };
            let ghost before = out@;
            proof {
                let keys = self.inbound.keys();
                assert(keys.take(i as int + 1).drop_last() =~= keys.take(i as int));
                assert(keys.take(i as int + 1).last() == id@);
                reveal(Seq::filter);
            }
            if quiet >= self.config.resend_interval_secs && !self.pending_requests.contains(
                &key,
            ) {
                assert(due(id@));
                out.push(id);
                assert(out@.map_values(|i: Id| i@) =~= before.map_values(|i: Id| i@).push(id@));
            } else {
                assert(!due(id@));
            }
            i = i + 1;
        }
        proof {
            let keys = self.inbound.keys();
            let due = |id: Seq<u8>| self.request_due(id, now);
            assert(keys.take(n as int) =~= keys);
            lemma_filter_unique(keys, due);
            assert forall|id: Seq<u8>| keys.filter(due).contains(id) <==> self.request_due(
                id,
                now,
            ) by {
                lemma_filter_membership(keys, due, id);
                if self.request_due(id, now) {
                    assert(keys.to_set().contains(id));
                }
            }
        }
        out
    }

    /// What asking for an in-flight payload's missing chunks makes of the engine, and
    /// the request to offer.
    pub open spec fn on_request(
        &self,
        after: &DtnSyncer,
        id: Seq<u8>,
        missing: Seq<u16>,
        now: i64,
        r: Option<Offer>,
    ) -> bool {
        &&& after.tuning() == self.tuning()
        &&& after.cache() == self.cache()
        &&& after.queued_chunks() == self.queued_chunks()
        &&& after.queued_requests() == self.queued_requests()
        &&& r is Some <==> missing.len() > 0
        &&& match r {
            Some(o) => {
                &&& o.priority == Priority::Economic
                &&& o.to == self.in_flight()[id].source
                &&& o.ids is None
                &&& o.frame@ == crate::control::control_bytes(
                    Control::RequestMissing { payload_id: id, missing },
                )
                &&& after.in_flight() == self.in_flight().insert(
                    id,
                    InboundState { last_request_at: now, ..self.in_flight()[id] },
                )
            },
            None => after.in_flight() == self.in_flight(),
        }
    }

    /// The request to offer for an in-flight payload whose missing chunks the
    /// reassembler listed; none where it listed none. The payload then counts as
    /// asked for at `now`.
    pub fn make_request(&mut self, id: Id, missing: Option<Vec<u16>>, now: i64) -> (r: Option<
        Offer,
    >)
        requires
            old(self).wf(),
            old(self).in_flight().dom().contains(id@),
        ensures
            final(self).wf(),
            old(self).on_request(final(self), id@, listed(missing), now, r),
    {
        match missing {
            Some(missing) => {
                if missing.len() == 0 {
                    return None;
                }
                match self.inbound.remove(&id) {
                    Some(state) => {
                        let to = state.source.clone();
                        let state = InboundState { source: state.source, last_request_at: now };
                        self.inbound.insert(id, state);
                        assert(self.inbound@ =~= old(self).inbound@.insert(id@, state));
                        let frame = ControlFrame::RequestMissing {
                            payload_id: id.bytes,
                            missing,
                        }.encode();
                        Some(Offer { priority: Priority::Economic, to, frame, ids: None })
                    },
                    None => None,
                }
            },
            None => None,
        }
    }

    /// What the pacer's taking a request for missing chunks makes of the engine.
    pub open spec fn on_request_queued(
        &self,
        after: &DtnSyncer,
        to: Seq<char>,
        id: Seq<u8>,
    ) -> bool {
        &&& after.tuning() == self.tuning()
        &&& after.cache() == self.cache()
        &&& after.queued_chunks() == self.queued_chunks()
        &&& after.in_flight() == self.in_flight()
        &&& after.queued_requests() == self.queued_requests().insert((to, id))
    }

    /// The pacer took a request for missing chunks: it counts as queued until it
    /// is sent.
    pub fn request_queued(&mut self, to: String, id: Id)
        requires
            old(self).wf(),
        ensures
            final(self).wf(),
            old(self).on_request_queued(final(self), to@, id@),
    {
        let _ = self.pending_requests.insert(PeerPayload { peer: to, payload_id: id });
    }

    /// Whether a cached payload has been quiet for the resend interval, and is still
    /// within its time to live.
    pub open spec fn poke_due(&self, key: (Seq<char>, Seq<u8>), now: i64) -> bool {
        &&& self.cache().dom().contains(key)
        &&& elapsed(now, self.cache()[key].last_touched) >= self.tuning().resend_interval_secs
        &&& !self.expired(key, now)
    }

    /// The keys are those of the cached payloads that are due to be poked, each once.
    pub open spec fn lists_pokes(&self, keys: Seq<(Seq<char>, Seq<u8>)>, now: i64) -> bool {
        &&& keys.no_duplicates()
        &&& forall|key: (Seq<char>, Seq<u8>)| #[trigger]
            keys.contains(key) <==> self.poke_due(key, now)
    }

    /// The cached payloads that have been quiet for the resend interval and are not
    /// yet given up, each once.
    pub fn due_pokes(&self, now: i64) -> (r: Vec<PeerPayload>)
        requires
            self.wf(),
        ensures
            self.lists_pokes(r@.map_values(|k: PeerPayload| k@), now),
    {
        let mut out: Vec<PeerPayload> = Vec::new();
        let n: usize = self.outbound.len();
        let mut i: usize = 0;
        while i < n
            invariant
                self.wf(),
                i <= n,
                n == self.outbound.keys().len(),
                self.outbound@.dom() == self.outbound.keys().to_set(),
                self.outbound.keys().no_duplicates(),
                self.outbound.vals().len() == n,
                forall|j: int|
                    0 <= j < n ==> self.outbound@.dom().contains(
                        #[trigger] self.outbound.keys()[j],
                    ) && self.outbound@[self.outbound.keys()[j]] == self.outbound.vals()[j],
                out@.map_values(|k: PeerPayload| k@) == self.outbound.keys().take(
                    i as int,
                ).filter(|key: (Seq<char>, Seq<u8>)| self.poke_due(key, now)),
            decreases n - i,
        {
            let ghost due = |key: (Seq<char>, Seq<u8>)| self.poke_due(key, now);
            let key: PeerPayload = self.outbound.key_at(i).copy_key();
            let quiet = elapsed_secs(now, self.outbound.value_at(i).last_touched);
            let age = elapsed_secs(now, self.outbound.value_at(i).sent_at);
            let ghost before = out@;
            proof {
                let keys = self.outbound.keys();
                assert(keys.take(i as int + 1).drop_last() =~= keys.take(i as int));
                assert(keys.take(i as int + 1).last() == key@);
                reveal(Seq::filter);
            }
            if quiet >= self.config.resend_interval_secs && age <= self.config.cache_ttl_secs {
                assert(due(key@));
                out.push(key);
                assert(out@.map_values(|k: PeerPayload| k@) =~= before.map_values(
                    |k: PeerPayload| k@,
                ).push(key@));
            } else {
                assert(!due(key@));
            }
            i = i + 1;
        }
        proof {
            let keys = self.outbound.keys();
            let due = |key: (Seq<char>, Seq<u8>)| self.poke_due(key, now);
            assert(keys.take(n as int) =~= keys);
            lemma_filter_unique(keys, due);
            assert forall|key: (Seq<char>, Seq<u8>)|
                keys.filter(due).contains(key) <==> self.poke_due(key, now) by {
                lemma_filter_membership(keys, due, key);
                if self.poke_due(key, now) {
                    assert(keys.to_set().contains(key));
                }
            }
        }
        out
    }

    /// What a poke makes of the engine, and the burst of the payload's first chunk.
    pub open spec fn on_poke(
        &self,
        after: &DtnSyncer,
        key: (Seq<char>, Seq<u8>),
        now: i64,
        r: Burst,
    ) -> bool {
        &&& after.same_but_cache(self)
        &&& after.cache() == self.cache().insert(
            key,
            CachedSend { last_touched: now, ..self.cache()[key] },
        )
        &&& r.wf()
        &&& r.to@ == key.0
        &&& r.priority == self.cache()[key].priority
        &&& r.rest() == frames(self.cache()[key].chunks@).take(
            if self.cache()[key].chunks@.len() > 0 {
                1
            } else {
                0
            },
        )
    }

    /// Pokes a quiet payload: its first chunk is to be offered, unless it is
    /// queued already, and the payload counts as touched at `now`.
    pub fn poke(&mut self, key: PeerPayload, now: i64) -> (r: Burst)
        requires
            old(self).wf(),
            old(self).cache().dom().contains(key@),
        ensures
            final(self).wf(),
            old(self).on_poke(final(self), key@, now, r),
    {
        let to = key.peer.clone();
        let mut chunks: Vec<Chunk> = Vec::new();
        let mut priority = Priority::Economic;
        match self.outbound.remove(&key) {
            Some(kept) => {
                if kept.chunks.len() > 0 {
                    chunks.push(copy_chunk(&kept.chunks[0]));
                }
                priority = kept.priority;
                let kept = CachedSend {
                    chunks: kept.chunks,
                    priority: kept.priority,
                    sent_at: kept.sent_at,
                    last_touched: now,
                };
                self.outbound.insert(key, kept);
                assert(self.outbound@ =~= old(self).outbound@.insert(key@, kept));
            },
            None => {},
        }
        let burst = Burst { to, priority, chunks, next: 0 };
        assert(burst.rest() =~= frames(old(self).outbound@[key@].chunks@).take(
            if old(self).outbound@[key@].chunks@.len() > 0 {
                1
            } else {
                0
            },
        ));
        burst
    }

    /// What a prune makes of the engine: what is past its time to live is gone.
    pub open spec fn on_prune(&self, after: &DtnSyncer, now: i64) -> bool {
        &&& after.same_but_cache(self)
        &&& after.cache() == self.cache().restrict(
            Set::new(
                |key: (Seq<char>, Seq<u8>)|
                    self.cache().dom().contains(key) && elapsed(now, self.cache()[key].sent_at)
                        <= self.tuning().cache_ttl_secs,
            ),
        )
    }

    /// Drops every cached payload that was sent longer ago than the TTL, however often
    /// it was poked or asked for since.
    pub fn prune_outbound(&mut self, now: i64)
        requires
            old(self).wf(),
        ensures
            final(self).wf(),
            old(self).on_prune(final(self), now),
    {
        let ghost keep = |key: (Seq<char>, Seq<u8>)|
            old(self).outbound@.dom().contains(key) && elapsed(
                now,
                old(self).outbound@[key].sent_at,
            ) <= old(self).config.cache_ttl_secs;
        let mut i: usize = 0;
        let mut n: usize = self.outbound.len();
        while i < n
            invariant
                self.wf(),
                self.config == old(self).config,
                self.pending == old(self).pending,
                self.pending_requests == old(self).pending_requests,
                self.inbound == old(self).inbound,
                keep == (|key: (Seq<char>, Seq<u8>)|
                    old(self).outbound@.dom().contains(key) && elapsed(
                        now,
                        old(self).outbound@[key].sent_at,
                    ) <= old(self).config.cache_ttl_secs),
                i <= n,
                n == self.outbound.keys().len(),
                self.outbound@.dom() == self.outbound.keys().to_set(),
                forall|j: int| 0 <= j < i ==> keep(#[trigger] self.outbound.keys()[j]),
                forall|k: (Seq<char>, Seq<u8>)|
                    #![trigger self.outbound@.dom().contains(k)]
                    self.outbound@.dom().contains(k) ==> old(self).outbound@.dom().contains(k)
                        && self.outbound@[k] == old(self).outbound@[k],
                forall|k: (Seq<char>, Seq<u8>)|
                    #![trigger self.outbound@.dom().contains(k)]
                    keep(k) ==> self.outbound@.dom().contains(k),
            decreases n - i,
        {
            let _ = self.outbound.key_at(i);
            let age = elapsed_secs(now, self.outbound.value_at(i).sent_at);
            if age <= self.config.cache_ttl_secs {
                i = i + 1;
            } else {
                let _ = self.outbound.remove_at(i);
                n = self.outbound.len();
            }
        }
        assert(self.outbound@ =~= old(self).outbound@.restrict(Set::new(keep)));
    }

    /// In-flight inbound payloads not yet reassembled.
    pub fn inbound_inflight(&self) -> (r: usize)
        requires
            self.wf(),
        ensures
            r == self.in_flight().len(),
    {
        self.inbound.len()
    }
}

/// A chunk that is queued for a peer is not offered for it again.
pub proof fn law_queued_chunk_is_not_offered(s: DtnSyncer, to: Seq<char>, c: ChunkIds)
    requires
        s.queued_chunks().contains((to, c.payload_id@, c.index)),
    ensures
        !s.wanted(to, Some(c)),
{
}

/// At most one request for a payload is outstanding: while one is queued, none is
/// due.
pub proof fn law_one_request_at_a_time(s: DtnSyncer, id: Seq<u8>, now: i64)
    requires
        s.in_flight().dom().contains(id),
        s.queued_requests().contains((s.in_flight()[id].source@, id)),
    ensures
        !s.request_due(id, now),
{
}

/// A poked payload is left alone until the resend interval has passed again.
/// `after` is the engine once `poke` returned.
pub proof fn law_poke_quiets_for_an_interval(
    before: DtnSyncer,
    after: DtnSyncer,
    key: (Seq<char>, Seq<u8>),
    now: i64,
    later: i64,
)
    requires
        after.same_but_cache(&before),
        after.cache() == before.cache().insert(
            key,
            CachedSend { last_touched: now, ..before.cache()[key] },
        ),
        elapsed(later, now) < before.tuning().resend_interval_secs,
    ensures
        !after.poke_due(key, later),
{
}

/// A poke, or a request for missing chunks, does not prolong a payload's life: at every
/// time the same payloads have outlived it, before and after. `after` is the engine once
/// `poke` or `handle_control` returned.
pub proof fn law_pokes_do_not_prolong(
    before: DtnSyncer,
    after: DtnSyncer,
    key: (Seq<char>, Seq<u8>),
    now: i64,
    other: (Seq<char>, Seq<u8>),
    later: i64,
)
    requires
        before.cache().dom().contains(key),
        after.tuning() == before.tuning(),
        after.cache() == before.cache().insert(
            key,
            CachedSend { last_touched: now, ..before.cache()[key] },
        ),
    ensures
        after.expired(other, later) == before.expired(other, later),
{
}

/// A payload that was sent and never acknowledged is given up once its time to live has
/// passed: from then on it is never poked, and no prune keeps it. `s` is an engine that
/// still holds the payload, and `pruned` the engine once `prune_outbound` returned.
pub proof fn law_unacknowledged_payload_is_given_up(
    s: DtnSyncer,
    pruned: DtnSyncer,
    key: (Seq<char>, Seq<u8>),
    now: i64,
)
    requires
        s.cache().dom().contains(key),
        now > s.cache()[key].sent_at + s.tuning().cache_ttl_secs,
        s.tuning().cache_ttl_secs < i64::MAX,
        pruned.cache() == s.cache().restrict(
            Set::new(
                |k: (Seq<char>, Seq<u8>)|
                    s.cache().dom().contains(k) && elapsed(now, s.cache()[k].sent_at)
                        <= s.tuning().cache_ttl_secs,
            ),
        ),
    ensures
        forall|later: i64| now <= later ==> s.expired(key, later) && !s.poke_due(key, later),
        !pruned.cache().dom().contains(key),
{
}

/// An acknowledged payload is neither cached nor queued any more. `after` is the
/// engine once `handle_control` returned.
pub proof fn law_ack_forgets_the_payload(
    before: DtnSyncer,
    after: DtnSyncer,
    from: Seq<char>,
    payload_id: Seq<u8>,
    index: u16,
)
    requires
        after.cache() == before.cache().remove((from, payload_id)),
        forall|k: (Seq<char>, Seq<u8>, u16)|
            #![trigger after.queued_chunks().contains(k)]
            after.queued_chunks().contains(k) <==> before.queued_chunks().contains(k) && !(k.0
                == from && k.1 == payload_id),
    ensures
        !after.cache().dom().contains((from, payload_id)),
        !after.queued_chunks().contains((from, payload_id, index)),
{
}

fn pick_chunks(chunks: &Vec<Chunk>, missing: &Vec<u16>) -> (r: Vec<Chunk>)
    ensures
        frames(r@) == picked(frames(chunks@), missing@),
{
    let mut out: Vec<Chunk> = Vec::new();
    let mut i: usize = 0;
    assert(frames(out@) =~= picked(frames(chunks@), missing@.take(0)));
    while i < missing.len()
        invariant
            i <= missing.len(),
            frames(out@) == picked(frames(chunks@), missing@.take(i as int)),
        decreases missing.len() - i,
    {
        let at: usize = missing[i] as usize;
        let ghost before = out@;
        proof {
            assert(missing@.take(i as int + 1).drop_last() =~= missing@.take(i as int));
        }
        if at < chunks.len() {
            out.push(copy_chunk(&chunks[at]));
            assert(frames(out@) =~= frames(before).push(chunks@[at as int]@));
        }
        i = i + 1;
    }
    assert(missing@.take(i as int) =~= missing@);
    out
}

/// Strips the tag of a completed payload; a payload with an unknown tag, or with
/// none, is dropped.
fn finish_inbound(from: &String, tagged: Vec<u8>) -> (r: Option<Completed>)
    ensures
        r is Some <==> untagged(tagged@) is Some,
        r matches Some(done) ==> done.source == from && untagged(tagged@) == Some(
            (done.kind, done.bytes@),
        ),
{
    if tagged.len() == 0 {
        return None;
    }
    let mut bytes = tagged;
    let tag: u8 = bytes.remove(0);
    assert(bytes@ =~= tagged@.skip(1));
    match PayloadKind::from_tag(tag) {
        Some(kind) => Some(Completed { source: from.clone(), kind, bytes }),
        None => {
            assert(PayloadKind::Bundle.tag_of() != tag);
            assert(PayloadKind::Receipt.tag_of() != tag);
            None
        },
    }
}

pub(crate) proof fn lemma_filter_membership<A>(s: Seq<A>, p: spec_fn(A) -> bool, x: A)
    ensures
        s.filter(p).contains(x) <==> s.contains(x) && p(x),
    decreases s.len(),
{
    reveal(Seq::filter);
    if s.len() > 0 {
        let rest = s.drop_last();
        lemma_filter_membership(rest, p, x);
        let f = rest.filter(p);
        if s.contains(x) {
            let i = choose|i: int| 0 <= i < s.len() && s[i] == x;
            if i < rest.len() {
                assert(rest[i] == x);
            }
        }
        if rest.contains(x) {
            let i = choose|i: int| 0 <= i < rest.len() && rest[i] == x;
            assert(s[i] == x);
        }
        assert(s[s.len() - 1] == s.last());
        if p(s.last()) {
            let g = f.push(s.last());
            assert(g[g.len() - 1] == s.last());
            if f.contains(x) {
                let i = choose|i: int| 0 <= i < f.len() && f[i] == x;
                assert(g[i] == x);
            }
            if g.contains(x) {
                let i = choose|i: int| 0 <= i < g.len() && g[i] == x;
                if i < f.len() {
                    assert(f[i] == x);
                }
            }
        }
    }
}

pub(crate) proof fn lemma_filter_unique<A>(s: Seq<A>, p: spec_fn(A) -> bool)
    requires
        s.no_duplicates(),
    ensures
        s.filter(p).no_duplicates(),
    decreases s.len(),
{
    reveal(Seq::filter);
    if s.len() > 0 {
        let rest = s.drop_last();
        lemma_filter_unique(rest, p);
        lemma_filter_membership(rest, p, s.last());
        if rest.contains(s.last()) {
            let i = choose|i: int| 0 <= i < rest.len() && rest[i] == s.last();
            assert(s[i] == s[s.len() - 1]);
        }
        let f = rest.filter(p);
        if p(s.last()) {
            let g = f.push(s.last());
            assert forall|i: int, j: int| 0 <= i < j < g.len() implies g[i] != g[j] by {
                if j == f.len() {
                    assert(f.contains(f[i]));
                }
            }
        }
    }
}

/// The seconds between two times are their difference, held within what a signed 64-bit
/// number can carry.
pub proof fn law_elapsed_is_the_difference(now: i64, since: i64, r: i64)
    requires
        call_ensures(elapsed_secs, (now, since), r),
    ensures
        i64::MIN <= now - since <= i64::MAX ==> r == now - since,
        now - since > i64::MAX ==> r == i64::MAX,
        now - since < i64::MIN ==> r == i64::MIN,
{
}

/// A payload's missing chunks are due to be asked for exactly where the payload is in
/// flight, its last request lies the resend interval back or more, and no request for it to
/// its source is queued; each is listed once.
pub proof fn law_requests_fall_due_by_the_clock(s: DtnSyncer, now: i64, r: Vec<Id>, id: Id)
    requires
        call_ensures(DtnSyncer::due_requests, (&s, now), r),
        s.tuning().resend_interval_secs > i64::MIN,
    ensures
        (exists|i: int| 0 <= i < r@.len() && (#[trigger] r@[i])@ == id@) <==> {
            &&& s.in_flight().dom().contains(id@)
            &&& now - s.in_flight()[id@].last_request_at >= s.tuning().resend_interval_secs
            &&& !s.queued_requests().contains((s.in_flight()[id@].source@, id@))
        },
        forall|i: int, j: int| 0 <= i < j < r@.len() ==> (#[trigger] r@[i])@ != (#[trigger] r@[j])@,
{
    let ids = r@.map_values(|i: Id| i@);
    assert(s.lists_requests(ids, now));
    assert(ids.contains(id@) <==> s.request_due(id@, now));
    if ids.contains(id@) {
        let i = choose|i: int| 0 <= i < ids.len() && ids[i] == id@;
        assert(r@[i]@ == id@);
    }
    if exists|i: int| 0 <= i < r@.len() && (#[trigger] r@[i])@ == id@ {
        let i = choose|i: int| 0 <= i < r@.len() && (#[trigger] r@[i])@ == id@;
        assert(ids[i] == id@);
    }
    assert forall|i: int, j: int| 0 <= i < j < r@.len() implies (#[trigger] r@[i])@ != (
    #[trigger] r@[j])@ by {
        assert(ids[i] == r@[i]@ && ids[j] == r@[j]@);
    }
}

/// A sent payload is due to be poked exactly where it is kept, it was last touched the
/// resend interval ago or more, and it was sent no longer ago than its time to live; each is
/// listed once.
pub proof fn law_pokes_fall_due_by_the_clock(
    s: DtnSyncer,
    now: i64,
    r: Vec<PeerPayload>,
    key: PeerPayload,
)
    requires
        call_ensures(DtnSyncer::due_pokes, (&s, now), r),
        s.tuning().resend_interval_secs > i64::MIN,
        s.tuning().cache_ttl_secs < i64::MAX,
    ensures
        (exists|i: int| 0 <= i < r@.len() && (#[trigger] r@[i])@ == key@) <==> {
            &&& s.cache().dom().contains(key@)
            &&& now - s.cache()[key@].last_touched >= s.tuning().resend_interval_secs
            &&& now - s.cache()[key@].sent_at <= s.tuning().cache_ttl_secs
        },
        forall|i: int, j: int| 0 <= i < j < r@.len() ==> (#[trigger] r@[i])@ != (#[trigger] r@[j])@,
{
    let keys = r@.map_values(|k: PeerPayload| k@);
    assert(s.lists_pokes(keys, now));
    assert(keys.contains(key@) <==> s.poke_due(key@, now));
    if keys.contains(key@) {
        let i = choose|i: int| 0 <= i < keys.len() && keys[i] == key@;
        assert(r@[i]@ == key@);
    }
    if exists|i: int| 0 <= i < r@.len() && (#[trigger] r@[i])@ == key@ {
        let i = choose|i: int| 0 <= i < r@.len() && (#[trigger] r@[i])@ == key@;
        assert(keys[i] == key@);
    }
    assert forall|i: int, j: int| 0 <= i < j < r@.len() implies (#[trigger] r@[i])@ != (
    #[trigger] r@[j])@ by {
        assert(keys[i] == r@[i]@ && keys[j] == r@[j]@);
    }
}

/// A request for missing chunks is answered with every chunk that it names and that there
/// is, in the order in which it names them. The result says which of the named indexes each
/// chunk stands for. `r` is the burst that answers a request of a kept payload.
pub proof fn law_a_request_is_answered_with_what_it_names(
    s: DtnSyncer,
    after: DtnSyncer,
    from: Seq<char>,
    payload_id: Seq<u8>,
    missing: Seq<u16>,
    now: i64,
    r: Burst,
) -> (at: Seq<int>)
    requires
        s.on_control(&after, from, Control::RequestMissing { payload_id, missing }, now, r),
        s.cache().dom().contains((from, payload_id)),
        now - s.cache()[(from, payload_id)].sent_at <= s.tuning().cache_ttl_secs,
        s.tuning().cache_ttl_secs < i64::MAX,
    ensures
        r.to@ == from,
        r.priority == s.cache()[(from, payload_id)].priority,
        at.len() == r.rest().len(),
        ({
            let kept = s.cache()[(from, payload_id)].chunks@;
            &&& forall|k: int|
                0 <= k < at.len() ==> 0 <= #[trigger] at[k] < missing.len() && missing[at[k]]
                    < kept.len() && r.rest()[k] == kept[missing[at[k]] as int]@
            &&& forall|j: int, k: int| 0 <= j < k < at.len() ==> at[j] < at[k]
            &&& forall|i: int|
                0 <= i < missing.len() && (#[trigger] missing[i]) < kept.len() ==> at.contains(i)
        }),
        forall|other: (Seq<char>, Seq<u8>)|
            #![trigger after.cache().dom().contains(other)]
            other != (from, payload_id) ==> after.cache().dom().contains(other)
                == s.cache().dom().contains(other) && after.cache()[other] == s.cache()[other],
        after.queued_chunks() == s.queued_chunks(),
{
    let kept = s.cache()[(from, payload_id)].chunks@;
    assert(!s.expired((from, payload_id), now));
    let at = lemma_picked(frames(kept), missing);
    assert forall|k: int| 0 <= k < at.len() implies 0 <= #[trigger] at[k] < missing.len()
        && missing[at[k]] < kept.len() && r.rest()[k] == kept[missing[at[k]] as int]@ by {
        assert(frames(kept)[missing[at[k]] as int] == kept[missing[at[k]] as int]@);
    }
    at
}

proof fn lemma_picked(chunks: Seq<Frame>, missing: Seq<u16>) -> (at: Seq<int>)
    ensures
        at.len() == picked(chunks, missing).len(),
        forall|k: int|
            0 <= k < at.len() ==> 0 <= #[trigger] at[k] < missing.len() && missing[at[k]]
                < chunks.len() && picked(chunks, missing)[k] == chunks[missing[at[k]] as int],
        forall|j: int, k: int| 0 <= j < k < at.len() ==> at[j] < at[k],
        forall|i: int|
            0 <= i < missing.len() && (#[trigger] missing[i]) < chunks.len() ==> at.contains(i),
    decreases missing.len(),
{
    if missing.len() == 0 {
        Seq::empty()
    } else {
        let n = missing.len() - 1;
        let front = missing.drop_last();
        let at = lemma_picked(chunks, front);
        let all = if missing.last() < chunks.len() {
            at.push(n)
        } else {
            at
        };
        assert forall|i: int|
            0 <= i < missing.len() && (#[trigger] missing[i]) < chunks.len() implies all.contains(
            i,
        ) by {
            if i < n {
                assert(front[i] == missing[i]);
                let k = choose|k: int| 0 <= k < at.len() && at[k] == i;
                assert(all[k] == i);
            } else {
                assert(all[at.len() as int] == n);
            }
        }
        assert forall|k: int| 0 <= k < all.len() implies 0 <= #[trigger] all[k] < missing.len()
            && missing[all[k]] < chunks.len() && picked(chunks, missing)[k]
            == chunks[missing[all[k]] as int] by {
            if k < at.len() {
                assert(all[k] == at[k]);
                assert(front[at[k]] == missing[at[k]]);
            }
        }
        all
    }
}

/// An acknowledgement forgets the one payload that it names, for the peer that it came from:
/// every other payload stays kept as it was, and every other chunk stays queued.
pub proof fn law_an_ack_forgets_nothing_else(
    s: DtnSyncer,
    after: DtnSyncer,
    from: Seq<char>,
    payload_id: Seq<u8>,
    now: i64,
    r: Burst,
    other: (Seq<char>, Seq<u8>),
    index: u16,
)
    requires
        s.on_control(&after, from, Control::Ack { payload_id }, now, r),
    ensures
        !after.cache().dom().contains((from, payload_id)),
        !after.queued_chunks().contains((from, payload_id, index)),
        r.rest().len() == 0,
        other != (from, payload_id) ==> {
            &&& after.cache().dom().contains(other) == s.cache().dom().contains(other)
            &&& after.cache().dom().contains(other) ==> after.cache()[other] == s.cache()[other]
            &&& after.queued_chunks().contains((other.0, other.1, index))
                == s.queued_chunks().contains((other.0, other.1, index))
        },
        after.in_flight() == s.in_flight(),
        after.queued_requests() == s.queued_requests(),
{
    assert(after.queued_chunks().contains((other.0, other.1, index)) <==> s.queued_chunks().contains(
        (other.0, other.1, index),
    ) && !(other.0 == from && other.1 == payload_id));
}

/// A payload that completes is acknowledged to the peer that its last chunk came from, is no
/// longer in flight, and is handed on with its own kind and bytes, as they were sent; one
/// that is not complete stays in flight under the peer that its first chunk came from.
pub proof fn law_a_completed_payload_is_acknowledged_and_handed_on(
    s: DtnSyncer,
    after: DtnSyncer,
    from: Seq<char>,
    id: Id,
    tagged_bytes: Vec<u8>,
    kind: PayloadKind,
    payload: Seq<u8>,
    r: (Option<Offer>, Option<Completed>),
    other: Seq<u8>,
)
    requires
        s.on_arrival(&after, from, Some(id), Arrival::Complete(tagged_bytes), r),
        tagged_bytes@ == tagged(kind, payload),
    ensures
        r.0 matches Some(ack) && ack.to@ == from && control_of(ack.frame@) == Some(
            Control::Ack { payload_id: id@ },
        ),
        r.1 matches Some(done) && done.source@ == from && done.kind == kind && done.bytes@
            == payload,
        !after.in_flight().dom().contains(id@),
        other != id@ && s.in_flight().dom().contains(other) ==> after.in_flight().dom().contains(
            other,
        ) && after.in_flight()[other] == s.in_flight()[other],
        after.cache() == s.cache(),
{
    law_untag_inverts_tag(kind, payload);
    law_decode_inverts_encode(ControlFrame::Ack { payload_id: id.bytes });
}

/// A chunk of a payload that still lacks some puts it in flight, with the peer that the chunk
/// came from, unless it is in flight already; no other payload in flight is touched.
pub proof fn law_an_incomplete_payload_is_in_flight(
    s: DtnSyncer,
    after: DtnSyncer,
    from: Seq<char>,
    id: Id,
    r: (Option<Offer>, Option<Completed>),
    other: Seq<u8>,
)
    requires
        s.on_arrival(&after, from, Some(id), Arrival::Partial, r),
    ensures
        r.0 is None && r.1 is None,
        after.in_flight().dom().contains(id@),
        !s.in_flight().dom().contains(id@) ==> after.in_flight()[id@].source@ == from,
        s.in_flight().dom().contains(other) ==> after.in_flight().dom().contains(other)
            && after.in_flight()[other] == s.in_flight()[other],
        other != id@ ==> after.in_flight().dom().contains(other) == s.in_flight().dom().contains(
            other,
        ),
{
    if !s.in_flight().dom().contains(id@) && s.in_flight().dom().contains(other) {
        assert(after.in_flight().remove(id@)[other] == after.in_flight()[other]);
    }
}

/// A request names the payload and every chunk that the reassembler listed, and goes to the
/// payload's source; from then on the payload counts as asked for now, and no other does.
pub proof fn law_a_request_names_what_is_missing(
    s: DtnSyncer,
    after: DtnSyncer,
    id: Id,
    missing: Vec<u16>,
    now: i64,
    r: Option<Offer>,
    other: Seq<u8>,
)
    requires
        s.on_request(&after, id@, missing@, now, r),
        s.in_flight().dom().contains(id@),
        0 < missing@.len() <= 0xffff,
    ensures
        r matches Some(o) && o.to@ == s.in_flight()[id@].source@ && control_of(o.frame@) == Some(
            Control::RequestMissing { payload_id: id@, missing: missing@ },
        ),
        after.in_flight()[id@].last_request_at == now,
        after.in_flight()[id@].source@ == s.in_flight()[id@].source@,
        other != id@ && s.in_flight().dom().contains(other) ==> after.in_flight()[other]
            == s.in_flight()[other],
{
    law_decode_inverts_encode(ControlFrame::RequestMissing { payload_id: id.bytes, missing });
}

/// What leaves for the carrier is no longer queued, and everything else still is: a chunk
/// leaves one place, and a request for missing chunks one, each of the peer it went to.
pub proof fn law_a_sent_frame_leaves_its_own_place(
    s: DtnSyncer,
    after: DtnSyncer,
    to: Seq<char>,
    frame: Seq<u8>,
    ids: Option<ChunkIds>,
    other: (Seq<char>, Seq<u8>, u16),
    request: (Seq<char>, Seq<u8>),
)
    requires
        s.on_frame_sent(&after, to, frame, ids),
    ensures
        ids matches Some(c) ==> !after.queued_chunks().contains((to, c.payload_id@, c.index)),
        s.queued_chunks().contains(other) && !(ids matches Some(c) && other == (
            to,
            c.payload_id@,
            c.index,
        )) ==> after.queued_chunks().contains(other),
        after.queued_chunks().contains(other) ==> s.queued_chunks().contains(other),
        ids is None ==> (control_of(frame) matches Some(
            Control::RequestMissing { payload_id, missing },
        ) ==> !after.queued_requests().contains((to, payload_id))),
        s.queued_requests().contains(request) && !after.queued_requests().contains(request)
            ==> request.0 == to && (control_of(frame) matches Some(
            Control::RequestMissing { payload_id, missing },
        ) && payload_id == request.1),
        after.queued_requests().contains(request) ==> s.queued_requests().contains(request),
        after.cache() == s.cache(),
        after.in_flight() == s.in_flight(),
{
}

/// A prune drops the payloads that were sent longer ago than their time to live and keeps
/// every other as it was.
pub proof fn law_a_prune_drops_only_what_is_past_its_time(
    s: DtnSyncer,
    after: DtnSyncer,
    now: i64,
    key: (Seq<char>, Seq<u8>),
)
    requires
        s.on_prune(&after, now),
        s.tuning().cache_ttl_secs < i64::MAX,
    ensures
        after.cache().dom().contains(key) <==> s.cache().dom().contains(key) && now
            - s.cache()[key].sent_at <= s.tuning().cache_ttl_secs,
        after.cache().dom().contains(key) ==> after.cache()[key] == s.cache()[key],
        after.in_flight() == s.in_flight(),
        after.queued_chunks() == s.queued_chunks(),
        after.queued_requests() == s.queued_requests(),
{
}

/// A poke offers the payload's first chunk to its peer, in its class, and touches it now; no
/// other payload is touched.
pub proof fn law_a_poke_touches_its_payload_alone(
    s: DtnSyncer,
    after: DtnSyncer,
    key: (Seq<char>, Seq<u8>),
    now: i64,
    r: Burst,
    other: (Seq<char>, Seq<u8>),
)
    requires
        s.on_poke(&after, key, now, r),
        s.cache().dom().contains(key),
    ensures
        r.to@ == key.0,
        r.priority == s.cache()[key].priority,
        s.cache()[key].chunks@.len() > 0 ==> r.rest().len() == 1 && r.rest()[0]
            == s.cache()[key].chunks@[0]@,
        after.cache()[key].last_touched == now,
        after.cache()[key].sent_at == s.cache()[key].sent_at,
        after.cache()[key].chunks == s.cache()[key].chunks,
        after.cache().dom() == s.cache().dom(),
        other != key && s.cache().dom().contains(other) ==> after.cache()[other]
            == s.cache()[other],
{
    assert(after.cache().dom() =~= s.cache().dom());
}

} // verus!
