use rrn_station::control::{ControlFrame, PayloadKind};
use rrn_station::dtn_loop::{
    abandoned_send, push_payload, receipt_reply, route, DtnLoop, DtnOutbound, Pull, PushToSend,
    Reply, Route,
};
use rrn_station::dtn_round::{DtnRound, Event, Incoming, Outgoing, Todo};
use rrn_station::dtn_send::{DtnSend, SendStep};
use rrn_station::dtn_step::{DtnStep, StepEvent, StepTodo};
use rrn_station::dtn_sync::{
    elapsed_secs, tag_payload, Arrival, Backpressure, Chunk, ChunkIds, Completed, DtnSyncer,
    Offer, PeerPayload, Priority, SyncConfig,
};
use rrn_station::tables::Id;

const A: &str = "station-a";
const B: &str = "station-b";

fn id(n: u8) -> Id {
    Id { bytes: [n; 32] }
}

fn config() -> SyncConfig {
    SyncConfig { resend_interval_secs: 10, cache_ttl_secs: 100 }
}

/// Cuts a tagged payload into frames of four bytes behind a header.
fn framed(n: u8, tagged: &[u8]) -> Vec<Chunk> {
    framed_by(4, n, tagged)
}

fn framed_by(size: usize, n: u8, tagged: &[u8]) -> Vec<Chunk> {
    let total = (tagged.len() + size - 1) / size;
    tagged
        .chunks(size)
        .enumerate()
        .map(|(i, part)| {
            let mut bytes = vec![b'F', n, i as u8, total as u8];
            bytes.extend_from_slice(part);
            Chunk { bytes, ids: Some(ChunkIds { payload_id: id(n), index: i as u16 }) }
        })
        .collect()
}

/// One end of a link: a syncer, what it has queued, and what it has pieced together.
struct End {
    name: &'static str,
    sync: DtnSyncer,
    queue: Vec<Offer>,
    parts: Vec<(u8, Vec<Option<Vec<u8>>>)>,
    done: Vec<Completed>,
}

impl End {
    fn new(name: &'static str) -> Self {
        End { name, sync: DtnSyncer::new(config()), queue: vec![], parts: vec![], done: vec![] }
    }

    /// The syncer, for a send or a round to own.
    fn lend(&mut self) -> DtnSyncer {
        std::mem::replace(&mut self.sync, DtnSyncer::new(config()))
    }

    fn send(&mut self, to: &str, n: u8, kind: PayloadKind, payload: &[u8], priority: Priority, now: i64) {
        let chunks = framed(n, &tag_payload(kind, payload));
        self.send_chunks(to, n, chunks, priority, now);
    }

    fn send_chunks(&mut self, to: &str, n: u8, chunks: Vec<Chunk>, priority: Priority, now: i64) {
        let burst = DtnSyncer::begin_send(to.to_string(), priority, Some(chunks)).unwrap();
        let mut step = DtnSend::start(self.lend(), burst, id(n), now);
        loop {
            match step {
                SendStep::Offer { offer, send } => {
                    self.queue.push(offer);
                    step = send.feed(Ok(()));
                }
                SendStep::Sent(sync) => {
                    self.sync = sync;
                    break;
                }
                SendStep::Refused { .. } => panic!("the queue is full"),
            }
        }
    }

    /// The queued frame that goes first: the oldest of the most urgent class.
    fn best(&self) -> Option<usize> {
        (0..self.queue.len()).min_by_key(|i| match self.queue[*i].priority {
            Priority::Economic => 0,
            Priority::Governance => 1,
            Priority::Bulk => 2,
        })
    }

    fn clear(&mut self) -> Option<Offer> {
        let best = self.best()?;
        Some(self.queue.remove(best))
    }

    fn take(&mut self) -> Option<Offer> {
        let offer = self.clear()?;
        self.sync.frame_sent(&offer.to, &offer.frame, offer.ids);
        Some(offer)
    }

    fn accept(&mut self, frame: &[u8]) -> Event {
        let (n, index, total) = (frame[1], frame[2] as usize, frame[3] as usize);
        if !self.parts.iter().any(|p| p.0 == n) {
            self.parts.push((n, vec![None; total]));
        }
        let slots = &mut self.parts.iter_mut().find(|p| p.0 == n).unwrap().1;
        slots[index] = Some(frame[4..].to_vec());
        let arrival = if slots.iter().all(|s| s.is_some()) {
            Arrival::Complete(slots.iter().flat_map(|s| s.clone().unwrap()).collect())
        } else {
            Arrival::Partial
        };
        Event::Accepted { payload_id: Some(id(n)), arrival }
    }

    fn missing(&self, payload: Id) -> Option<Vec<u16>> {
        self.parts.iter().find(|p| p.0 == payload.bytes[0]).map(|p| {
            (0..p.1.len()).filter(|i| p.1[*i].is_none()).map(|i| i as u16).collect()
        })
    }

    /// One round, with the frames that are cleared for sending and those that arrived; the
    /// frames that went out.
    fn tick(&mut self, now: i64, cleared: Vec<Offer>, arrived: Vec<Incoming>) -> Vec<Vec<u8>> {
        let (mut round, mut todo) = DtnRound::start(self.lend(), now);
        let mut out = Vec::new();
        loop {
            let event = match todo {
                Todo::Clear => Event::Cleared(
                    cleared
                        .iter()
                        .map(|o| Outgoing { to: o.to.clone(), frame: o.frame.clone(), ids: o.ids })
                        .collect(),
                ),
                Todo::Transmit { frame, .. } => {
                    out.push(frame);
                    Event::Done
                }
                Todo::Receive => Event::Received(arrived.clone()),
                Todo::Accept { frame } => self.accept(&frame),
                Todo::Enqueue(offer) | Todo::Poke { offer: Some(offer), .. } => {
                    self.queue.push(offer);
                    Event::Enqueued(true)
                }
                Todo::ListMissing(payload) => Event::Missing(self.missing(payload)),
                Todo::Poke { .. } | Todo::Prune | Todo::Proceed => Event::Done,
                Todo::End | Todo::Fail => break,
            };
            todo = round.feed(event);
        }
        let (sync, done) = round.finish();
        self.sync = sync;
        for c in done.unwrap() {
            if !self.done.contains(&c) {
                self.done.push(c);
            }
        }
        out
    }
}

/// Runs the link for a while, losing every frame that `lost` picks.
fn run(a: &mut End, b: &mut End, lost: impl Fn(usize) -> bool) {
    let mut sent = 0;
    let mut keep = |frames: Vec<Vec<u8>>, from: &str| -> Vec<Incoming> {
        frames
            .into_iter()
            .filter(|_| {
                sent += 1;
                !lost(sent)
            })
            .map(|frame| Incoming { from: from.to_string(), frame })
            .collect()
    };
    let mut for_a = Vec::new();
    for now in 1..200 {
        let cleared = [a.clear(), a.clear()].into_iter().flatten().collect();
        let for_b = keep(a.tick(now, cleared, for_a), a.name);
        let cleared = [b.clear(), b.clear()].into_iter().flatten().collect();
        for_a = keep(b.tick(now, cleared, for_b), b.name);
    }
}

#[test]
fn payloads_cross_a_lossless_link_in_order_of_class() {
    let (mut a, mut b) = (End::new(A), End::new(B));
    a.send(B, 1, PayloadKind::Bundle, &[1; 30], Priority::Bulk, 0);
    a.send(B, 2, PayloadKind::Bundle, &[2; 10], Priority::Economic, 0);
    run(&mut a, &mut b, |_| false);
    let got: Vec<Vec<u8>> = b.done.iter().map(|c| c.bytes.clone()).collect();
    assert_eq!(got, vec![vec![2; 10], vec![1; 30]]);
    assert_eq!(b.done[0].source, A);
    assert_eq!(b.done[0].kind, PayloadKind::Bundle);
    assert_eq!(b.sync.inbound_inflight(), 0);
    // Everything was acknowledged: nothing is left to poke.
    assert_eq!(a.sync.due_pokes(10_000), vec![]);
}

#[test]
fn payloads_survive_a_lossy_link() {
    let (mut a, mut b) = (End::new(A), End::new(B));
    a.send(B, 1, PayloadKind::Bundle, &[1; 50], Priority::Bulk, 0);
    a.send(B, 2, PayloadKind::Receipt, &[2; 9], Priority::Economic, 0);
    run(&mut a, &mut b, |n| n % 3 == 0);
    let mut got: Vec<(PayloadKind, Vec<u8>)> =
        b.done.iter().map(|c| (c.kind, c.bytes.clone())).collect();
    got.sort_by_key(|x| x.1.len());
    assert_eq!(
        got,
        vec![(PayloadKind::Receipt, vec![2; 9]), (PayloadKind::Bundle, vec![1; 50])]
    );
    assert_eq!(b.sync.inbound_inflight(), 0);
}

/// An end whose frames leave inside an airtime budget.
struct Paced {
    end: End,
    tokens: f64,
}

impl Paced {
    fn new(name: &'static str) -> Self {
        let mut end = End::new(name);
        end.sync = DtnSyncer::new(SyncConfig { resend_interval_secs: 20, ..SyncConfig::default() });
        Paced { end, tokens: 300.0 }
    }

    fn send(&mut self, to: &str, n: u8, kind: PayloadKind, payload: &[u8], priority: Priority, now: i64) {
        let chunks = framed_by(116, n, &tag_payload(kind, payload));
        self.end.send_chunks(to, n, chunks, priority, now);
    }

    /// What two bytes a second, and a burst of three hundred, let out in a second.
    fn pump(&mut self) -> Vec<Offer> {
        self.tokens = (self.tokens + 2.0).min(300.0);
        let mut out = Vec::new();
        while let Some(best) = self.end.best() {
            let cost = self.end.queue[best].frame.len() as f64;
            if cost > self.tokens {
                break;
            }
            self.tokens -= cost;
            out.extend(self.end.clear());
        }
        out
    }
}

/// A short digest of a bundle, which stands for its receipt.
fn digest(bytes: &[u8]) -> Vec<u8> {
    let mut h: u64 = 0xcbf2_9ce4_8422_2325;
    for b in bytes {
        h = (h ^ u64::from(*b)).wrapping_mul(0x100_0000_01b3);
    }
    h.to_be_bytes().repeat(4)
}

#[test]
fn signed_bundles_survive_a_lossy_constrained_channel_economic_first() {
    // ~120-byte frames, 2 B/s sustained (the design's punishing LoRa figure),
    // 10% loss. Small bundles so the run converges in simulated minutes.
    let (mut a, mut b) = (Paced::new(A), Paced::new(B));
    let mut seed: u64 = 0xD7A1_7357;
    let mut lost = move || {
        seed = seed.wrapping_mul(6364136223846793005).wrapping_add(1442695040888963407);
        (seed >> 33) % 10 == 0
    };

    let econ_bytes: Vec<u8> = (0..500u32).map(|i| (i * 7 + 1) as u8).collect();
    let bulk_bytes: Vec<u8> = (0..500u32).map(|i| (i * 11 + 2) as u8).collect();

    // A sends both; the economic one is paced ahead of the bulk one regardless
    // of the order enqueued (bulk first, to prove priority beats arrival).
    a.send(B, 2, PayloadKind::Bundle, &bulk_bytes, Priority::Bulk, 0);
    a.send(B, 1, PayloadKind::Bundle, &econ_bytes, Priority::Economic, 0);

    let mut b_completed_order: Vec<Vec<u8>> = Vec::new();
    let mut a_receipts: Vec<Vec<u8>> = Vec::new();

    // Drive simulated time, one tick per second.
    let mut for_a: Vec<Incoming> = Vec::new();
    for now in 1..=8000 {
        let cleared = a.pump();
        let mut for_b = Vec::new();
        for frame in a.end.tick(now, cleared, std::mem::take(&mut for_a)) {
            if !lost() {
                for_b.push(Incoming { from: A.into(), frame });
            }
        }
        let cleared = b.pump();
        for frame in b.end.tick(now, cleared, for_b) {
            if !lost() {
                for_a.push(Incoming { from: B.into(), frame });
            }
        }
        // A completed bundle is "ingested" into a tiny receipt and sent back
        // economic-priority.
        for c in std::mem::take(&mut b.end.done) {
            if c.kind == PayloadKind::Bundle && !b_completed_order.contains(&c.bytes) {
                b_completed_order.push(c.bytes.clone());
                let n = 10 + b_completed_order.len() as u8;
                b.send(&c.source, n, PayloadKind::Receipt, &digest(&c.bytes), Priority::Economic, now);
            }
        }
        for c in std::mem::take(&mut a.end.done) {
            if c.kind == PayloadKind::Receipt && !a_receipts.contains(&c.bytes) {
                a_receipts.push(c.bytes);
            }
        }
        if b_completed_order.len() == 2 && a_receipts.len() == 2 {
            break;
        }
    }

    // Both bundles arrived, byte-identical.
    assert_eq!(b_completed_order.len(), 2, "both bundles must complete in time");
    assert!(b_completed_order.contains(&econ_bytes));
    assert!(b_completed_order.contains(&bulk_bytes));
    // Economic before bulk, despite bulk being enqueued first.
    assert_eq!(
        b_completed_order[0], econ_bytes,
        "the economic bundle must complete before the bulk one"
    );
    // Both receipts made the return trip.
    assert_eq!(a_receipts.len(), 2, "both delivery receipts must return");
    assert!(a_receipts.contains(&digest(&econ_bytes)));
    assert!(a_receipts.contains(&digest(&bulk_bytes)));
}

#[test]
fn a_queued_chunk_is_not_queued_again() {
    let mut a = End::new(A);
    a.send(B, 1, PayloadKind::Bundle, &[1; 7], Priority::Bulk, 0);
    let queued = a.queue.len();
    assert_eq!(queued, 2);
    a.send(B, 1, PayloadKind::Bundle, &[1; 7], Priority::Bulk, 0);
    assert_eq!(a.queue.len(), queued);
    // To another peer it is.
    a.send("station-c", 1, PayloadKind::Bundle, &[1; 7], Priority::Bulk, 0);
    assert_eq!(a.queue.len(), 2 * queued);
}

#[test]
fn missing_chunks_are_asked_for_once_an_interval() {
    let mut b = DtnSyncer::new(config());
    let from = A.to_string();
    let (ack, done) = b.arrival(&from, Some(id(1)), Arrival::Partial);
    assert_eq!((ack, done), (None, None));
    assert_eq!(b.inbound_inflight(), 1);
    // Never asked before, so due at once.
    assert_eq!(b.due_requests(0), vec![id(1)]);
    let offer = b.make_request(id(1), Some(vec![1, 4]), 0).unwrap();
    assert_eq!(offer.to, A);
    assert_eq!(offer.priority, Priority::Economic);
    assert_eq!(
        ControlFrame::decode(&offer.frame),
        Some(ControlFrame::RequestMissing { payload_id: [1; 32], missing: vec![1, 4] })
    );
    b.request_queued(offer.to.clone(), id(1));
    // While the request is queued no other is made, however late it is.
    assert_eq!(b.due_requests(1_000), vec![]);
    b.frame_sent(&offer.to, &offer.frame, None);
    assert_eq!(b.due_requests(9), vec![]);
    assert_eq!(b.due_requests(10), vec![id(1)]);
    assert_eq!(b.make_request(id(1), Some(vec![]), 10), None);
    assert_eq!(b.make_request(id(1), None, 10), None);
}

#[test]
fn a_request_resends_what_it_names() {
    let mut a = End::new(A);
    a.send(B, 1, PayloadKind::Bundle, &[1; 11], Priority::Governance, 0);
    while a.take().is_some() {}
    let ctrl = ControlFrame::RequestMissing { payload_id: [1; 32], missing: vec![2, 0, 99] };
    let burst = a.sync.handle_control(&B.to_string(), ctrl, 5);
    assert_eq!(burst.priority, Priority::Governance);
    let indexes: Vec<u16> = burst.chunks.iter().map(|c| c.ids.unwrap().index).collect();
    assert_eq!(indexes, vec![2, 0]);
    // Of a payload that was never sent there is nothing to resend.
    let unknown = ControlFrame::RequestMissing { payload_id: [7; 32], missing: vec![0] };
    assert!(a.sync.handle_control(&B.to_string(), unknown, 5).chunks.is_empty());
}

#[test]
fn an_acknowledged_payload_is_forgotten() {
    let mut a = End::new(A);
    a.send(B, 1, PayloadKind::Bundle, &[1; 11], Priority::Bulk, 0);
    let key = PeerPayload { peer: B.into(), payload_id: id(1) };
    assert_eq!(a.sync.due_pokes(9), vec![]);
    assert_eq!(a.sync.due_pokes(10), vec![key.clone()]);
    let burst = a.sync.poke(key, 10);
    assert_eq!(burst.chunks.len(), 1);
    assert_eq!(a.sync.due_pokes(19), vec![]);
    a.sync.handle_control(&B.to_string(), ControlFrame::Ack { payload_id: [1; 32] }, 11);
    assert_eq!(a.sync.due_pokes(1_000), vec![]);
}

#[test]
fn an_unacknowledged_payload_is_given_up_after_its_time() {
    let mut a = End::new(A);
    a.send(B, 1, PayloadKind::Bundle, &[1; 3], Priority::Bulk, 0);
    a.sync.prune_outbound(100);
    assert_eq!(a.sync.due_pokes(100).len(), 1);
    a.sync.prune_outbound(101);
    assert_eq!(a.sync.due_pokes(101), vec![]);
}

#[test]
fn pokes_and_requests_do_not_keep_an_unacknowledged_payload_alive() {
    let mut a = End::new(A);
    a.send(B, 1, PayloadKind::Bundle, &[1; 3], Priority::Bulk, 0);
    let mut poked = Vec::new();
    for now in 1..=200 {
        for key in a.sync.due_pokes(now) {
            a.sync.poke(key, now);
            poked.push(now);
        }
        a.sync.prune_outbound(now);
    }
    assert_eq!(poked, vec![10, 20, 30, 40, 50, 60, 70, 80, 90, 100]);

    a.send(B, 1, PayloadKind::Bundle, &[1; 3], Priority::Bulk, 1_000);
    let ask = || ControlFrame::RequestMissing { payload_id: [1; 32], missing: vec![0] };
    assert_eq!(a.sync.handle_control(&B.to_string(), ask(), 1_100).chunks.len(), 1);
    assert_eq!(a.sync.handle_control(&B.to_string(), ask(), 1_101).chunks.len(), 0);
    assert_eq!(a.sync.due_pokes(1_110), vec![]);
}

#[test]
fn a_payload_that_cannot_be_framed_is_refused() {
    assert_eq!(
        DtnSyncer::begin_send(B.to_string(), Priority::Bulk, None),
        Err(Backpressure { priority: Priority::Bulk, depth: 0 })
    );
    let mut a = End::new(A);
    a.send(B, 1, PayloadKind::Bundle, &[1; 3], Priority::Bulk, 0);
    a.sync.send_refused(B.to_string(), id(1));
    assert_eq!(a.sync.due_pokes(1_000), vec![]);
}

#[test]
fn a_completed_payload_loses_its_tag_and_is_acknowledged() {
    let mut b = DtnSyncer::new(config());
    let tagged = tag_payload(PayloadKind::Receipt, b"ok");
    assert_eq!(tagged[1..], *b"ok");
    let (ack, done) = b.arrival(&A.to_string(), Some(id(3)), Arrival::Complete(tagged));
    assert_eq!(
        ControlFrame::decode(&ack.unwrap().frame),
        Some(ControlFrame::Ack { payload_id: [3; 32] })
    );
    assert_eq!(
        done,
        Some(Completed { source: A.into(), kind: PayloadKind::Receipt, bytes: b"ok".to_vec() })
    );
    // A payload with an unknown tag is acknowledged and dropped.
    let (ack, done) = b.arrival(&A.to_string(), Some(id(4)), Arrival::Complete(vec![0xff, 1]));
    assert!(ack.is_some());
    assert_eq!(done, None);
    assert_eq!(b.arrival(&A.to_string(), Some(id(5)), Arrival::Ignored), (None, None));
}

#[test]
fn the_default_syncer_asks_every_half_minute_for_a_day() {
    let c = SyncConfig::default();
    assert_eq!(c.resend_interval_secs, 30);
    assert_eq!(c.cache_ttl_secs, 86_400);
    assert_eq!(elapsed_secs(5, 2), 3);
    assert_eq!(elapsed_secs(0, i64::MIN), i64::MAX);
    assert_eq!(elapsed_secs(i64::MIN, 1), i64::MIN);
}

#[test]
fn a_restarted_loop_pulls_everything_pending() {
    let mut l = DtnLoop::new(500, 60, 0);
    let all = Some(Pull { ttl_secs: 500, quiet_for: None });
    assert_eq!(l.begin(10, &vec![]), all);
    assert_eq!(l.begin(11, &vec![]), None);
    assert_eq!(l.begin(12, &vec![DtnOutbound::Wake, DtnOutbound::Wake]), all);
    assert_eq!(l.rescan(69), None);
    assert_eq!(l.rescan(70), Some(Pull { ttl_secs: 500, quiet_for: Some(60) }));
    assert_eq!(l.rescan(71), None);
}

#[test]
fn bundles_are_ingested_and_receipts_correlated() {
    let done = |kind| Completed { source: B.into(), kind, bytes: vec![1] };
    assert_eq!(
        route(done(PayloadKind::Bundle)),
        Route::Ingest { source: B.into(), bundle: vec![1] }
    );
    assert_eq!(
        route(done(PayloadKind::Receipt)),
        Route::Correlate { source: B.into(), receipt: vec![1] }
    );
    assert_eq!(receipt_reply(B.into(), None), None);
    assert_eq!(
        receipt_reply(B.into(), Some(vec![9])),
        Some(Reply {
            to: B.into(),
            kind: PayloadKind::Receipt,
            payload: vec![9],
            priority: Priority::Economic
        })
    );
    let push = PushToSend {
        push_id: id(1),
        to: B.into(),
        bundle: vec![4],
        priority: Priority::Governance,
    };
    assert_eq!(
        push_payload(push),
        Reply {
            to: B.into(),
            kind: PayloadKind::Bundle,
            payload: vec![4],
            priority: Priority::Governance
        }
    );
    let refused = |depth| Err(Backpressure { priority: Priority::Governance, depth });
    assert_eq!(abandoned_send(id(1), Ok(())), None);
    assert_eq!(abandoned_send(id(1), refused(0)), Some(id(1)));
    assert_eq!(abandoned_send(id(1), refused(1)), None);
}

/// A syncer with a payload on the way from A, which was not asked for yet, and one to B,
/// of which nothing is queued any more.
fn busy() -> DtnSyncer {
    let mut a = End::new("station");
    a.send(B, 1, PayloadKind::Bundle, &[1; 7], Priority::Governance, 0);
    while a.take().is_some() {}
    let _ = a.sync.arrival(&A.to_string(), Some(id(2)), Arrival::Partial);
    a.sync
}

#[test]
fn a_round_sends_takes_asks_pokes_and_prunes_in_this_order() {
    let (mut round, todo) = DtnRound::start(busy(), 50);
    assert_eq!(todo, Todo::Clear);
    let out = Outgoing { to: B.into(), frame: vec![9, 9], ids: None };
    assert_eq!(round.feed(Event::Cleared(vec![out])), Todo::Proceed);
    assert_eq!(round.feed(Event::Done), Todo::Transmit { to: B.into(), frame: vec![9, 9] });
    assert_eq!(round.feed(Event::Done), Todo::Receive);

    // Two arrivals: a request for a chunk of what was sent, and a last data chunk.
    let ask = ControlFrame::RequestMissing { payload_id: [1; 32], missing: vec![1] }.encode();
    let arrived = vec![
        Incoming { from: B.into(), frame: ask },
        Incoming { from: A.into(), frame: vec![b'F', 3] },
    ];
    assert_eq!(round.feed(Event::Received(arrived)), Todo::Proceed);
    assert_eq!(round.feed(Event::Done), Todo::Proceed);
    match round.feed(Event::Done) {
        Todo::Enqueue(o) => {
            assert_eq!(o.to, B);
            assert_eq!(o.ids, Some(ChunkIds { payload_id: id(1), index: 1 }));
        }
        other => panic!("{other:?}"),
    }
    assert_eq!(round.feed(Event::Enqueued(true)), Todo::Proceed);
    assert_eq!(round.feed(Event::Done), Todo::Proceed);
    assert_eq!(round.feed(Event::Done), Todo::Accept { frame: vec![b'F', 3] });
    let tagged = tag_payload(PayloadKind::Receipt, b"ok");
    let event = Event::Accepted { payload_id: Some(id(3)), arrival: Arrival::Complete(tagged) };
    match round.feed(event) {
        Todo::Enqueue(o) => assert_eq!(
            ControlFrame::decode(&o.frame),
            Some(ControlFrame::Ack { payload_id: [3; 32] })
        ),
        other => panic!("{other:?}"),
    }
    assert_eq!(round.feed(Event::Enqueued(false)), Todo::Proceed);

    // The payload from A is asked for.
    assert_eq!(round.feed(Event::Done), Todo::Proceed);
    assert_eq!(round.feed(Event::Done), Todo::ListMissing(id(2)));
    match round.feed(Event::Missing(Some(vec![4]))) {
        Todo::Enqueue(o) => {
            assert_eq!(o.to, A);
            assert_eq!(
                ControlFrame::decode(&o.frame),
                Some(ControlFrame::RequestMissing { payload_id: [2; 32], missing: vec![4] })
            );
        }
        other => panic!("{other:?}"),
    }
    assert_eq!(round.feed(Event::Enqueued(true)), Todo::Proceed);

    // The payload to B was just asked for, so it is not poked.
    assert_eq!(round.feed(Event::Done), Todo::Proceed);
    assert_eq!(round.feed(Event::Done), Todo::Prune);
    assert_eq!(round.feed(Event::Done), Todo::End);
    let (sync, done) = round.finish();
    assert_eq!(
        done,
        Some(vec![Completed { source: A.into(), kind: PayloadKind::Receipt, bytes: b"ok".to_vec() }])
    );
    assert_eq!(sync.due_requests(1_000), vec![]);
    assert_eq!(sync.due_pokes(59), vec![]);
    assert_eq!(sync.due_pokes(60).len(), 1);
}

#[test]
fn a_round_serves_what_is_due_once() {
    let mut a = End::new("station");
    for n in 1..=3 {
        a.send(B, n, PayloadKind::Bundle, &[n; 3], Priority::Bulk, 0);
    }
    // The third payload is still queued, the others are sent.
    let _ = (a.take(), a.take());
    for n in 4..=5 {
        let _ = a.sync.arrival(&A.to_string(), Some(id(n)), Arrival::Partial);
    }
    let (mut round, mut todo) = DtnRound::start(a.sync, 20);
    let (mut asked, mut poked, mut offered) = (Vec::new(), Vec::new(), Vec::new());
    loop {
        let event = match todo {
            Todo::Clear => Event::Cleared(vec![]),
            Todo::Receive => Event::Received(vec![]),
            Todo::ListMissing(payload) => {
                asked.push(payload);
                Event::Missing(if payload == id(4) { Some(vec![0]) } else { None })
            }
            Todo::Enqueue(_) => Event::Enqueued(false),
            Todo::Poke { key, offer } => {
                poked.push(key.payload_id);
                match offer {
                    Some(o) => {
                        offered.push(o.ids.unwrap().payload_id);
                        Event::Enqueued(true)
                    }
                    None => Event::Done,
                }
            }
            Todo::Prune | Todo::Proceed => Event::Done,
            Todo::End => break,
            other => panic!("{other:?}"),
        };
        todo = round.feed(event);
    }
    for ids in [&mut asked, &mut poked, &mut offered] {
        ids.sort_by_key(|i| i.bytes);
    }
    assert_eq!(asked, vec![id(4), id(5)]);
    assert_eq!(poked, vec![id(1), id(2), id(3)]);
    assert_eq!(offered, vec![id(1), id(2)]);
    let (sync, done) = round.finish();
    assert_eq!(done, Some(vec![]));
    // The request was made, though the pacer refused it; of the other nothing was listed.
    assert_eq!(sync.due_requests(29), vec![id(5)]);
    assert_eq!(sync.due_requests(30).len(), 2);
    assert_eq!(sync.due_pokes(29), vec![]);
    assert_eq!(sync.due_pokes(30).len(), 3);
}

#[test]
fn a_failed_carrier_breaks_the_round_off() {
    let (mut round, _) = DtnRound::start(busy(), 50);
    assert_eq!(round.feed(Event::Cleared(vec![])), Todo::Proceed);
    assert_eq!(round.feed(Event::Done), Todo::Receive);
    assert_eq!(round.feed(Event::Failed), Todo::Fail);
    let (sync, done) = round.finish();
    assert_eq!(done, None);
    // Nothing was asked for or poked.
    assert_eq!(sync.due_requests(50), vec![id(2)]);
    assert_eq!(sync.due_pokes(50).len(), 1);
}

#[test]
fn a_refused_send_is_not_kept() {
    let chunks = || Some(framed(1, &tag_payload(PayloadKind::Bundle, &[1; 7])));
    let burst = || DtnSyncer::begin_send(B.into(), Priority::Economic, chunks()).unwrap();
    let full = Backpressure { priority: Priority::Economic, depth: 64 };
    let index = |o: &Offer| o.ids.unwrap().index;

    let mut sync = match DtnSend::start(DtnSyncer::new(config()), burst(), id(1), 0) {
        SendStep::Offer { offer, send } => {
            assert_eq!(index(&offer), 0);
            match send.feed(Ok(())) {
                SendStep::Offer { offer, send } => {
                    assert_eq!(index(&offer), 1);
                    match send.feed(Err(full)) {
                        SendStep::Refused { syncer, reason } => {
                            assert_eq!(reason, full);
                            syncer
                        }
                        _ => panic!("the pacer refused the chunk"),
                    }
                }
                _ => panic!("a chunk is left"),
            }
        }
        _ => panic!("a chunk is left"),
    };
    assert_eq!(sync.due_pokes(1_000), vec![]);
    // The first chunk is still queued, so only the second is offered again.
    sync = match DtnSend::start(sync, burst(), id(1), 5) {
        SendStep::Offer { offer, send } => {
            assert_eq!(index(&offer), 1);
            match send.feed(Ok(())) {
                SendStep::Sent(syncer) => syncer,
                _ => panic!("every chunk is queued"),
            }
        }
        _ => panic!("a chunk is left"),
    };
    assert_eq!(sync.due_pokes(14), vec![]);
    assert_eq!(
        sync.due_pokes(15),
        vec![PeerPayload { peer: B.into(), payload_id: id(1) }]
    );
}

#[test]
fn a_tick_pulls_runs_a_round_routes_and_rescans() {
    let push = |n: u8| PushToSend {
        push_id: id(n),
        to: B.into(),
        bundle: vec![n],
        priority: Priority::Bulk,
    };
    let send = |p: PushToSend| StepTodo::Send(push_payload(p));
    let refused = |depth| StepEvent::Sent(Err(Backpressure { priority: Priority::Bulk, depth }));

    // The first tick pulls everything; what cannot be framed is abandoned at once.
    let (mut step, todo) = DtnStep::start(DtnLoop::new(500, 60, 0), &vec![], 100);
    assert_eq!(todo, StepTodo::Pull(Pull { ttl_secs: 500, quiet_for: None }));
    let pushes = vec![push(1), push(2), push(3)];
    assert_eq!(step.feed(StepEvent::Pushes(pushes)), StepTodo::Proceed);
    assert_eq!(step.feed(StepEvent::Done), send(push(1)));
    assert_eq!(step.feed(refused(0)), StepTodo::Abandon(id(1)));
    assert_eq!(step.feed(StepEvent::Done), send(push(2)));
    assert_eq!(step.feed(refused(7)), StepTodo::Proceed);
    assert_eq!(step.feed(StepEvent::Done), send(push(3)));
    assert_eq!(step.feed(StepEvent::Sent(Ok(()))), StepTodo::Proceed);
    assert_eq!(step.feed(StepEvent::Done), StepTodo::Tick);

    // A bundle is ingested and its receipt sent back; a receipt is correlated.
    let done = |kind, n: u8| Completed { source: B.into(), kind, bytes: vec![n] };
    let completed = vec![
        done(PayloadKind::Bundle, 8),
        done(PayloadKind::Receipt, 9),
        done(PayloadKind::Bundle, 10),
    ];
    assert_eq!(step.feed(StepEvent::Ticked(Some(completed))), StepTodo::Proceed);
    assert_eq!(step.feed(StepEvent::Done), StepTodo::Ingest { bundle: vec![8] });
    assert_eq!(
        step.feed(StepEvent::Ingested(Some(vec![80]))),
        StepTodo::Send(receipt_reply(B.into(), Some(vec![80])).unwrap())
    );
    assert_eq!(step.feed(StepEvent::Sent(Ok(()))), StepTodo::Proceed);
    assert_eq!(
        step.feed(StepEvent::Done),
        StepTodo::Correlate { source: B.into(), receipt: vec![9] }
    );
    assert_eq!(step.feed(StepEvent::Done), StepTodo::Ingest { bundle: vec![10] });
    assert_eq!(step.feed(StepEvent::Ingested(None)), StepTodo::Proceed);
    // The first tick counts as a scan, so none is due.
    assert_eq!(step.feed(StepEvent::Done), StepTodo::End);
    assert_eq!(step.state.last_rescan_at, 100);

    // A later tick without a wake runs the round at once, and then scans again.
    let (mut step, todo) = DtnStep::start(step.state, &vec![], 160);
    assert_eq!(todo, StepTodo::Tick);
    assert_eq!(step.feed(StepEvent::Ticked(None)), StepTodo::Proceed);
    assert_eq!(
        step.feed(StepEvent::Done),
        StepTodo::Pull(Pull { ttl_secs: 500, quiet_for: Some(60) })
    );
    assert_eq!(step.feed(StepEvent::Pushes(vec![push(4)])), StepTodo::Proceed);
    assert_eq!(step.feed(StepEvent::Done), send(push(4)));
    assert_eq!(step.feed(StepEvent::Sent(Ok(()))), StepTodo::Proceed);
    assert_eq!(step.feed(StepEvent::Done), StepTodo::End);

    let (_, todo) = DtnStep::start(step.state, &vec![DtnOutbound::Wake], 161);
    assert_eq!(todo, StepTodo::Pull(Pull { ttl_secs: 500, quiet_for: None }));
}
