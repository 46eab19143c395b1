//! Replicating log entries between stations: the health of the peers, the entries as
//! they cross the wire, and what a round of gossip pulls and applies.
//!
//! A peer's bytes are never trusted: an entry of the wrong shape is dropped here, and
//! every signature is verified when an entry is appended.

use vstd::prelude::*;
use vstd::slice::slice_to_vec;

use crate::log::{lemma_filter_map_picks, lemma_readable_prefix, readable, readable_len};
use crate::rpc::{ErrorCode, RpcError};
use crate::tables::{Id, Key, KeyMap, KeySet};
use crate::text::{join2, same_text};

verus! {

/// How long a single exchange with a peer may take, in seconds, before the peer
/// counts as unreachable.
pub const PEER_DIAL_TIMEOUT_SECS: u64 = 3;

/// The health of one peer, as last observed by the gossip loop.
#[derive(Clone, Copy, Debug, PartialEq, Eq, Structural)]
pub struct PeerHealth {
    /// Whether the most recent gossip round with this peer succeeded.
    pub reachable: bool,
    /// Clock time of the last successful round, if any.
    pub last_success_at: Option<i64>,
    /// Clock time this peer was last attempted.
    pub last_attempt_at: Option<i64>,
}

/// A peer that was never contacted.
pub open spec fn unknown_health() -> PeerHealth {
    PeerHealth { reachable: false, last_success_at: None, last_attempt_at: None }
}

impl Default for PeerHealth {
    fn default() -> (r: Self)
        ensures
            r == unknown_health(),
    {
        PeerHealth { reachable: false, last_success_at: None, last_attempt_at: None }
    }
}

/// A peer's health after a round.
pub open spec fn after_round(h: PeerHealth, ok: bool, now: i64) -> PeerHealth {
    PeerHealth {
        reachable: ok,
        last_success_at: if ok {
            Some(now)
        } else {
            h.last_success_at
        },
        last_attempt_at: Some(now),
    }
}

/// What a round changes of a peer's reachability: a flip is a transition, and so is
/// the first sight of a reachable peer; the first sight of an unreachable one is the
/// expected default.
pub open spec fn transition(h: PeerHealth, ok: bool) -> Option<bool> {
    if h.reachable != ok || (h.last_attempt_at is None && ok) {
        Some(ok)
    } else {
        None
    }
}

/// The in-memory connectivity snapshot that the status call reports from.
pub struct ConnectivityState {
    /// The configured peer addresses.
    pub peers: Vec<String>,
    /// The configured mobile listen address.
    pub mobile_listen: String,
    /// Whether the station is advertising itself on the local network.
    pub mobile_advertising: bool,
    /// Whether the mobile listener actually bound at startup.
    pub mobile_bound: bool,
    /// Per-peer reachability, keyed by peer address.
    pub peer_health: KeyMap<String, PeerHealth>,
}

impl ConnectivityState {
    /// The observed health of each peer that was contacted.
    pub open spec fn observed(&self) -> Map<Seq<char>, PeerHealth> {
        self.peer_health@
    }

    /// The health of a peer.
    pub open spec fn health_of(&self, peer: Seq<char>) -> PeerHealth {
        if self.observed().dom().contains(peer) {
            self.observed()[peer]
        } else {
            unknown_health()
        }
    }

    /// The table of peers is well formed.
    pub open spec fn wf(&self) -> bool {
        self.peer_health.wf()
    }

    /// A fresh snapshot for the configured peers and mobile surface; no peer has been
    /// contacted yet.
    pub fn new(peers: Vec<String>, mobile_listen: String, mobile_advertising: bool) -> (r: Self)
        ensures
            r.wf(),
            r.peers == peers,
            r.mobile_listen == mobile_listen,
            r.mobile_advertising == mobile_advertising,
            !r.mobile_bound,
            r.observed() == Map::<Seq<char>, PeerHealth>::empty(),
    {
        ConnectivityState {
            peers,
            mobile_listen,
            mobile_advertising,
            mobile_bound: false,
            peer_health: KeyMap::new(),
        }
    }

    /// The health of a peer, if it was contacted.
    pub fn health(&self, peer: &str) -> (r: Option<PeerHealth>)
        requires
            self.wf(),
        ensures
            r == if self.observed().dom().contains(peer@) {
                Some(self.observed()[peer@])
            } else {
                None
            },
    {
        match self.peer_health.get(&peer.to_owned()) {
            Some(h) => Some(*h),
            None => None,
        }
    }

    /// Records a round's outcome for `peer` and returns the reachability transition:
    /// `Some(true)` newly reachable, `Some(false)` newly unreachable, `None`
    /// unchanged.
    pub fn record(&mut self, peer: &str, ok: bool, now: i64) -> (r: Option<bool>)
        requires
            old(self).wf(),
        ensures
            final(self).wf(),
            final(self).peers == old(self).peers,
            final(self).mobile_listen == old(self).mobile_listen,
            final(self).mobile_advertising == old(self).mobile_advertising,
            final(self).mobile_bound == old(self).mobile_bound,
            r == transition(old(self).health_of(peer@), ok),
            final(self).observed() == old(self).observed().insert(
                peer@,
                after_round(old(self).health_of(peer@), ok, now),
            ),
    {
        let name = peer.to_owned();
        let before = match self.peer_health.get(&name) {
            Some(h) => *h,
            None => PeerHealth::default(),
        };
        let after = PeerHealth {
            reachable: ok,
            last_success_at: if ok {
                Some(now)
            } else {
                before.last_success_at
            },
            last_attempt_at: Some(now),
        };
        self.peer_health.insert(name, after);
        let first = before.last_attempt_at.is_none();
        if before.reachable != ok || (first && ok) {
            Some(ok)
        } else {
            None
        }
    }
}

/// A round that goes as the last one went is silent.
pub proof fn law_repeated_rounds_are_silent(h: PeerHealth, ok: bool, now: i64)
    ensures
        transition(after_round(h, ok, now), ok) is None,
{
}

/// A round that goes otherwise than the last one is a transition, to how it went.
pub proof fn law_flips_are_told(h: PeerHealth, ok: bool, now: i64)
    ensures
        transition(after_round(h, ok, now), !ok) == Some(!ok),
{
}

/// A peer's health after rounds, each with how it went and when.
pub open spec fn after_rounds(h: PeerHealth, rounds: Seq<(bool, i64)>) -> PeerHealth
    decreases rounds.len(),
{
    if rounds.len() == 0 {
        h
    } else {
        after_round(after_rounds(h, rounds.drop_last()), rounds.last().0, rounds.last().1)
    }
}

/// After any rounds, a peer is reachable if the last one succeeded, it was last attempted
/// then, and it last succeeded when the latest round that succeeded was. `latest` is that
/// round's place.
pub proof fn law_health_is_the_latest_of_its_rounds(
    h: PeerHealth,
    rounds: Seq<(bool, i64)>,
    latest: int,
)
    requires
        rounds.len() > 0,
    ensures
        after_rounds(h, rounds).reachable == rounds.last().0,
        after_rounds(h, rounds).last_attempt_at == Some(rounds.last().1),
        0 <= latest < rounds.len() && rounds[latest].0 && (forall|j: int|
            latest < j < rounds.len() ==> !(#[trigger] rounds[j]).0) ==> after_rounds(
            h,
            rounds,
        ).last_success_at == Some(rounds[latest].1),
        (forall|j: int| 0 <= j < rounds.len() ==> !(#[trigger] rounds[j]).0) ==> after_rounds(
            h,
            rounds,
        ).last_success_at == h.last_success_at,
    decreases rounds.len(),
{
    let front = rounds.drop_last();
    let n = rounds.len() - 1;
    assert(rounds[n] == rounds.last());
    if front.len() > 0 {
        law_health_is_the_latest_of_its_rounds(h, front, latest);
        assert(forall|j: int| 0 <= j < n ==> #[trigger] front[j] == rounds[j]);
        if 0 <= latest < n && (forall|j: int|
            latest < j < rounds.len() ==> !(#[trigger] rounds[j]).0) {
            assert forall|j: int| latest < j < front.len() implies !(#[trigger] front[j]).0 by {
                assert(front[j] == rounds[j]);
            }
        }
        if forall|j: int| 0 <= j < rounds.len() ==> !(#[trigger] rounds[j]).0 {
            assert forall|j: int| 0 <= j < front.len() implies !(#[trigger] front[j]).0 by {
                assert(front[j] == rounds[j]);
            }
        }
    }
}

/// A stored payload: the signed bytes, who signed them, and the signature.
#[derive(Clone, Debug, PartialEq, Eq)]
pub struct StoredPayload {
    /// The canonical bytes that were signed.
    pub bytes: Vec<u8>,
    /// The signer's public key.
    pub signer: Id,
    /// The signature over the bytes.
    pub signature: [u8; 64],
}

/// A stored payload, as plain values.
#[verifier::ext_equal]
pub struct Payload {
    pub bytes: Seq<u8>,
    pub signer: Seq<u8>,
    pub signature: Seq<u8>,
}

impl View for StoredPayload {
    type V = Payload;

    open spec fn view(&self) -> Payload {
        Payload { bytes: self.bytes@, signer: self.signer@, signature: self.signature@ }
    }
}

/// A log entry as it crosses the peer wire. Its place in the chain is not sent: the
/// receiver chains the payload onto its own log.
#[derive(Clone, Debug, PartialEq, Eq)]
pub struct WireEntry {
    /// The 32-byte signer public key.
    pub signer: Vec<u8>,
    /// The 64-byte signature over `bytes`.
    pub signature: Vec<u8>,
    /// The canonical CBOR that was signed.
    pub bytes: Vec<u8>,
}

impl View for WireEntry {
    type V = Payload;

    open spec fn view(&self) -> Payload {
        Payload { bytes: self.bytes@, signer: self.signer@, signature: self.signature@ }
    }
}

/// Whether a payload's key and signature have their lengths.
pub open spec fn well_sized(p: Payload) -> bool {
    p.signer.len() == 32 && p.signature.len() == 64
}

/// The thirty-two bytes of a slice, where it has that many.
pub fn to_id(bytes: &[u8]) -> (r: Option<Id>)
    ensures
        r is Some <==> bytes@.len() == 32,
        r matches Some(id) ==> id@ == bytes@,
{
    if bytes.len() != 32 {
        return None;
    }
    let mut out: [u8; 32] = [0u8; 32];
    let mut i: usize = 0;
    while i < 32
        invariant
            i <= 32,
            bytes@.len() == 32,
            forall|j: int| 0 <= j < i ==> out@[j] == bytes@[j],
        decreases 32 - i,
    {
        out[i] = bytes[i];
        i = i + 1;
    }
    assert(out@ =~= bytes@);
    Some(Id { bytes: out })
}

/// The sixty-four bytes of a slice, where it has that many.
pub fn to_signature(bytes: &[u8]) -> (r: Option<[u8; 64]>)
    ensures
        r is Some <==> bytes@.len() == 64,
        r matches Some(s) ==> s@ == bytes@,
{
    if bytes.len() != 64 {
        return None;
    }
    let mut out: [u8; 64] = [0u8; 64];
    let mut i: usize = 0;
    while i < 64
        invariant
            i <= 64,
            bytes@.len() == 64,
            forall|j: int| 0 <= j < i ==> out@[j] == bytes@[j],
        decreases 64 - i,
    {
        out[i] = bytes[i];
        i = i + 1;
    }
    assert(out@ =~= bytes@);
    Some(out)
}

/// A stored payload from its three byte fields, or `None` if the key's or the
/// signature's length is wrong. Whether the bytes are a key and a signature is for the
/// signature scheme to say: see [`with_valid_parts`].
pub fn stored_from_parts(signer: &[u8], signature: &[u8], bytes: Vec<u8>) -> (r: Option<
    StoredPayload,
>)
    ensures
        r is Some <==> signer@.len() == 32 && signature@.len() == 64,
        r matches Some(p) ==> p@ == (Payload {
            bytes: bytes@,
            signer: signer@,
            signature: signature@,
        }),
{
    match (to_id(signer), to_signature(signature)) {
        (Some(signer), Some(signature)) => Some(StoredPayload { bytes, signer, signature }),
        _ => None,
    }
}

/// A payload whose parts have the form that the signature scheme asks for, or `None`.
/// `key_valid` and `signature_valid` say whether its signer's bytes are a key and whether
/// its signature's have the form of one.
pub fn with_valid_parts(p: StoredPayload, key_valid: bool, signature_valid: bool) -> (r: Option<
    StoredPayload,
>)
    ensures
        r == if key_valid && signature_valid {
            Some(p)
        } else {
            None
        },
{
    if key_valid && signature_valid {
        Some(p)
    } else {
        None
    }
}

impl WireEntry {
    /// A stored payload for transmission.
    pub fn from_stored(p: &StoredPayload) -> (r: Self)
        ensures
            r@ == p@,
    {
        WireEntry {
            signer: slice_to_vec(p.signer.bytes.as_slice()),
            signature: slice_to_vec(p.signature.as_slice()),
            bytes: slice_to_vec(p.bytes.as_slice()),
        }
    }

    /// Reconstructs a stored payload, or `None` if the key's or the signature's
    /// length is wrong. The signature is verified later, at append time.
    pub fn to_stored(&self) -> (r: Option<StoredPayload>)
        ensures
            r is Some <==> well_sized(self@),
            r matches Some(p) ==> p@ == self@,
    {
        stored_from_parts(
            self.signer.as_slice(),
            self.signature.as_slice(),
            slice_to_vec(self.bytes.as_slice()),
        )
    }
}

/// What was stored crosses the wire unchanged: the entry that stands for a stored payload
/// reads back as that payload.
pub proof fn law_stored_payloads_cross_the_wire(
    p: StoredPayload,
    w: WireEntry,
    back: Option<StoredPayload>,
)
    requires
        w@ == p@,
        back is Some <==> well_sized(w@),
        back matches Some(q) ==> q@ == w@,
    ensures
        back is Some,
        back->0@ == p@,
{
}

/// An entry of the log with its place in it.
#[derive(Clone, Debug, PartialEq, Eq)]
pub struct StoredEntry {
    /// Its sequence number.
    pub seq: u64,
    /// Its payload.
    pub payload: StoredPayload,
}

/// The payloads of the entries within a range of sequence numbers, both ends
/// included.
pub open spec fn range_of(entries: Seq<StoredEntry>, from_seq: u64, to_seq: u64) -> Seq<Payload> {
    entries.filter_map(
        |e: StoredEntry|
            if from_seq <= e.seq <= to_seq {
                Some(e.payload@)
            } else {
                None
            },
    )
}

/// Entries as plain values.
pub open spec fn payloads(entries: Seq<WireEntry>) -> Seq<Payload> {
    entries.map_values(|w: WireEntry| w@)
}

/// The entries of a range for a peer. `read` is what reading the log from `from_seq` on
/// gave, entry by entry, with nothing for one that could not be read: the reading stops
/// there. What stands before `from_seq` is not read, so it cannot stop the reading.
pub fn log_range(read: &Vec<Option<StoredEntry>>, from_seq: u64, to_seq: u64) -> (r: Vec<WireEntry>)
    ensures
        payloads(r@) == range_of(readable(read@), from_seq, to_seq),
{
    let n: usize = readable_len(read);
    let ghost entries = readable(read@);
    let ghost f = |e: StoredEntry|
        if from_seq <= e.seq <= to_seq {
            Some(e.payload@)
        } else {
            None
        };
    let mut out: Vec<WireEntry> = Vec::new();
    let mut i: usize = 0;
    assert(entries.take(0).filter_map(f) =~= payloads(out@));
    while i < n
        invariant
            i <= n <= read@.len(),
            n == entries.len(),
            forall|j: int| 0 <= j < n ==> #[trigger] read@[j] == Some(entries[j]),
            f == (|e: StoredEntry|
                if from_seq <= e.seq <= to_seq {
                    Some(e.payload@)
                } else {
                    None
                }),
            payloads(out@) == entries.take(i as int).filter_map(f),
        decreases n - i,
    {
        let ghost before = out@;
        proof {
            entries.lemma_filter_map_take_succ(f, i as int);
            assert(read@[i as int] == Some(entries[i as int]));
        }
        match &read[i] {
            Some(e) => {
                if from_seq <= e.seq && e.seq <= to_seq {
                    out.push(WireEntry::from_stored(&e.payload));
                    assert(payloads(out@) =~= payloads(before).push(e.payload@));
                }
            },
            None => {},
        }
        i = i + 1;
        assert(payloads(out@) =~= entries.take(i as int).filter_map(f));
    }
    assert(entries.take(n as int) =~= entries);
    out
}

/// The entries that can be offered to the log: those of the right shape, in order.
pub fn well_formed_entries(entries: &Vec<WireEntry>) -> (r: Vec<StoredPayload>)
    ensures
        r@.map_values(|p: StoredPayload| p@) == payloads(entries@).filter(
            |p: Payload| well_sized(p),
        ),
{
    let ghost good = |p: Payload| well_sized(p);
    let ghost all = payloads(entries@);
    let mut out: Vec<StoredPayload> = Vec::new();
    let mut i: usize = 0;
    proof {
        reveal(Seq::filter);
        assert(out@.map_values(|p: StoredPayload| p@) =~= all.take(0).filter(good));
    }
    while i < entries.len()
        invariant
            i <= entries.len(),
            all == payloads(entries@),
            good == (|p: Payload| well_sized(p)),
            out@.map_values(|p: StoredPayload| p@) == all.take(i as int).filter(good),
        decreases entries.len() - i,
    {
        let ghost before = out@;
        proof {
            reveal(Seq::filter);
            assert(all.take(i as int + 1).drop_last() =~= all.take(i as int));
            assert(all.take(i as int + 1).last() == entries@[i as int]@);
        }
        match entries[i].to_stored() {
            Some(p) => {
                out.push(p);
                assert(out@.map_values(|p: StoredPayload| p@) =~= before.map_values(
                    |p: StoredPayload| p@,
                ).push(p@));
            },
            None => {},
        }
        i = i + 1;
    }
    assert(all.take(i as int) =~= all);
    out
}

/// What the log did with a replicated entry.
#[derive(Clone, Copy, Debug, PartialEq, Eq)]
pub enum AppendOutcome {
    /// It was appended; the listing that it is about, if it is about one.
    Appended {
        /// The listing.
        listing: Option<Id>,
    },
    /// The log held it already.
    Held,
    /// It was refused: its signature does not verify, or the log failed.
    Refused,
}

/// How many of the entries were appended.
pub open spec fn appended_in(outcomes: Seq<AppendOutcome>) -> nat
    decreases outcomes.len(),
{
    if outcomes.len() == 0 {
        0
    } else if outcomes.last() is Appended {
        appended_in(outcomes.drop_last()) + 1
    } else {
        appended_in(outcomes.drop_last())
    }
}

/// The listings that appended entries are about, each once, in order of their first
/// mention.
pub open spec fn touched_in(outcomes: Seq<AppendOutcome>) -> Seq<Seq<u8>>
    decreases outcomes.len(),
{
    if outcomes.len() == 0 {
        Seq::empty()
    } else {
        let before = touched_in(outcomes.drop_last());
        match outcomes.last() {
            AppendOutcome::Appended { listing: Some(id) } => if before.contains(id@) {
                before
            } else {
                before.push(id@)
            },
            _ => before,
        }
    }
}

/// What a round of gossip did: how many entries were appended, and which listings
/// have to be brought back in step with the log.
pub struct Applied {
    /// How many entries were appended.
    pub appended: usize,
    /// The listings to index again, each once.
    pub touched: KeySet<Id>,
}

/// Sums up what the log did with the replicated entries.
pub fn applied(outcomes: &Vec<AppendOutcome>) -> (r: Applied)
    ensures
        r.appended == appended_in(outcomes@),
        r.touched.wf(),
        r.touched.keys() == touched_in(outcomes@),
{
    let mut appended: usize = 0;
    let mut touched: KeySet<Id> = KeySet::new();
    let mut i: usize = 0;
    while i < outcomes.len()
        invariant
            i <= outcomes.len(),
            appended <= i,
            appended == appended_in(outcomes@.take(i as int)),
            touched.wf(),
            touched.keys() == touched_in(outcomes@.take(i as int)),
        decreases outcomes.len() - i,
    {
        assert(outcomes@.take(i as int + 1).drop_last() =~= outcomes@.take(i as int));
        match outcomes[i] {
            AppendOutcome::Appended { listing } => {
                appended = appended + 1;
                match listing {
                    Some(id) => {
                        proof {
                            touched.lemma_keys();
                        }
                        let _ = touched.insert(id);
                    },
                    None => {},
                }
            },
            _ => {},
        }
        i = i + 1;
    }
    assert(outcomes@.take(i as int) =~= outcomes@);
    Applied { appended, touched }
}

/// Whether a log holds a payload's content. `content` is what the log knows a payload by.
pub open spec fn held<C>(log: Seq<Payload>, content: spec_fn(Payload) -> C, p: Payload) -> bool {
    exists|i: int| 0 <= i < log.len() && #[trigger] content(log[i]) == content(p)
}

/// A log once payloads were offered to it, in order: it takes each one whose signature is
/// valid and whose content it does not hold, and passes over the others.
pub open spec fn grown<C>(
    log: Seq<Payload>,
    offered: Seq<Payload>,
    content: spec_fn(Payload) -> C,
    valid: spec_fn(Payload) -> bool,
) -> Seq<Payload>
    decreases offered.len(),
{
    if offered.len() == 0 {
        log
    } else {
        let before = grown(log, offered.drop_last(), content, valid);
        if valid(offered.last()) && !held(before, content, offered.last()) {
            before.push(offered.last())
        } else {
            before
        }
    }
}

/// Whether outcomes are those of payloads that were offered to a log in order.
pub open spec fn answers<C>(
    outcomes: Seq<AppendOutcome>,
    log: Seq<Payload>,
    offered: Seq<Payload>,
    content: spec_fn(Payload) -> C,
    valid: spec_fn(Payload) -> bool,
) -> bool {
    &&& outcomes.len() == offered.len()
    &&& forall|i: int|
        0 <= i < offered.len() ==> ((#[trigger] outcomes[i]) is Appended <==> valid(offered[i])
            && !held(grown(log, offered.take(i), content, valid), content, offered[i]))
}

/// A round appends as many entries as the log grew by.
pub proof fn law_a_round_counts_the_growth<C>(
    outcomes: Seq<AppendOutcome>,
    log: Seq<Payload>,
    offered: Seq<Payload>,
    content: spec_fn(Payload) -> C,
    valid: spec_fn(Payload) -> bool,
)
    requires
        answers(outcomes, log, offered, content, valid),
    ensures
        appended_in(outcomes) == grown(log, offered, content, valid).len() - log.len(),
    decreases offered.len(),
{
    if offered.len() > 0 {
        let front = offered.drop_last();
        let told = outcomes.drop_last();
        assert forall|i: int| 0 <= i < front.len() implies ((#[trigger] told[i]) is Appended
            <==> valid(front[i]) && !held(
            grown(log, front.take(i), content, valid),
            content,
            front[i],
        )) by {
            assert(front.take(i) =~= offered.take(i));
            assert(told[i] == outcomes[i]);
        }
        law_a_round_counts_the_growth(told, log, front, content, valid);
        let n = offered.len() - 1;
        assert(outcomes[n] == outcomes.last());
        assert(offered.take(n) =~= front);
    }
}

proof fn lemma_growth_keeps<C>(
    log: Seq<Payload>,
    offered: Seq<Payload>,
    content: spec_fn(Payload) -> C,
    valid: spec_fn(Payload) -> bool,
)
    ensures
        log.is_prefix_of(grown(log, offered, content, valid)),
        forall|p: Payload| #[trigger]
            held(log, content, p) ==> held(grown(log, offered, content, valid), content, p),
        forall|j: int|
            0 <= j < offered.len() && valid(#[trigger] offered[j]) ==> held(
                grown(log, offered, content, valid),
                content,
                offered[j],
            ),
    decreases offered.len(),
{
    if offered.len() > 0 {
        let front = offered.drop_last();
        lemma_growth_keeps(log, front, content, valid);
        let before = grown(log, front, content, valid);
        let after = grown(log, offered, content, valid);
        assert forall|p: Payload| #[trigger] held(before, content, p) implies held(
            after,
            content,
            p,
        ) by {
            let i = choose|i: int|
                0 <= i < before.len() && #[trigger] content(before[i]) == content(p);
            assert(content(after[i]) == content(p));
        }
        assert forall|j: int| 0 <= j < offered.len() && valid(#[trigger] offered[j]) implies held(
            after,
            content,
            offered[j],
        ) by {
            if j < front.len() {
                assert(front[j] == offered[j]);
                assert(held(before, content, front[j]));
            } else if !held(before, content, offered.last()) {
                assert(content(after[after.len() - 1]) == content(offered[j]));
            }
        }
    }
}

/// Payloads that a log holds, or whose signatures are not valid, leave it as it is.
proof fn lemma_nothing_new<C>(
    log: Seq<Payload>,
    offered: Seq<Payload>,
    content: spec_fn(Payload) -> C,
    valid: spec_fn(Payload) -> bool,
)
    requires
        forall|j: int|
            0 <= j < offered.len() && valid(#[trigger] offered[j]) ==> held(
                log,
                content,
                offered[j],
            ),
    ensures
        grown(log, offered, content, valid) == log,
    decreases offered.len(),
{
    if offered.len() > 0 {
        let front = offered.drop_last();
        assert forall|j: int| 0 <= j < front.len() && valid(#[trigger] front[j]) implies held(
            log,
            content,
            front[j],
        ) by {
            assert(front[j] == offered[j]);
        }
        lemma_nothing_new(log, front, content, valid);
        assert(offered[offered.len() - 1] == offered.last());
    }
}

/// The same entries applied again append nothing, and leave the log as the first round
/// left it. `again` is what the log did with them the second time.
pub proof fn law_a_round_twice_appends_nothing<C>(
    again: Seq<AppendOutcome>,
    log: Seq<Payload>,
    offered: Seq<Payload>,
    content: spec_fn(Payload) -> C,
    valid: spec_fn(Payload) -> bool,
)
    requires
        answers(again, grown(log, offered, content, valid), offered, content, valid),
    ensures
        appended_in(again) == 0,
        grown(grown(log, offered, content, valid), offered, content, valid) == grown(
            log,
            offered,
            content,
            valid,
        ),
{
    let after = grown(log, offered, content, valid);
    lemma_growth_keeps(log, offered, content, valid);
    lemma_nothing_new(after, offered, content, valid);
    law_a_round_counts_the_growth(again, after, offered, content, valid);
}

/// An entry whose signature is not valid does not keep the others from the log: they are
/// taken as if it had not been offered.
pub proof fn law_bad_entries_do_not_stop_a_round<C>(
    log: Seq<Payload>,
    front: Seq<Payload>,
    bad: Payload,
    back: Seq<Payload>,
    content: spec_fn(Payload) -> C,
    valid: spec_fn(Payload) -> bool,
)
    requires
        !valid(bad),
    ensures
        grown(log, front + seq![bad] + back, content, valid) == grown(
            log,
            front + back,
            content,
            valid,
        ),
    decreases back.len(),
{
    let all = front + seq![bad] + back;
    let others = front + back;
    if back.len() == 0 {
        assert(all.drop_last() =~= front);
        assert(others =~= front);
    } else {
        law_bad_entries_do_not_stop_a_round(log, front, bad, back.drop_last(), content, valid);
        assert(all.drop_last() =~= front + seq![bad] + back.drop_last());
        assert(others.drop_last() =~= front + back.drop_last());
    }
}

/// The methods that peers call on each other.
#[derive(Clone, Copy, Debug, PartialEq, Eq, Structural)]
pub enum PeerMethod {
    /// Who are you, and how long is your log?
    Handshake,
    /// How long is your log?
    LogTail,
    /// Give me this range of it.
    LogRange,
}

/// The method with a name.
pub open spec fn peer_method_named(name: Seq<char>) -> Option<PeerMethod> {
    if name == "peer_handshake"@ {
        Some(PeerMethod::Handshake)
    } else if name == "log_tail"@ {
        Some(PeerMethod::LogTail)
    } else if name == "log_range"@ {
        Some(PeerMethod::LogRange)
    } else {
        None
    }
}

/// The method that a peer calls; an unknown one is refused by name.
pub fn peer_method(name: &str) -> (r: Result<PeerMethod, RpcError>)
    ensures
        match r {
            Ok(m) => peer_method_named(name@) == Some(m),
            Err(e) => peer_method_named(name@) is None && e.says(
                ErrorCode::MethodNotFound,
                "unknown peer method: "@ + name@,
            ),
        },
{
    if same_text(name, "peer_handshake") {
        Ok(PeerMethod::Handshake)
    } else if same_text(name, "log_tail") {
        Ok(PeerMethod::LogTail)
    } else if same_text(name, "log_range") {
        Ok(PeerMethod::LogRange)
    } else {
        Err(
            RpcError {
                code: ErrorCode::MethodNotFound,
                message: join2("unknown peer method: ", name),
            },
        )
    }
}

/// The range to pull from a peer whose log ends at `tail`: the whole log, and nothing
/// where it is empty. What is held already is recognised by its content.
pub fn pull_range(tail: u64) -> (r: Option<(u64, u64)>)
    ensures
        r == if tail == 0 {
            None
        } else {
            Some((1u64, tail))
        },
{
    if tail == 0 {
        None
    } else {
        Some((1, tail))
    }
}

/// Serving a range leaves nothing out and adds nothing: the answer is the payloads of the
/// entries whose sequence numbers lie within the range, of those that stand before the
/// first one that could not be read, in the order in which they stand. `n` is how many
/// could be read; the result says where in `read` each entry of the answer stands.
pub proof fn law_a_range_is_served_whole(
    read: &Vec<Option<StoredEntry>>,
    n: int,
    from_seq: u64,
    to_seq: u64,
    r: Vec<WireEntry>,
) -> (at: Seq<int>)
    requires
        call_ensures(log_range, (read, from_seq, to_seq), r),
        0 <= n <= read@.len(),
        forall|i: int| 0 <= i < n ==> (#[trigger] read@[i]) is Some,
        n < read@.len() ==> read@[n] is None,
    ensures
        at.len() == r@.len(),
        forall|k: int|
            0 <= k < at.len() ==> {
                &&& 0 <= #[trigger] at[k] < n
                &&& from_seq <= read@[at[k]]->0.seq <= to_seq
                &&& r@[k]@ == read@[at[k]]->0.payload@
            },
        forall|j: int, k: int| 0 <= j < k < at.len() ==> at[j] < at[k],
        forall|i: int|
            0 <= i < n && from_seq <= (#[trigger] read@[i])->0.seq <= to_seq ==> at.contains(i),
{
    let entries = readable(read@);
    lemma_readable_prefix(read@, n);
    let f = |e: StoredEntry|
        if from_seq <= e.seq <= to_seq {
            Some(e.payload@)
        } else {
            None
        };
    let at = lemma_filter_map_picks(entries, f);
    assert(payloads(r@) == entries.filter_map(f));
    assert forall|k: int| 0 <= k < at.len() implies {
        &&& 0 <= #[trigger] at[k] < n
        &&& from_seq <= read@[at[k]]->0.seq <= to_seq
        &&& r@[k]@ == read@[at[k]]->0.payload@
    } by {
        assert(payloads(r@)[k] == r@[k]@);
        assert(read@[at[k]] == Some(entries[at[k]]));
    }
    assert forall|i: int|
        0 <= i < n && from_seq <= (#[trigger] read@[i])->0.seq <= to_seq implies at.contains(i) by {
        assert(read@[i] == Some(entries[i]));
        assert(f(entries[i]) is Some);
    }
    at
}

/// Pulling from a peer brings its whole log: where every entry can be read, the range that
/// is asked of a peer whose log ends at `tail` is answered with every entry, in order, and
/// every one of them can be offered to this station's log.
pub proof fn law_a_pull_brings_the_whole_log(
    tail: u64,
    range: (u64, u64),
    read: &Vec<Option<StoredEntry>>,
    r: Vec<WireEntry>,
    offered: Vec<StoredPayload>,
)
    requires
        call_ensures(pull_range, (tail,), Some(range)),
        call_ensures(log_range, (read, range.0, range.1), r),
        call_ensures(well_formed_entries, (&r,), offered),
        forall|i: int|
            0 <= i < read@.len() ==> ((#[trigger] read@[i]) matches Some(e) && 1 <= e.seq <= tail),
    ensures
        r@.len() == read@.len(),
        offered@.len() == read@.len(),
        forall|i: int|
            0 <= i < read@.len() ==> (#[trigger] r@[i])@ == read@[i]->0.payload@ && offered@[i]@
                == read@[i]->0.payload@,
{
    let n = read@.len() as int;
    let at = law_a_range_is_served_whole(read, n, range.0, range.1, r);
    assert forall|i: int| 0 <= i < n implies #[trigger] at.contains(i) by {
        assert(read@[i] is Some);
    }
    lemma_picks_all(at, n);
    let all = payloads(r@);
    let good = |p: Payload| well_sized(p);
    assert forall|i: int| 0 <= i < all.len() implies good(#[trigger] all[i]) by {
        assert(all[i] == r@[i]@);
        assert(at[i] == i);
        assert(r@[i]@ == read@[i]->0.payload@);
    }
    lemma_filter_all(all, good);
    assert(offered@.map_values(|p: StoredPayload| p@) == all);
    assert forall|i: int| 0 <= i < read@.len() implies (#[trigger] r@[i])@
        == read@[i]->0.payload@ && offered@[i]@ == read@[i]->0.payload@ by {
        assert(at[i] == i);
        assert(all[i] == r@[i]@);
        assert(offered@.map_values(|p: StoredPayload| p@)[i] == offered@[i]@);
    }
}

proof fn lemma_picks_all(at: Seq<int>, n: int)
    requires
        0 <= n,
        forall|k: int| 0 <= k < at.len() ==> 0 <= #[trigger] at[k] < n,
        forall|j: int, k: int| 0 <= j < k < at.len() ==> at[j] < at[k],
        forall|i: int| 0 <= i < n ==> #[trigger] at.contains(i),
    ensures
        at.len() == n,
        forall|k: int| 0 <= k < n ==> #[trigger] at[k] == k,
    decreases n,
{
    if n == 0 {
        if at.len() > 0 {
            let first = at[0];
            assert(0 <= first < n);
        }
    } else {
        assert(at.contains(n - 1));
        let k = choose|k: int| 0 <= k < at.len() && at[k] == n - 1;
        assert(k == at.len() - 1) by {
            if k < at.len() - 1 {
                assert(at[k] < at[at.len() - 1]);
            }
        }
        let front = at.drop_last();
        assert forall|j: int| 0 <= j < front.len() implies 0 <= #[trigger] front[j] < n - 1 by {
            assert(front[j] == at[j]);
            assert(at[j] < at[k]);
        }
        assert forall|i: int| 0 <= i < n - 1 implies #[trigger] front.contains(i) by {
            assert(at.contains(i));
            let j = choose|j: int| 0 <= j < at.len() && at[j] == i;
            assert(front[j] == i);
        }
        lemma_picks_all(front, n - 1);
        assert forall|j: int| 0 <= j < n implies #[trigger] at[j] == j by {
            if j < n - 1 {
                assert(front[j] == j);
            }
        }
    }
}

proof fn lemma_filter_all<A>(s: Seq<A>, p: spec_fn(A) -> bool)
    requires
        forall|i: int| 0 <= i < s.len() ==> p(#[trigger] s[i]),
    ensures
        s.filter(p) == s,
    decreases s.len(),
{
    reveal(Seq::filter);
    if s.len() > 0 {
        let front = s.drop_last();
        assert forall|i: int| 0 <= i < front.len() implies p(#[trigger] front[i]) by {
            assert(front[i] == s[i]);
        }
        lemma_filter_all(front, p);
        assert(p(s[s.len() - 1]));
        assert(front.push(s.last()) =~= s);
    } else {
        assert(s.filter(p) =~= s);
    }
}

/// The first round with a peer that was never contacted is a transition only if it
/// succeeded: that a peer is unreachable is the expected default.
pub proof fn law_a_first_failure_is_silent(state: ConnectivityState, peer: Seq<char>, ok: bool)
    requires
        !state.observed().dom().contains(peer),
    ensures
        transition(state.health_of(peer), ok) == if ok {
            Some(true)
        } else {
            None
        },
{
}

/// A round counts every entry that the log took, and names every listing that one of them
/// is about, once, and no other.
pub proof fn law_a_round_names_what_it_touched(outcomes: &Vec<AppendOutcome>, r: Applied)
    requires
        call_ensures(applied, (outcomes,), r),
    ensures
        r.appended == outcomes@.filter(|o: AppendOutcome| o is Appended).len(),
        r.touched.keys().no_duplicates(),
        forall|id: Seq<u8>|
            #![trigger r.touched@.contains(id)]
            r.touched@.contains(id) <==> exists|i: int|
                0 <= i < outcomes@.len() && ((#[trigger] outcomes@[i]) matches
                    AppendOutcome::Appended { listing: Some(x) } && x@ == id),
{
    lemma_appended(outcomes@);
    r.touched.lemma_keys();
    assert forall|id: Seq<u8>|
        #![trigger r.touched@.contains(id)]
        r.touched@.contains(id) <==> exists|i: int|
            0 <= i < outcomes@.len() && ((#[trigger] outcomes@[i]) matches
                AppendOutcome::Appended { listing: Some(x) } && x@ == id) by {
        lemma_touched(outcomes@, id);
    }
}

proof fn lemma_appended(outcomes: Seq<AppendOutcome>)
    ensures
        appended_in(outcomes) == outcomes.filter(|o: AppendOutcome| o is Appended).len(),
        touched_in(outcomes).no_duplicates(),
    decreases outcomes.len(),
{
    reveal(Seq::filter);
    if outcomes.len() > 0 {
        lemma_appended(outcomes.drop_last());
        let before = touched_in(outcomes.drop_last());
        match outcomes.last() {
            AppendOutcome::Appended { listing: Some(id) } => {
                if !before.contains(id@) {
                    let all = before.push(id@);
                    assert forall|i: int, j: int| 0 <= i < j < all.len() implies all[i] != all[j] by {
                        assert(before.contains(before[i]));
                    }
                }
            },
            _ => {},
        }
    }
}

proof fn lemma_touched(outcomes: Seq<AppendOutcome>, id: Seq<u8>)
    ensures
        touched_in(outcomes).contains(id) <==> exists|i: int|
            0 <= i < outcomes.len() && ((#[trigger] outcomes[i]) matches AppendOutcome::Appended {
                listing: Some(x),
            } && x@ == id),
    decreases outcomes.len(),
{
    if outcomes.len() > 0 {
        let front = outcomes.drop_last();
        lemma_touched(front, id);
        let before = touched_in(front);
        let after = touched_in(outcomes);
        assert(outcomes[outcomes.len() - 1] == outcomes.last());
        assert forall|y: Seq<u8>| before.contains(y) implies after.contains(y) by {
            let k = choose|k: int| 0 <= k < before.len() && before[k] == y;
            assert(after[k] == y);
        }
        if exists|i: int|
            0 <= i < outcomes.len() && ((#[trigger] outcomes[i]) matches AppendOutcome::Appended {
                listing: Some(x),
            } && x@ == id) {
            let i = choose|i: int|
                0 <= i < outcomes.len() && ((#[trigger] outcomes[i]) matches
                    AppendOutcome::Appended { listing: Some(x) } && x@ == id);
            if i < front.len() {
                assert(front[i] == outcomes[i]);
                assert(before.contains(id));
            } else if !before.contains(id) {
                assert(after[after.len() - 1] == id);
            }
        }
        if after.contains(id) {
            let k = choose|k: int| 0 <= k < after.len() && after[k] == id;
            if k < before.len() {
                assert(before[k] == id);
                let i = choose|i: int|
                    0 <= i < front.len() && ((#[trigger] front[i]) matches
                        AppendOutcome::Appended { listing: Some(x) } && x@ == id);
                assert(outcomes[i] == front[i]);
            }
        }
    }
}

/// What a station pulls from a peer ends up on its log: every entry of the peer's log whose
/// signature is valid is held once the pull was applied, and what was held before stays.
pub proof fn law_a_pull_replicates_the_log<C>(
    tail: u64,
    range: (u64, u64),
    read: &Vec<Option<StoredEntry>>,
    r: Vec<WireEntry>,
    offered: Vec<StoredPayload>,
    log: Seq<Payload>,
    content: spec_fn(Payload) -> C,
    valid: spec_fn(Payload) -> bool,
)
    requires
        call_ensures(pull_range, (tail,), Some(range)),
        call_ensures(log_range, (read, range.0, range.1), r),
        call_ensures(well_formed_entries, (&r,), offered),
        forall|i: int|
            0 <= i < read@.len() ==> ((#[trigger] read@[i]) matches Some(e) && 1 <= e.seq <= tail),
    ensures
        ({
            let after = grown(log, offered@.map_values(|p: StoredPayload| p@), content, valid);
            &&& log.is_prefix_of(after)
            &&& forall|i: int|
                0 <= i < read@.len() && valid((#[trigger] read@[i])->0.payload@) ==> exists|j: int|
                    0 <= j < after.len() && #[trigger] content(after[j]) == content(
                        read@[i]->0.payload@,
                    )
        }),
{
    law_a_pull_brings_the_whole_log(tail, range, read, r, offered);
    let all = offered@.map_values(|p: StoredPayload| p@);
    lemma_growth_keeps(log, all, content, valid);
    let after = grown(log, all, content, valid);
    assert forall|i: int|
        0 <= i < read@.len() && valid((#[trigger] read@[i])->0.payload@) implies exists|j: int|
        0 <= j < after.len() && #[trigger] content(after[j]) == content(read@[i]->0.payload@) by {
        assert(r@[i]@ == read@[i]->0.payload@);
        assert(all[i] == offered@[i]@);
        assert(held(after, content, all[i]));
    }
}

/// An entry crosses the wire field by field: the signed bytes, the key and the signature of
/// what was stored are what is sent, and what arrives with a key of thirty-two bytes and a
/// signature of sixty-four is stored as it was sent; anything else is not.
pub proof fn law_an_entry_crosses_field_by_field(
    p: &StoredPayload,
    w: WireEntry,
    received: WireEntry,
    back: Option<StoredPayload>,
)
    requires
        call_ensures(WireEntry::from_stored, (p,), w),
        call_ensures(WireEntry::to_stored, (&received,), back),
    ensures
        w.bytes@ == p.bytes@,
        w.signer@ == p.signer.bytes@,
        w.signature@ == p.signature@,
        back is Some <==> received.signer@.len() == 32 && received.signature@.len() == 64,
        back matches Some(q) ==> q.bytes@ == received.bytes@ && q.signer.bytes@ == received.signer@
            && q.signature@ == received.signature@,
{
    assert(w@.bytes == p@.bytes && w@.signer == p@.signer && w@.signature == p@.signature);
    if back is Some {
        let q = back->0;
        assert(q@.bytes == received@.bytes && q@.signer == received@.signer && q@.signature
            == received@.signature);
    }
}

} // verus!
