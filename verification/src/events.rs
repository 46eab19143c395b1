//! Deriving a member's push events from the append-only log.
//!
//! The log holds every proposal, confirmation, settlement and cancellation as a
//! numbered entry, so "events since you last looked" is "log entries behind your
//! cursor that concern you". The member holds the cursor; the station keeps no
//! state of delivery.
//!
//! A member is not told of their own action: a proposal is told to the receiver,
//! a confirmation to the original sender, a settlement to both parties, a
//! cancellation to the counterparty of whoever caused it (to both, on expiry), and
//! a vouch to its subject.

use vstd::prelude::*;

use crate::log::{
    ascending, lemma_filter_map_add, lemma_readable_add, readable, readable_len, CancelReason,
    LogEntry, LogRecord, VouchRecord,
};
use crate::tables::{Id, Key};
use crate::text::same_text;

verus! {

/// The kind of a push event.
#[derive(Debug, Clone, Copy, PartialEq, Eq, Structural)]
pub enum EventKind {
    /// A payment was proposed to this member.
    ProposalReceived,
    /// This member's proposal was confirmed.
    ConfirmationReceived,
    /// A transaction this member is party to settled.
    Settlement,
    /// A proposal this member is party to was cancelled or expired.
    Cancellation,
    /// Someone vouched for this member.
    VouchReceived,
    /// A listing matches a need; nothing gives rise to it yet.
    ListingMatch,
    /// A governance proposal opened; nothing gives rise to it yet.
    GovernanceProposal,
    /// A vote is open; nothing gives rise to it yet.
    VoteNeeded,
}

/// The wire name of an event kind.
pub open spec fn event_kind_text(k: EventKind) -> Seq<char> {
    match k {
        EventKind::ProposalReceived => "proposal_received"@,
        EventKind::ConfirmationReceived => "confirmation_received"@,
        EventKind::Settlement => "settlement"@,
        EventKind::Cancellation => "cancellation"@,
        EventKind::VouchReceived => "vouch_received"@,
        EventKind::ListingMatch => "listing_match"@,
        EventKind::GovernanceProposal => "governance_proposal"@,
        EventKind::VoteNeeded => "vote_needed"@,
    }
}

impl EventKind {
    /// The wire name.
    pub fn name(self) -> (r: &'static str)
        ensures
            r@ == event_kind_text(self),
    {
        match self {
            EventKind::ProposalReceived => "proposal_received",
            EventKind::ConfirmationReceived => "confirmation_received",
            EventKind::Settlement => "settlement",
            EventKind::Cancellation => "cancellation",
            EventKind::VouchReceived => "vouch_received",
            EventKind::ListingMatch => "listing_match",
            EventKind::GovernanceProposal => "governance_proposal",
            EventKind::VoteNeeded => "vote_needed",
        }
    }
}

/// A transaction from one member's vantage point.
#[derive(Debug, Clone, PartialEq, Eq)]
pub struct TransactionRow {
    /// The transaction's id, in hex.
    pub tx_id: String,
    /// Whether the member is paid or pays.
    pub direction: String,
    /// The other party.
    pub counterparty: String,
    /// How much, in hundredths.
    pub amount_centi: i64,
    /// Where the transaction stands.
    pub state: String,
}

/// The display payload of a vouch: who vouched, in which community, with what
/// statement and stake.
#[derive(Debug, Clone, PartialEq, Eq)]
pub struct VouchRow {
    /// Content address: hex of the hash of the signed canonical bytes.
    pub vouch_id: String,
    /// The voucher's address (the log entry's signer).
    pub voucher_address: String,
    /// The community the vouch was stamped into.
    pub community: String,
    /// The voucher's free-text statement about the subject.
    pub statement: String,
    /// Reputation staked, in hundredths of a point.
    pub stake_centi: u64,
    /// Unix seconds when the vouch was issued.
    pub issued_at: i64,
}

/// One push event: its id (the log's sequence number), its kind, and its payload, a
/// transaction row for the ledger kinds and a vouch row for a vouch.
#[derive(Debug, Clone, PartialEq, Eq)]
pub struct Event {
    /// The event id, the log entry's sequence number.
    pub id: u64,
    /// What happened.
    pub kind: EventKind,
    /// The transaction, from the member's vantage point.
    pub transaction: Option<TransactionRow>,
    /// The vouch.
    pub vouch: Option<VouchRow>,
}

/// A transaction as the ledger's snapshot has it: its parties, where it has a
/// proposal, and its row from the member's vantage point, where it has one.
#[derive(Debug, Clone, PartialEq, Eq)]
pub struct SnapshotTx {
    /// The transaction.
    pub id: Id,
    /// The sender and the receiver.
    pub parties: Option<(String, String)>,
    /// The transaction as the member sees it.
    pub row: Option<TransactionRow>,
}

/// The transaction with an id, if the snapshot has it.
pub open spec fn tx_of(snapshot: Seq<SnapshotTx>, id: Seq<u8>) -> Option<SnapshotTx>
    decreases snapshot.len(),
{
    if snapshot.len() == 0 {
        None
    } else if snapshot[0].id@ == id {
        Some(snapshot[0])
    } else {
        tx_of(snapshot.skip(1), id)
    }
}

/// The sender and the receiver of a transaction.
pub open spec fn parties_of(snapshot: Seq<SnapshotTx>, id: Seq<u8>) -> Option<
    (Seq<char>, Seq<char>),
> {
    match tx_of(snapshot, id) {
        Some(t) => match t.parties {
            Some(p) => Some((p.0@, p.1@)),
            None => None,
        },
        None => None,
    }
}

/// The ledger event that a record is for a member, with its transaction.
pub open spec fn classified(
    record: LogRecord,
    member: Seq<char>,
    snapshot: Seq<SnapshotTx>,
) -> Option<(EventKind, Id)> {
    match record {
        LogRecord::Proposal(p) => if member == p.receiver@ {
            Some((EventKind::ProposalReceived, p.id))
        } else {
            None
        },
        LogRecord::Confirmation(c) => match parties_of(snapshot, c.proposal_id@) {
            Some(p) => if member == p.0 {
                Some((EventKind::ConfirmationReceived, c.proposal_id))
            } else {
                None
            },
            None => None,
        },
        LogRecord::Settlement(s) => if member == s.sender@ || member == s.receiver@ {
            Some((EventKind::Settlement, s.proposal_id))
        } else {
            None
        },
        LogRecord::Cancellation(c) => match parties_of(snapshot, c.proposal_id@) {
            Some(p) => if match c.reason {
                CancelReason::WithdrawnBySender => member == p.1,
                CancelReason::RejectedByReceiver => member == p.0,
                CancelReason::Expired => member == p.0 || member == p.1,
            } {
                Some((EventKind::Cancellation, c.proposal_id))
            } else {
                None
            },
            None => None,
        },
        _ => None,
    }
}

/// The row of a vouch.
pub open spec fn vouch_row(e: LogEntry, v: VouchRecord) -> VouchRow {
    VouchRow {
        vouch_id: e.hash_hex,
        voucher_address: e.signer,
        community: v.community,
        statement: v.statement,
        stake_centi: v.stake_centi,
        issued_at: v.issued_at,
    }
}

/// The event that an entry is for a member.
pub open spec fn event_of(
    e: LogEntry,
    member: Seq<char>,
    snapshot: Seq<SnapshotTx>,
) -> Option<Event> {
    match classified(e.record, member, snapshot) {
        Some(c) => match tx_of(snapshot, c.1@) {
            Some(t) => match t.row {
                Some(row) => Some(
                    Event { id: e.seq, kind: c.0, transaction: Some(row), vouch: None },
                ),
                None => None,
            },
            None => None,
        },
        None => match e.record {
            LogRecord::Vouch(v) => if member == v.subject@ {
                Some(
                    Event {
                        id: e.seq,
                        kind: EventKind::VouchReceived,
                        transaction: None,
                        vouch: Some(vouch_row(e, v)),
                    },
                )
            } else {
                None
            },
            _ => None,
        },
    }
}

/// The events for a member among the entries after `after_seq`, through `tail`.
pub open spec fn events_in(
    entries: Seq<LogEntry>,
    member: Seq<char>,
    snapshot: Seq<SnapshotTx>,
    after_seq: u64,
    tail: u64,
) -> Seq<Event> {
    entries.filter_map(
        |e: LogEntry|
            if after_seq < e.seq <= tail {
                event_of(e, member, snapshot)
            } else {
                None
            },
    )
}

fn copy_row(r: &TransactionRow) -> (c: TransactionRow)
    ensures
        c == *r,
{
    TransactionRow {
        tx_id: r.tx_id.clone(),
        direction: r.direction.clone(),
        counterparty: r.counterparty.clone(),
        amount_centi: r.amount_centi,
        state: r.state.clone(),
    }
}

fn find_tx<'a>(snapshot: &'a Vec<SnapshotTx>, id: &Id) -> (r: Option<&'a SnapshotTx>)
    ensures
        match r {
            Some(t) => tx_of(snapshot@, id@) == Some(*t),
            None => tx_of(snapshot@, id@) is None,
        },
{
    let mut i: usize = 0;
    assert(snapshot@.skip(0) =~= snapshot@);
    while i < snapshot.len()
        invariant
            i <= snapshot.len(),
            tx_of(snapshot@, id@) == tx_of(snapshot@.skip(i as int), id@),
        decreases snapshot.len() - i,
    {
        assert(snapshot@.skip(i as int).skip(1) =~= snapshot@.skip(i as int + 1));
        if snapshot[i].id.same(id) {
            return Some(&snapshot[i]);
        }
        i = i + 1;
    }
    None
}

/// The sender and the receiver of a transaction, if the snapshot has them.
pub fn parties<'a>(snapshot: &'a Vec<SnapshotTx>, id: &Id) -> (r: Option<(&'a String, &'a String)>)
    ensures
        match r {
            Some(p) => parties_of(snapshot@, id@) == Some((p.0@, p.1@)),
            None => parties_of(snapshot@, id@) is None,
        },
{
    match find_tx(snapshot, id) {
        Some(t) => match &t.parties {
            Some(p) => Some((&p.0, &p.1)),
            None => None,
        },
        None => None,
    }
}

/// Classifies a record into a kind and a transaction if it is a ledger event that
/// `member` should receive.
pub fn classify(record: &LogRecord, member: &String, snapshot: &Vec<SnapshotTx>) -> (r: Option<
    (EventKind, Id),
>)
    ensures
        r == classified(*record, member@, snapshot@),
{
    match record {
        LogRecord::Proposal(p) => if same_text(member.as_str(), p.receiver.as_str()) {
            Some((EventKind::ProposalReceived, p.id))
        } else {
            None
        },
        LogRecord::Confirmation(c) => match parties(snapshot, &c.proposal_id) {
            Some((sender, _)) => if same_text(member.as_str(), sender.as_str()) {
                Some((EventKind::ConfirmationReceived, c.proposal_id))
            } else {
                None
            },
            None => None,
        },
        LogRecord::Settlement(s) => if same_text(member.as_str(), s.sender.as_str()) || same_text(
            member.as_str(),
            s.receiver.as_str(),
        ) {
            Some((EventKind::Settlement, s.proposal_id))
        } else {
            None
        },
        LogRecord::Cancellation(c) => match parties(snapshot, &c.proposal_id) {
            Some((sender, receiver)) => {
                let is_sender = same_text(member.as_str(), sender.as_str());
                let is_receiver = same_text(member.as_str(), receiver.as_str());
                let targets_member = match c.reason {
                    CancelReason::WithdrawnBySender => is_receiver,
                    CancelReason::RejectedByReceiver => is_sender,
                    CancelReason::Expired => is_sender || is_receiver,
                };
                if targets_member {
                    Some((EventKind::Cancellation, c.proposal_id))
                } else {
                    None
                }
            },
            None => None,
        },
        _ => None,
    }
}

/// The row of an entry that is a vouch whose subject is `member`. The voucher is the
/// entry's signer.
pub fn classify_vouch(e: &LogEntry, member: &String) -> (r: Option<VouchRow>)
    ensures
        r == match e.record {
            LogRecord::Vouch(v) => if member@ == v.subject@ {
                Some(vouch_row(*e, v))
            } else {
                None
            },
            _ => None,
        },
{
    match &e.record {
        LogRecord::Vouch(v) => if same_text(member.as_str(), v.subject.as_str()) {
            Some(
                VouchRow {
                    vouch_id: e.hash_hex.clone(),
                    voucher_address: e.signer.clone(),
                    community: v.community.clone(),
                    statement: v.statement.clone(),
                    stake_centi: v.stake_centi,
                    issued_at: v.issued_at,
                },
            )
        } else {
            None
        },
        _ => None,
    }
}

fn event_for(e: &LogEntry, member: &String, snapshot: &Vec<SnapshotTx>) -> (r: Option<Event>)
    ensures
        r == event_of(*e, member@, snapshot@),
{
    match classify(&e.record, member, snapshot) {
        Some((kind, id)) => match find_tx(snapshot, &id) {
            Some(t) => match &t.row {
                Some(row) => Some(
                    Event { id: e.seq, kind, transaction: Some(copy_row(row)), vouch: None },
                ),
                None => None,
            },
            None => None,
        },
        None => match classify_vouch(e, member) {
            Some(row) => Some(
                Event {
                    id: e.seq,
                    kind: EventKind::VouchReceived,
                    transaction: None,
                    vouch: Some(row),
                },
            ),
            None => None,
        },
    }
}

/// The events after `after_seq` (exclusive) through `tail` (inclusive) that are
/// relevant to `member`, oldest first. `read` is what reading the log behind the cursor,
/// from `after_seq + 1` on, gave, entry by entry, with nothing for one that could not be
/// read: the reading stops there. What stands up to the cursor is not read, so it cannot
/// stop the reading. Without a snapshot of the ledger there are no events.
pub fn events_since(
    read: &Vec<Option<LogEntry>>,
    snapshot: &Option<Vec<SnapshotTx>>,
    member: &String,
    after_seq: u64,
    tail: u64,
) -> (r: Vec<Event>)
    ensures
        r@ == match snapshot {
            Some(s) => events_in(readable(read@), member@, s@, after_seq, tail),
            None => Seq::<Event>::empty(),
        },
{
    let mut out: Vec<Event> = Vec::new();
    match snapshot {
        Some(s) => {
            let n: usize = readable_len(read);
            let ghost entries = readable(read@);
            let ghost f = |e: LogEntry|
                if after_seq < e.seq <= tail {
                    event_of(e, member@, s@)
                } else {
                    None
                };
            let mut i: usize = 0;
            assert(entries.take(0).filter_map(f) =~= Seq::<Event>::empty());
            while i < n
                invariant
                    i <= n <= read@.len(),
                    n == entries.len(),
                    forall|j: int| 0 <= j < n ==> #[trigger] read@[j] == Some(entries[j]),
                    f == (|e: LogEntry|
                        if after_seq < e.seq <= tail {
                            event_of(e, member@, s@)
                        } else {
                            None
                        }),
                    out@ == entries.take(i as int).filter_map(f),
                decreases n - i,
            {
                proof {
                    entries.lemma_filter_map_take_succ(f, i as int);
                    assert(read@[i as int] == Some(entries[i as int]));
                }
                match &read[i] {
                    Some(e) => {
                        if after_seq < e.seq && e.seq <= tail {
                            match event_for(e, member, s) {
                                Some(event) => {
                                    out.push(event);
                                },
                                None => {},
                            }
                        }
                    },
                    None => {},
                }
                i = i + 1;
                assert(out@ =~= entries.take(i as int).filter_map(f));
            }
            assert(entries.take(n as int) =~= entries);
        },
        None => {},
    }
    out
}

/// Whether a member has a part in a record.
pub open spec fn concerns(record: LogRecord, member: Seq<char>, snapshot: Seq<SnapshotTx>) -> bool {
    match record {
        LogRecord::Proposal(p) => member == p.sender@ || member == p.receiver@,
        LogRecord::Confirmation(c) => parties_of(snapshot, c.proposal_id@) matches Some(p) && (
        member == p.0 || member == p.1),
        LogRecord::Settlement(s) => member == s.sender@ || member == s.receiver@,
        LogRecord::Cancellation(c) => parties_of(snapshot, c.proposal_id@) matches Some(p) && (
        member == p.0 || member == p.1),
        LogRecord::Vouch(v) => member == v.subject@,
        _ => false,
    }
}

/// A stranger gets nothing.
pub proof fn law_strangers_get_nothing(e: LogEntry, member: Seq<char>, snapshot: Seq<SnapshotTx>)
    requires
        !concerns(e.record, member, snapshot),
    ensures
        event_of(e, member, snapshot) is None,
{
}

/// No one is told of their own action: not the sender of a proposal, the receiver
/// who confirmed or rejected, or the sender who withdrew. The two parties are
/// different members.
pub proof fn law_no_one_is_told_of_their_own_action(
    e: LogEntry,
    member: Seq<char>,
    snapshot: Seq<SnapshotTx>,
)
    requires
        match e.record {
            LogRecord::Proposal(p) => member == p.sender@ && p.sender@ != p.receiver@,
            LogRecord::Confirmation(c) => parties_of(snapshot, c.proposal_id@) matches Some(p)
                ==> member == p.1 && p.0 != p.1,
            LogRecord::Cancellation(c) => parties_of(snapshot, c.proposal_id@) matches Some(p)
                ==> p.0 != p.1 && match c.reason {
                CancelReason::WithdrawnBySender => member == p.0,
                CancelReason::RejectedByReceiver => member == p.1,
                CancelReason::Expired => false,
            },
            LogRecord::Vouch(v) => member == e.signer@ && e.signer@ != v.subject@,
            _ => false,
        },
    ensures
        event_of(e, member, snapshot) is None,
{
}

/// An event carries exactly one payload: a transaction, or a vouch where someone
/// vouched.
pub proof fn law_one_payload(e: LogEntry, member: Seq<char>, snapshot: Seq<SnapshotTx>)
    ensures
        event_of(e, member, snapshot) matches Some(v) ==> {
            &&& v.id == e.seq
            &&& v.transaction is Some <==> v.vouch is None
            &&& v.vouch is Some <==> v.kind == EventKind::VouchReceived
        },
{
}

/// The ids of the events lie behind the cursor and not past the tail, and ascend as
/// the log does. The entries are what could be read of the log behind the cursor.
pub proof fn law_event_ids_ascend(
    entries: Seq<LogEntry>,
    member: Seq<char>,
    snapshot: Seq<SnapshotTx>,
    after_seq: u64,
    tail: u64,
)
    requires
        ascending(entries),
    ensures
        ({
            let r = events_in(entries, member, snapshot, after_seq, tail);
            &&& forall|i: int| 0 <= i < r.len() ==> after_seq < (#[trigger] r[i]).id <= tail
            &&& forall|i: int, j: int| 0 <= i < j < r.len() ==> r[i].id < r[j].id
        }),
    decreases entries.len(),
{
    let r = events_in(entries, member, snapshot, after_seq, tail);
    if entries.len() > 0 {
        let before = entries.drop_last();
        law_event_ids_ascend(before, member, snapshot, after_seq, tail);
        lemma_event_ids_bounded(before, member, snapshot, after_seq, tail, entries.last().seq);
    }
}

proof fn lemma_event_ids_bounded(
    entries: Seq<LogEntry>,
    member: Seq<char>,
    snapshot: Seq<SnapshotTx>,
    after_seq: u64,
    tail: u64,
    bound: u64,
)
    requires
        forall|i: int| 0 <= i < entries.len() ==> (#[trigger] entries[i]).seq < bound,
    ensures
        ({
            let r = events_in(entries, member, snapshot, after_seq, tail);
            forall|i: int| 0 <= i < r.len() ==> (#[trigger] r[i]).id < bound
        }),
    decreases entries.len(),
{
    if entries.len() > 0 {
        let before = entries.drop_last();
        assert forall|i: int| 0 <= i < before.len() implies (#[trigger] before[i]).seq < bound by {
            assert(before[i] == entries[i]);
        }
        assert(entries[entries.len() - 1].seq < bound);
        lemma_event_ids_bounded(before, member, snapshot, after_seq, tail, bound);
    }
}

/// A cursor loses nothing and repeats nothing: what a member is told up to a cursor
/// and what they are told from it on is what they would be told at once. `read` is what
/// reading the log behind `after_seq` gave; reading it behind the cursor begins `k`
/// entries later. What stands up to the cursor could be read.
pub proof fn law_cursor_splits_the_events(
    read: Seq<Option<LogEntry>>,
    k: int,
    member: Seq<char>,
    snapshot: Seq<SnapshotTx>,
    after_seq: u64,
    cursor: u64,
    tail: u64,
)
    requires
        ascending(readable(read)),
        after_seq <= cursor <= tail,
        0 <= k <= read.len(),
        forall|i: int| 0 <= i < k ==> ((#[trigger] read[i]) matches Some(e) && e.seq <= cursor),
        forall|i: int|
            k <= i < read.len() ==> ((#[trigger] read[i]) matches Some(e) ==> cursor < e.seq),
    ensures
        events_in(readable(read), member, snapshot, after_seq, cursor) + events_in(
            readable(read.skip(k)),
            member,
            snapshot,
            cursor,
            tail,
        ) == events_in(readable(read), member, snapshot, after_seq, tail),
{
    let all = readable(read);
    lemma_readable_splits(read, k);
    lemma_cursor_splits(all, member, snapshot, after_seq, cursor, tail);
    assert forall|i: int| 0 <= i < k implies (#[trigger] all[i]).seq <= cursor by {
        assert(read[i] == Some(all[i]));
    }
    lemma_reading_behind(all, k, member, snapshot, cursor, tail);
    assert(all.skip(k) == readable(read.skip(k)));
}

/// Reading behind a cursor, where everything up to it could be read, gives the rest of
/// what reading all gives.
proof fn lemma_readable_splits(read: Seq<Option<LogEntry>>, k: int)
    requires
        0 <= k <= read.len(),
        forall|i: int| 0 <= i < k ==> (#[trigger] read[i]) is Some,
    ensures
        readable(read).len() == k + readable(read.skip(k)).len(),
        readable(read).skip(k) == readable(read.skip(k)),
        forall|i: int| 0 <= i < k ==> (#[trigger] read[i]) == Some(readable(read)[i]),
    decreases k,
{
    if k == 0 {
        assert(read.skip(0) =~= read);
        assert(readable(read).skip(0) =~= readable(read));
    } else {
        let rest = read.skip(1);
        assert(read[0] is Some);
        assert forall|i: int| 0 <= i < k - 1 implies (#[trigger] rest[i]) is Some by {
            assert(rest[i] == read[i + 1]);
        }
        lemma_readable_splits(rest, k - 1);
        assert(rest.skip(k - 1) =~= read.skip(k));
        assert(readable(read).skip(k) =~= readable(rest).skip(k - 1));
        assert forall|i: int| 0 <= i < k implies (#[trigger] read[i]) == Some(
            readable(read)[i],
        ) by {
            if i > 0 {
                assert(rest[i - 1] == read[i]);
            }
        }
    }
}

/// The entries up to a cursor give no events behind it.
proof fn lemma_reading_behind(
    entries: Seq<LogEntry>,
    k: int,
    member: Seq<char>,
    snapshot: Seq<SnapshotTx>,
    cursor: u64,
    tail: u64,
)
    requires
        0 <= k <= entries.len(),
        forall|i: int| 0 <= i < k ==> (#[trigger] entries[i]).seq <= cursor,
    ensures
        events_in(entries.skip(k), member, snapshot, cursor, tail) == events_in(
            entries,
            member,
            snapshot,
            cursor,
            tail,
        ),
    decreases entries.len(),
{
    if k < entries.len() {
        lemma_reading_behind(entries.drop_last(), k, member, snapshot, cursor, tail);
        assert(entries.skip(k).drop_last() =~= entries.drop_last().skip(k));
        assert(entries.skip(k).last() == entries.last());
    } else if k > 0 {
        lemma_reading_behind(entries.drop_last(), k - 1, member, snapshot, cursor, tail);
        assert(entries.skip(k) =~= entries.drop_last().skip(k - 1));
    } else {
        assert(entries.skip(0) =~= entries);
    }
}

proof fn lemma_cursor_splits(
    entries: Seq<LogEntry>,
    member: Seq<char>,
    snapshot: Seq<SnapshotTx>,
    after_seq: u64,
    cursor: u64,
    tail: u64,
)
    requires
        ascending(entries),
        after_seq <= cursor <= tail,
    ensures
        events_in(entries, member, snapshot, after_seq, cursor) + events_in(
            entries,
            member,
            snapshot,
            cursor,
            tail,
        ) == events_in(entries, member, snapshot, after_seq, tail),
    decreases entries.len(),
{
    if entries.len() > 0 {
        let before = entries.drop_last();
        lemma_cursor_splits(before, member, snapshot, after_seq, cursor, tail);
        if entries.last().seq <= cursor {
            lemma_nothing_past(entries, member, snapshot, cursor, tail);
            assert forall|i: int| 0 <= i < before.len() implies (#[trigger] before[i]).seq
                <= cursor by {
                assert(before[i] == entries[i]);
                assert(entries[i].seq < entries[entries.len() - 1].seq);
            }
            lemma_nothing_past(before, member, snapshot, cursor, tail);
        }
        assert(events_in(entries, member, snapshot, after_seq, cursor) + events_in(
            entries,
            member,
            snapshot,
            cursor,
            tail,
        ) =~= events_in(entries, member, snapshot, after_seq, tail));
    }
}

proof fn lemma_nothing_past(
    entries: Seq<LogEntry>,
    member: Seq<char>,
    snapshot: Seq<SnapshotTx>,
    cursor: u64,
    tail: u64,
)
    requires
        ascending(entries),
        entries.len() > 0 ==> entries.last().seq <= cursor,
    ensures
        events_in(entries, member, snapshot, cursor, tail) == Seq::<Event>::empty(),
    decreases entries.len(),
{
    if entries.len() > 0 {
        let before = entries.drop_last();
        if before.len() > 0 {
            assert(before.last() == entries[entries.len() - 2]);
            assert(entries[entries.len() - 2].seq < entries[entries.len() - 1].seq);
        }
        lemma_nothing_past(before, member, snapshot, cursor, tail);
    }
}

/// What a subscriber is answered.
#[derive(Debug, Clone, PartialEq, Eq)]
pub struct EventBatch {
    /// The cursor to send next: the tail that was observed.
    pub last_seen_event_id: u64,
    /// The events.
    pub events: Vec<Event>,
}

/// The answer to a parked subscriber: the events there are, or, once the wait is
/// over (`force`), an empty batch that moves the cursor to the tail. `None` keeps
/// them waiting.
pub fn collect_events(events: Vec<Event>, tail: u64, force: bool) -> (r: Option<EventBatch>)
    ensures
        r == if events@.len() == 0 && !force {
            None
        } else {
            Some(EventBatch { last_seen_event_id: tail, events })
        },
{
    if events.len() == 0 && !force {
        None
    } else {
        Some(EventBatch { last_seen_event_id: tail, events })
    }
}

/// The lookup gives a transaction only if the snapshot has it under that id, and nothing
/// only if no transaction of the snapshot has that id.
pub proof fn law_a_lookup_finds_what_it_names(snapshot: Seq<SnapshotTx>, id: Seq<u8>)
    ensures
        match tx_of(snapshot, id) {
            Some(t) => t.id@ == id && snapshot.contains(t),
            None => forall|i: int| 0 <= i < snapshot.len() ==> (#[trigger] snapshot[i]).id@ != id,
        },
    decreases snapshot.len(),
{
    if snapshot.len() > 0 {
        let rest = snapshot.skip(1);
        law_a_lookup_finds_what_it_names(rest, id);
        if snapshot[0].id@ == id {
            assert(snapshot.contains(snapshot[0]));
        } else {
            match tx_of(rest, id) {
                Some(t) => {
                    let i = choose|i: int| 0 <= i < rest.len() && rest[i] == t;
                    assert(snapshot[i + 1] == t);
                },
                None => {
                    assert forall|i: int| 0 <= i < snapshot.len() implies (
                    #[trigger] snapshot[i]).id@ != id by {
                        if i > 0 {
                            assert(rest[i - 1] == snapshot[i]);
                        }
                    }
                },
            }
        }
    }
}

/// The parties that decide who is told of a transaction are those of the one transaction of
/// the snapshot that has its id; where none has it, there are none.
pub proof fn law_the_parties_are_the_named_transactions(
    snapshot: &Vec<SnapshotTx>,
    id: &Id,
    k: int,
    r: Option<(&String, &String)>,
)
    requires
        call_ensures(parties, (snapshot, id), r),
        forall|j: int| 0 <= j < snapshot@.len() && j != k ==> (#[trigger] snapshot@[j]).id@ != id@,
    ensures
        0 <= k < snapshot@.len() && snapshot@[k].id@ == id@ ==> match snapshot@[k].parties {
            Some(p) => r matches Some(q) && q.0@ == p.0@ && q.1@ == p.1@,
            None => r is None,
        },
        !(0 <= k < snapshot@.len() && snapshot@[k].id@ == id@) ==> r is None,
{
    law_a_lookup_finds_what_it_names(snapshot@, id@);
}

/// Who is told of a record, and with what: the receiver of a
/// proposal, the sender of one that was confirmed, both sides of a settlement, the other
/// side of a withdrawal or a rejection, both sides of an expiry. What they are shown is the
/// row of the transaction that the record names, as the snapshot has it from their side.
/// `t` is the one transaction of the snapshot with that id.
pub proof fn law_an_event_shows_the_transaction_it_names(
    read: &Vec<Option<LogEntry>>,
    e: LogEntry,
    snapshot: &Option<Vec<SnapshotTx>>,
    k: int,
    member: &String,
    after_seq: u64,
    tail: u64,
    r: Vec<Event>,
)
    requires
        snapshot is Some,
        read@ == seq![Some(e)],
        after_seq < e.seq <= tail,
        call_ensures(events_since, (read, snapshot, member, after_seq, tail), r),
        0 <= k < snapshot->0@.len(),
        ({
            let t = snapshot->0@[k];
            &&& match e.record {
                LogRecord::Proposal(p) => p.id@ == t.id@,
                LogRecord::Confirmation(c) => c.proposal_id@ == t.id@,
                LogRecord::Settlement(s) => s.proposal_id@ == t.id@,
                LogRecord::Cancellation(c) => c.proposal_id@ == t.id@,
                _ => false,
            }
            &&& forall|j: int|
                0 <= j < snapshot->0@.len() && j != k ==> (#[trigger] snapshot->0@[j]).id@ != t.id@
        }),
    ensures
        ({
            let t = snapshot->0@[k];
            let told = match e.record {
                LogRecord::Proposal(p) => member@ == p.receiver@,
                LogRecord::Confirmation(_) => t.parties matches Some(p) && member@ == p.0@,
                LogRecord::Settlement(s) => member@ == s.sender@ || member@ == s.receiver@,
                LogRecord::Cancellation(c) => t.parties matches Some(p) && {
                    ||| c.reason != CancelReason::WithdrawnBySender && member@ == p.0@
                    ||| c.reason != CancelReason::RejectedByReceiver && member@ == p.1@
                },
                _ => false,
            };
            if told && t.row is Some {
                &&& r@.len() == 1
                &&& r@[0].id == e.seq
                &&& r@[0].transaction == t.row
                &&& r@[0].vouch is None
                &&& r@[0].kind == match e.record {
                    LogRecord::Proposal(_) => EventKind::ProposalReceived,
                    LogRecord::Confirmation(_) => EventKind::ConfirmationReceived,
                    LogRecord::Settlement(_) => EventKind::Settlement,
                    _ => EventKind::Cancellation,
                }
            } else {
                r@.len() == 0
            }
        }),
{
    let s = snapshot->0@;
    let t = s[k];
    lemma_events_of_one(read@, e, member@, s, after_seq, tail);
    law_a_lookup_finds_what_it_names(s, t.id@);
    let found = tx_of(s, t.id@);
    assert(found is Some);
    let i = choose|i: int| 0 <= i < s.len() && s[i] == found->0;
    assert(i == k);
}

/// A record whose transaction the snapshot does not have gives no event, and neither does a
/// record that is about no transaction and vouches for no one.
pub proof fn law_unknown_transactions_give_no_event(
    read: &Vec<Option<LogEntry>>,
    e: LogEntry,
    snapshot: &Option<Vec<SnapshotTx>>,
    member: &String,
    after_seq: u64,
    tail: u64,
    r: Vec<Event>,
)
    requires
        snapshot is Some,
        read@ == seq![Some(e)],
        call_ensures(events_since, (read, snapshot, member, after_seq, tail), r),
        match e.record {
            LogRecord::Proposal(p) => forall|j: int|
                0 <= j < snapshot->0@.len() ==> (#[trigger] snapshot->0@[j]).id@ != p.id@,
            LogRecord::Confirmation(c) => forall|j: int|
                0 <= j < snapshot->0@.len() ==> (#[trigger] snapshot->0@[j]).id@ != c.proposal_id@,
            LogRecord::Settlement(s) => forall|j: int|
                0 <= j < snapshot->0@.len() ==> (#[trigger] snapshot->0@[j]).id@ != s.proposal_id@,
            LogRecord::Cancellation(c) => forall|j: int|
                0 <= j < snapshot->0@.len() ==> (#[trigger] snapshot->0@[j]).id@ != c.proposal_id@,
            LogRecord::Vouch(_) => false,
            _ => true,
        },
    ensures
        r@.len() == 0,
{
    let s = snapshot->0@;
    lemma_events_of_one(read@, e, member@, s, after_seq, tail);
    match e.record {
        LogRecord::Proposal(p) => law_a_lookup_finds_what_it_names(s, p.id@),
        LogRecord::Confirmation(c) => law_a_lookup_finds_what_it_names(s, c.proposal_id@),
        LogRecord::Settlement(x) => law_a_lookup_finds_what_it_names(s, x.proposal_id@),
        LogRecord::Cancellation(c) => law_a_lookup_finds_what_it_names(s, c.proposal_id@),
        _ => {},
    }
}

/// A vouch is told to its subject alone, and shows who signed it, where, and what it says
/// and stakes.
pub proof fn law_a_vouch_is_told_to_its_subject(
    read: &Vec<Option<LogEntry>>,
    e: LogEntry,
    v: VouchRecord,
    snapshot: &Option<Vec<SnapshotTx>>,
    member: &String,
    after_seq: u64,
    tail: u64,
    r: Vec<Event>,
)
    requires
        snapshot is Some,
        read@ == seq![Some(e)],
        e.record == LogRecord::Vouch(v),
        after_seq < e.seq <= tail,
        call_ensures(events_since, (read, snapshot, member, after_seq, tail), r),
    ensures
        member@ != v.subject@ ==> r@.len() == 0,
        member@ == v.subject@ ==> {
            &&& r@.len() == 1
            &&& r@[0].id == e.seq
            &&& r@[0].kind == EventKind::VouchReceived
            &&& r@[0].transaction is None
            &&& r@[0].vouch matches Some(row) && {
                &&& row.vouch_id@ == e.hash_hex@
                &&& row.voucher_address@ == e.signer@
                &&& row.community@ == v.community@
                &&& row.statement@ == v.statement@
                &&& row.stake_centi == v.stake_centi
                &&& row.issued_at == v.issued_at
            }
        },
{
    lemma_events_of_one(read@, e, member@, snapshot->0@, after_seq, tail);
}

/// The events of a log are those of its entries, one after another: what two readings in a
/// row give is what each gives, in a row, where the first met nothing that it could not
/// read; what stands behind an entry that could not be read gives nothing; and an entry
/// that does not lie behind the cursor, through the tail, gives nothing.
pub proof fn law_events_come_entry_by_entry(
    first: &Vec<Option<LogEntry>>,
    rest: &Vec<Option<LogEntry>>,
    both: &Vec<Option<LogEntry>>,
    snapshot: &Option<Vec<SnapshotTx>>,
    member: &String,
    after_seq: u64,
    tail: u64,
    of_first: Vec<Event>,
    of_rest: Vec<Event>,
    of_both: Vec<Event>,
)
    requires
        forall|i: int| 0 <= i < first@.len() ==> (#[trigger] first@[i]) is Some,
        both@ == first@ + rest@,
        call_ensures(events_since, (first, snapshot, member, after_seq, tail), of_first),
        call_ensures(events_since, (rest, snapshot, member, after_seq, tail), of_rest),
        call_ensures(events_since, (both, snapshot, member, after_seq, tail), of_both),
    ensures
        of_both@ == of_first@ + of_rest@,
        rest@.len() == 0 || rest@[0] is None ==> of_rest@.len() == 0,
        rest@.len() == 1 && (rest@[0] matches Some(e) && (e.seq <= after_seq || e.seq > tail))
            ==> of_rest@.len() == 0,
        snapshot is None ==> of_both@.len() == 0,
{
    if snapshot is Some {
        let s = snapshot->0@;
        let f = |e: LogEntry|
            if after_seq < e.seq <= tail {
                event_of(e, member@, s)
            } else {
                None
            };
        lemma_readable_add(first@, rest@);
        lemma_filter_map_add(readable(first@), readable(rest@), f);
        if rest@.len() == 1 && rest@[0] is Some {
            lemma_events_of_one(rest@, rest@[0]->0, member@, s, after_seq, tail);
        } else if rest@.len() == 0 || rest@[0] is None {
            assert(readable(rest@) =~= Seq::<LogEntry>::empty());
            assert(readable(rest@).filter_map(f) =~= Seq::<Event>::empty());
        }
    } else {
        assert(of_both@ =~= of_first@ + of_rest@);
    }
}

proof fn lemma_events_of_one(
    read: Seq<Option<LogEntry>>,
    e: LogEntry,
    member: Seq<char>,
    snapshot: Seq<SnapshotTx>,
    after_seq: u64,
    tail: u64,
)
    requires
        read.len() == 1,
        read[0] == Some(e),
    ensures
        events_in(readable(read), member, snapshot, after_seq, tail) == if after_seq < e.seq
            <= tail && event_of(e, member, snapshot) is Some {
            seq![event_of(e, member, snapshot)->0]
        } else {
            Seq::empty()
        },
{
    let f = |e: LogEntry|
        if after_seq < e.seq <= tail {
            event_of(e, member, snapshot)
        } else {
            None
        };
    assert(readable(read.skip(1)) =~= Seq::<LogEntry>::empty());
    assert(readable(read) =~= seq![e]);
    seq![e].lemma_filter_map_take_succ(f, 0);
    assert(seq![e].take(0) =~= Seq::<LogEntry>::empty());
    assert(seq![e].take(1) =~= seq![e]);
    assert(Seq::<LogEntry>::empty().filter_map(f) =~= Seq::<Event>::empty());
    assert(seq![e].filter_map(f) =~= if f(e) is Some {
        seq![f(e)->0]
    } else {
        Seq::empty()
    });
}

} // verus!
