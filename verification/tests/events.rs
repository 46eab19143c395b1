use rrn_station::events::{
    collect_events, events_since, Event, EventBatch, EventKind, SnapshotTx, TransactionRow,
};
use rrn_station::log::{
    CancelReason, CancellationRecord, ConfirmationRecord, LogEntry, LogRecord, ProposalRecord,
    SettlementRecord, VouchRecord,
};
use rrn_station::tables::Id;

/// Take everything appended.
const ALL: u64 = u64::MAX;

const ALICE: &str = "rrn1alice";
const BOB: &str = "rrn1bob";
const CAROL: &str = "rrn1carol";
const STATION: &str = "rrn1station";

fn tx(n: u8) -> Id {
    Id { bytes: [n; 32] }
}

/// A log that is written one record at a time, and the ledger's view of it.
struct Log {
    entries: Vec<Option<LogEntry>>,
    txs: Vec<(Id, &'static str)>,
}

impl Log {
    fn new() -> Self {
        Log { entries: Vec::new(), txs: Vec::new() }
    }

    fn append(&mut self, signer: &str, record: LogRecord) {
        let seq = self.entries.len() as u64 + 1;
        self.entries.push(Some(LogEntry {
            seq,
            created_at: 1_000 + seq as i64,
            signer: signer.into(),
            hash_hex: format!("hash{seq}"),
            bytes: vec![seq as u8],
            record,
        }));
    }

    fn propose(&mut self, n: u8) -> Id {
        self.append(
            ALICE,
            LogRecord::Proposal(ProposalRecord {
                id: tx(n),
                sender: ALICE.into(),
                receiver: BOB.into(),
                amount_centi: 500,
            }),
        );
        self.txs.push((tx(n), "proposed"));
        tx(n)
    }

    fn reach(&mut self, id: Id, state: &'static str) {
        for t in self.txs.iter_mut() {
            if t.0 == id {
                t.1 = state;
            }
        }
    }

    fn confirm(&mut self, id: Id) {
        self.append(
            BOB,
            LogRecord::Confirmation(ConfirmationRecord { proposal_id: id, confirmer: BOB.into() }),
        );
        self.reach(id, "confirmed");
    }

    fn settle(&mut self, id: Id) {
        self.append(
            STATION,
            LogRecord::Settlement(SettlementRecord {
                proposal_id: id,
                sender: ALICE.into(),
                receiver: BOB.into(),
                amount_centi: 500,
            }),
        );
        self.reach(id, "settled");
    }

    fn cancel(&mut self, id: Id, reason: CancelReason) {
        self.append(
            STATION,
            LogRecord::Cancellation(CancellationRecord { proposal_id: id, reason }),
        );
        self.reach(id, "cancelled");
    }

    fn vouch(&mut self, statement: &str, stake_centi: u64) {
        self.append(
            ALICE,
            LogRecord::Vouch(VouchRecord {
                subject: BOB.into(),
                community: "rrn-phase0".into(),
                statement: statement.into(),
                stake_centi,
                issued_at: 900,
            }),
        );
    }

    fn snapshot(&self, member: &str) -> Option<Vec<SnapshotTx>> {
        Some(
            self.txs
                .iter()
                .map(|(id, state)| SnapshotTx {
                    id: *id,
                    parties: Some((ALICE.into(), BOB.into())),
                    row: if member == ALICE || member == BOB {
                        Some(TransactionRow {
                            tx_id: "tx".into(),
                            direction: if member == BOB { "in".into() } else { "out".into() },
                            counterparty: if member == BOB { ALICE.into() } else { BOB.into() },
                            amount_centi: 500,
                            state: (*state).into(),
                        })
                    } else {
                        None
                    },
                })
                .collect(),
        )
    }

    fn since(&self, member: &str, after_seq: u64, tail: u64) -> Vec<Event> {
        let behind: Vec<_> = self.entries.iter().skip(after_seq as usize).cloned().collect();
        events_since(&behind, &self.snapshot(member), &member.to_string(), after_seq, tail)
    }
}

fn kinds(events: &[Event]) -> Vec<EventKind> {
    events.iter().map(|e| e.kind).collect()
}

fn ids(events: &[Event]) -> Vec<u64> {
    events.iter().map(|e| e.id).collect()
}

#[test]
fn proposal_notifies_the_receiver_not_the_sender() {
    let mut log = Log::new();
    log.propose(1);

    let to_bob = log.since(BOB, 0, ALL);
    assert_eq!(kinds(&to_bob), vec![EventKind::ProposalReceived]);
    assert_eq!(to_bob[0].transaction.as_ref().unwrap().direction, "in");
    assert_eq!(to_bob[0].id, 1);

    // The sender is never told about their own proposal.
    assert!(log.since(ALICE, 0, ALL).is_empty());
}

#[test]
fn confirmation_notifies_the_original_sender_not_the_confirmer() {
    let mut log = Log::new();
    let id = log.propose(1);
    log.confirm(id);

    let to_alice = log.since(ALICE, 0, ALL);
    assert_eq!(kinds(&to_alice), vec![EventKind::ConfirmationReceived]);
    assert_eq!(to_alice[0].transaction.as_ref().unwrap().state, "confirmed");
    assert_eq!(to_alice[0].id, 2);

    // Bob (the confirmer/receiver) only ever saw the proposal, not his own confirmation.
    assert_eq!(kinds(&log.since(BOB, 0, ALL)), vec![EventKind::ProposalReceived]);
}

#[test]
fn settlement_notifies_both_parties() {
    let mut log = Log::new();
    let id = log.propose(1);
    log.confirm(id);
    log.settle(id);

    assert!(kinds(&log.since(ALICE, 0, ALL)).contains(&EventKind::Settlement));
    assert!(kinds(&log.since(BOB, 0, ALL)).contains(&EventKind::Settlement));
}

#[test]
fn rejection_notifies_the_sender_not_the_rejecting_receiver() {
    let mut log = Log::new();
    let id = log.propose(1);
    log.cancel(id, CancelReason::RejectedByReceiver);

    let to_alice = log.since(ALICE, 0, ALL);
    assert_eq!(kinds(&to_alice), vec![EventKind::Cancellation]);
    assert_eq!(to_alice[0].transaction.as_ref().unwrap().state, "cancelled");

    // Bob rejected it, so he is not notified of the cancellation.
    assert!(!kinds(&log.since(BOB, 0, ALL)).contains(&EventKind::Cancellation));
}

#[test]
fn a_withdrawal_notifies_the_receiver_not_the_sender() {
    let mut log = Log::new();
    let id = log.propose(1);
    log.cancel(id, CancelReason::WithdrawnBySender);
    assert!(kinds(&log.since(BOB, 0, ALL)).contains(&EventKind::Cancellation));
    assert!(log.since(ALICE, 0, ALL).is_empty());
}

#[test]
fn expiry_notifies_both_parties() {
    let mut log = Log::new();
    let id = log.propose(1);
    log.cancel(id, CancelReason::Expired);

    assert!(kinds(&log.since(ALICE, 0, ALL)).contains(&EventKind::Cancellation));
    assert!(kinds(&log.since(BOB, 0, ALL)).contains(&EventKind::Cancellation));
}

#[test]
fn the_cursor_excludes_already_seen_events() {
    let mut log = Log::new();
    let id = log.propose(1); // seq 1
    log.confirm(id); // seq 2
    log.settle(id); // seq 3

    // From the start, Bob sees the proposal (1) and the settlement (3).
    assert_eq!(ids(&log.since(BOB, 0, ALL)), vec![1, 3]);

    // With the cursor past seq 1, only the settlement remains.
    assert_eq!(ids(&log.since(BOB, 1, ALL)), vec![3]);
}

#[test]
fn the_tail_bound_excludes_newer_events() {
    let mut log = Log::new();
    log.propose(1); // seq 1
    log.propose(2); // seq 2

    // Observing tail = 1 must not leak the seq-2 proposal.
    assert_eq!(ids(&log.since(BOB, 0, 1)), vec![1]);
}

#[test]
fn a_vouch_notifies_the_subject_not_the_voucher() {
    let mut log = Log::new();
    log.vouch("I know Bob in person", 150);
    let expected_id = "hash1";

    let to_bob = log.since(BOB, 0, ALL);
    assert_eq!(kinds(&to_bob), vec![EventKind::VouchReceived]);
    assert!(to_bob[0].transaction.is_none());
    let row = to_bob[0].vouch.as_ref().unwrap();
    assert_eq!(row.vouch_id, expected_id);
    assert_eq!(row.voucher_address, ALICE);
    assert_eq!(row.community, "rrn-phase0");
    assert_eq!(row.statement, "I know Bob in person");
    assert_eq!(row.stake_centi, 150);

    // The voucher already knows they vouched; they are not notified.
    assert!(log.since(ALICE, 0, ALL).is_empty());
}

#[test]
fn a_vouch_for_someone_else_is_not_delivered() {
    let mut log = Log::new();
    log.vouch("", 0);

    assert!(log.since(CAROL, 0, ALL).is_empty());
}

#[test]
fn a_stranger_gets_nothing() {
    let mut log = Log::new();
    let id = log.propose(1);
    log.confirm(id);
    log.settle(id);

    assert!(log.since(CAROL, 0, ALL).is_empty());
}

#[test]
fn an_unreadable_entry_ends_the_scan() {
    let mut log = Log::new();
    log.propose(1);
    log.entries.push(None);
    log.propose(2);
    assert_eq!(ids(&log.since(BOB, 0, ALL)), vec![1]);
    // Up to the cursor nothing is read.
    assert!(log.since(BOB, 1, ALL).is_empty());
    assert_eq!(ids(&log.since(BOB, 2, ALL)), vec![3]);
}

#[test]
fn without_a_snapshot_there_are_no_events() {
    let mut log = Log::new();
    log.propose(1);
    log.vouch("", 0);
    assert_eq!(events_since(&log.entries, &None, &BOB.to_string(), 0, ALL), vec![]);
}

#[test]
fn a_split_at_any_cursor_loses_nothing() {
    let mut log = Log::new();
    let a = log.propose(1);
    log.confirm(a);
    log.vouch("", 0);
    log.settle(a);
    let whole = log.since(BOB, 0, 4);
    for cut in 0..=4 {
        let mut both = log.since(BOB, 0, cut);
        both.extend(log.since(BOB, cut, 4));
        assert_eq!(both, whole);
    }
}

#[test]
fn nothing_new_is_held_back_unless_forced() {
    assert_eq!(collect_events(vec![], 9, false), None);
    assert_eq!(
        collect_events(vec![], 9, true),
        Some(EventBatch { last_seen_event_id: 9, events: vec![] })
    );
    let mut log = Log::new();
    log.propose(1);
    let events = log.since(BOB, 0, ALL);
    assert_eq!(
        collect_events(events.clone(), 1, false),
        Some(EventBatch { last_seen_event_id: 1, events })
    );
}

#[test]
fn event_kinds_have_names() {
    assert_eq!(EventKind::ProposalReceived.name(), "proposal_received");
    assert_eq!(EventKind::ConfirmationReceived.name(), "confirmation_received");
    assert_eq!(EventKind::Settlement.name(), "settlement");
    assert_eq!(EventKind::Cancellation.name(), "cancellation");
    assert_eq!(EventKind::VouchReceived.name(), "vouch_received");
}
