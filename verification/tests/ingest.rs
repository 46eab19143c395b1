use rrn_station::ingest::{
    is_gap, map_refusal, needs_stake, presentation, refused, refused_disposition, route_kind,
    tier2_confirmation_gate, DeliveryReceipt, Disposition, Event, IngestRun, NoteOutcome, Outcome,
    Phase, Prepared, RecordKind, RefusalReason, Start, Tier2Eligibility, Todo,
};
use rrn_station::ledger_view::balance_of;
use rrn_station::log::{LogEntry, LogRecord, SettlementRecord};
use rrn_station::rpc::{BundleIngestError, LedgerError, LedgerErrorKind};
use rrn_station::sweeps::SettleSweep;
use rrn_station::tables::Id;

/// What an entry carries, as the simulated engine sees it.
#[derive(Clone, Copy, PartialEq)]
enum Carried {
    Proposal { tx: u8, tier: u8 },
    Confirmation { tx: u8 },
    Vouch,
}

#[derive(Clone)]
struct Entry {
    author: u8,
    position: u64,
    hash: u8,
    valid: bool,
    carried: Carried,
}

fn id(n: u8) -> Id {
    Id { bytes: [n; 32] }
}

/// `{"kind": <tag>, "tx": <n>}`, in canonical CBOR.
fn record(tag: &str, n: u8) -> Vec<u8> {
    let mut bytes = vec![0xa2, 0x62];
    bytes.extend_from_slice(b"tx");
    bytes.push(0x18);
    bytes.push(n);
    bytes.push(0x64);
    bytes.extend_from_slice(b"kind");
    bytes.push(0x60 + tag.len() as u8);
    bytes.extend_from_slice(tag.as_bytes());
    bytes
}

impl Entry {
    fn new(author: u8, hash: u8, carried: Carried) -> Self {
        Entry { author, position: 0, hash, valid: true, carried }
    }

    fn prepared(&self) -> Prepared {
        let bytes = match self.carried {
            Carried::Proposal { tx, .. } => record("rrn.tx.proposal", 100 + tx),
            Carried::Confirmation { tx } => record("rrn.tx.confirmation", 100 + tx),
            Carried::Vouch => record("rrn.vouch", 100 + self.hash),
        };
        Prepared {
            record_hash: id(self.hash),
            author: id(self.author),
            position: self.position,
            entry_hash: id(self.hash),
            envelope: vec![self.hash],
            record: bytes,
        }
    }
}

/// A station around the run: its log, its outbox notes, its receipts.
struct Station {
    log: Vec<(Id, Carried)>,
    notes: Vec<(Id, u64, Id, Vec<u8>)>,
    forks: Vec<(Id, Vec<u8>, Id, Vec<u8>)>,
    receipts: Vec<(Vec<u8>, DeliveryReceipt)>,
    staked_out: bool,
    fault: bool,
    submitted: usize,
}

impl Station {
    fn new() -> Self {
        Station {
            log: vec![],
            notes: vec![],
            forks: vec![],
            receipts: vec![],
            staked_out: false,
            fault: false,
            submitted: 0,
        }
    }

    fn seq_of(&self, hash: &Id) -> Option<u64> {
        self.log.iter().position(|(h, _)| h == hash).map(|i| i as u64 + 1)
    }

    fn proposed(&self, tx: u8) -> Option<u8> {
        self.log.iter().find_map(|(_, c)| match c {
            Carried::Proposal { tx: t, tier } if *t == tx => Some(*tier),
            _ => None,
        })
    }

    fn confirmed(&self, tx: u8) -> bool {
        self.log.iter().any(|(_, c)| *c == Carried::Confirmation { tx })
    }

    fn note(&mut self, p: &Prepared) -> NoteOutcome {
        let found = self.notes.iter().find(|n| n.0 == p.author && n.1 == p.position).cloned();
        match found {
            None => {
                self.notes.push((p.author, p.position, p.entry_hash, p.envelope.clone()));
                NoteOutcome::Fresh
            }
            Some(n) if n.2 == p.entry_hash => NoteOutcome::Duplicate,
            Some(n) => NoteOutcome::Fork { stored_entry_hash: n.2, stored_envelope: n.3 },
        }
    }

    fn answer(&mut self, entry: &Entry, p: &Prepared, phase: Phase) -> Event {
        match phase {
            Phase::Validating => Event::Validated(entry.valid),
            Phase::Noting => Event::Noted(self.note(p)),
            Phase::ReadingHead => Event::HeadRead(Some(p.position)),
            Phase::RecordingFork => Event::ForkRecorded,
            Phase::LookingUp | Phase::Confirming => Event::Found(self.seq_of(&p.record_hash)),
            Phase::Decoding { .. } => Event::Decoded(true),
            Phase::Gating => {
                let tier = match entry.carried {
                    Carried::Confirmation { tx } => self.proposed(tx),
                    _ => None,
                };
                let eligibility = if self.staked_out {
                    Tier2Eligibility::Refused { composite: "12.00".into(), established: 3 }
                } else {
                    Tier2Eligibility::Allowed
                };
                Event::Gated {
                    refused: tier2_confirmation_gate(tier, Some(eligibility)).is_some(),
                }
            }
            Phase::Submitting { .. } => {
                self.submitted += 1;
                if self.fault {
                    return Event::Submitted(Err(LedgerError {
                        kind: LedgerErrorKind::Storage,
                        message: "disk".into(),
                    }));
                }
                match entry.carried {
                    Carried::Confirmation { tx } if self.proposed(tx).is_none() => {
                        Event::Submitted(Err(LedgerError {
                            kind: LedgerErrorKind::UnknownTransaction,
                            message: "unknown".into(),
                        }))
                    }
                    c => {
                        self.log.push((p.record_hash, c));
                        Event::Submitted(Ok(()))
                    }
                }
            }
        }
    }

    fn submit(&mut self, entries: &[Entry], now: i64) -> Result<DeliveryReceipt, BundleIngestError> {
        let prepared: Vec<Prepared> = entries.iter().map(|e| e.prepared()).collect();
        let key = presentation(&prepared);
        let stored = self.receipts.iter().position(|(k, _)| *k == key);
        let mut run = match IngestRun::start(prepared.clone(), stored.map(|i| vec![i as u8])) {
            Start::Replay(handle) => return Ok(self.receipts[handle[0] as usize].1.clone()),
            Start::Run(run) => run,
        };
        let mut at = 0;
        let mut todo = run.first();
        loop {
            let event = match todo {
                Todo::Ask(phase) => {
                    if phase == Phase::Validating {
                        at = prepared.iter().position(|p| p == run.current()).unwrap();
                    }
                    self.answer(&entries[at], &prepared[at], phase)
                }
                Todo::StoreFork { stored_entry_hash, stored_envelope } => {
                    self.forks.push((
                        stored_entry_hash,
                        stored_envelope,
                        prepared[at].entry_hash,
                        prepared[at].envelope.clone(),
                    ));
                    Event::ForkRecorded
                }
                Todo::Finish => {
                    let receipt = run.receipt("rrn1station".into(), now);
                    self.receipts.push((key, receipt.clone()));
                    return Ok(receipt);
                }
                Todo::Abort(e) => return Err(e),
            };
            todo = run.feed(event);
        }
    }
}

fn dispositions(receipt: &DeliveryReceipt) -> Vec<Disposition> {
    receipt.outcomes.iter().map(|o| o.disposition).collect()
}

#[test]
fn a_bundle_of_a_proposal_and_its_confirmation_is_admitted() {
    let mut core = Station::new();
    let receipt = core
        .submit(
            &[
                Entry::new(1, 1, Carried::Proposal { tx: 1, tier: 1 }),
                Entry::new(2, 2, Carried::Confirmation { tx: 1 }),
            ],
            1000,
        )
        .unwrap();
    assert_eq!(
        dispositions(&receipt),
        vec![Disposition::Admitted { seq: 1 }, Disposition::Admitted { seq: 2 }]
    );
    assert_eq!(receipt.received_at, 1000);
    assert_eq!(receipt.station, "rrn1station");
    assert_eq!(receipt.outcomes[0].record_hash, id(1));
    assert!(core.confirmed(1));
}

#[test]
fn dtn_happy_path_admits_and_settles_from_admission() {
    const WINDOW: i64 = 86_400;
    let mut core = Station::new();

    // Signed offline: proposed/confirmed well before ingest (testimony only).
    let entries = [
        Entry::new(1, 1, Carried::Proposal { tx: 1, tier: 1 }),
        Entry::new(2, 2, Carried::Confirmation { tx: 1 }),
    ];
    let receipt = core.submit(&entries, 1000).unwrap();
    assert!(matches!(receipt.outcomes[0].disposition, Disposition::Admitted { .. }));
    assert!(matches!(receipt.outcomes[1].disposition, Disposition::Admitted { .. }));
    assert_eq!(receipt.received_at, 1000);

    // The transaction is Confirmed purely from the DTN path.
    assert!(core.confirmed(1));

    // Window (Tier 1: 86_400s) runs from admission (1000), NOT from the
    // claimed confirmed_at (950). Past confirmed_at+window but before
    // admission+window, it must still be unsettled.
    let mut log = Vec::new();
    let mut sweep = |now: i64| {
        let due = if now >= receipt.received_at + WINDOW { vec![id(1)] } else { vec![] };
        let mut sweep = SettleSweep::begin(&due, &vec![]);
        while let Some(d) = sweep.current() {
            log.push(LogEntry {
                seq: 3,
                created_at: now,
                signer: "rrn1station".into(),
                hash_hex: "00".into(),
                bytes: vec![],
                record: LogRecord::Settlement(SettlementRecord {
                    proposal_id: d.tx_id,
                    sender: "rrn1alice".into(),
                    receiver: "rrn1bob".into(),
                    amount_centi: 300,
                }),
            });
            sweep.record(true);
        }
        sweep.settled()
    };
    assert_eq!(
        sweep(950 + WINDOW + 10),
        0,
        "settling from confirmed_at would be premature — window anchors on admission"
    );

    // Past admission+window: it settles and the balances move.
    assert_eq!(sweep(1000 + WINDOW + 10), 1);
    assert_eq!(balance_of(&log, &"rrn1alice".to_string()), -300);
    assert_eq!(balance_of(&log, &"rrn1bob".to_string()), 300);
}

#[test]
fn dtn_mixed_bundle_reports_per_record_outcomes() {
    let mut core = Station::new();
    // Pre-admit charlie's proposal so the mixed bundle can re-carry it as a
    // known duplicate.
    let dup_entry = Entry::new(3, 3, Carried::Proposal { tx: 3, tier: 1 });
    core.submit(std::slice::from_ref(&dup_entry), 1000).unwrap();

    // The four mixed entries (distinct authors, so bundle order is trivially
    // valid).
    let good_entry = Entry::new(1, 1, Carried::Proposal { tx: 1, tier: 1 });
    let mut bad_entry = Entry::new(2, 2, Carried::Proposal { tx: 2, tier: 1 });
    bad_entry.valid = false;
    let unroutable_entry = Entry::new(4, 4, Carried::Vouch);

    let receipt =
        core.submit(&[good_entry, bad_entry, dup_entry, unroutable_entry], 2000).unwrap();
    let d = dispositions(&receipt);
    assert!(matches!(d[0], Disposition::Admitted { .. }), "good admitted");
    assert!(
        matches!(d[1], Disposition::Refused { reason: RefusalReason::BadSignature }),
        "bad signature refused"
    );
    assert!(matches!(d[2], Disposition::Known { .. }), "duplicate known");
    assert!(
        matches!(d[3], Disposition::Refused { reason: RefusalReason::UnroutableKind }),
        "unroutable kind refused"
    );

    // The good record really did land.
    assert!(core.proposed(1).is_some());
}

#[test]
fn dtn_ingest_is_idempotent() {
    let mut core = Station::new();
    let entries = [Entry::new(1, 1, Carried::Proposal { tx: 1, tier: 1 })];
    let first = core.submit(&entries, 1000).unwrap();
    let len_after_first = core.log.len();

    let second = core.submit(&entries, 9999).unwrap();
    assert_eq!(first, second, "an identical presentation returns a byte-identical receipt");
    assert_eq!(core.log.len(), len_after_first, "no record is re-admitted on re-ingest");
}

#[test]
fn dtn_fork_is_refused_and_evidence_persisted() {
    let mut core = Station::new();
    // Two DIFFERENT proposals equivocating at nonce 0 / outbox position 0.
    let entry_a = Entry::new(1, 1, Carried::Proposal { tx: 1, tier: 1 });
    let entry_b = Entry::new(1, 2, Carried::Proposal { tx: 2, tier: 2 });
    assert_ne!(entry_a.prepared().entry_hash, entry_b.prepared().entry_hash, "a genuine fork");

    let receipt = core.submit(&[entry_a.clone(), entry_b.clone()], 1000).unwrap();
    assert!(matches!(receipt.outcomes[0].disposition, Disposition::Admitted { .. }));
    assert!(matches!(
        receipt.outcomes[1].disposition,
        Disposition::Refused { reason: RefusalReason::OutboxFork }
    ));

    // Evidence: both envelopes, verbatim.
    assert_eq!(
        core.forks,
        vec![(
            entry_a.prepared().entry_hash,
            entry_a.prepared().envelope,
            entry_b.prepared().entry_hash,
            entry_b.prepared().envelope,
        )]
    );
}

#[test]
fn dtn_confirmation_needs_its_proposal_admitted_first() {
    let mut core = Station::new();
    let p_entry = Entry::new(1, 1, Carried::Proposal { tx: 1, tier: 1 });
    let c_entry = Entry::new(2, 2, Carried::Confirmation { tx: 1 });

    // Reversed: confirmation before proposal in the same bundle.
    let receipt = core.submit(&[c_entry, p_entry], 1000).unwrap();
    assert!(
        matches!(
            receipt.outcomes[0].disposition,
            Disposition::Refused { reason: RefusalReason::NotProposed }
        ),
        "a confirmation whose proposal is not yet admitted is refused not-proposed"
    );
    assert!(
        matches!(receipt.outcomes[1].disposition, Disposition::Admitted { .. }),
        "the proposal still admits"
    );
    // The transaction is Proposed (not Confirmed) — the confirmation did not land.
    assert!(core.proposed(1).is_some());
    assert!(!core.confirmed(1));
}

#[test]
fn dtn_tier2_confirmation_is_held_to_the_staking_bar() {
    let mut core = Station::new();
    // Bootstrap grace is over, and the confirmer is below the Member band.
    core.staked_out = true;
    let entries = [
        Entry::new(1, 1, Carried::Proposal { tx: 1, tier: 2 }),
        Entry::new(2, 2, Carried::Confirmation { tx: 1 }),
    ];
    let receipt = core.submit(&entries, 1000).unwrap();
    assert!(
        matches!(receipt.outcomes[0].disposition, Disposition::Admitted { .. }),
        "the proposal admits"
    );
    assert!(
        matches!(
            receipt.outcomes[1].disposition,
            Disposition::Refused { reason: RefusalReason::Tier2Stake }
        ),
        "the confirmation is gated by the Tier-2 staking bar, not bypassed"
    );
    // The confirmation did not land — the transaction stays Proposed.
    assert!(!core.confirmed(1));
    // Only the proposal ever reached the engine.
    assert_eq!(core.submitted, 1);
}

#[test]
fn a_storage_fault_leaves_no_receipt() {
    let mut core = Station::new();
    core.fault = true;
    let result = core.submit(&[Entry::new(1, 1, Carried::Proposal { tx: 1, tier: 1 })], 1000);
    assert_eq!(result, Err(BundleIngestError::Internal("disk".into())));
    assert!(core.receipts.is_empty());
}

#[test]
fn an_empty_bundle_has_an_empty_receipt() {
    let mut core = Station::new();
    assert_eq!(core.submit(&[], 7).unwrap().outcomes, vec![]);
    assert_eq!(presentation(&vec![]), Vec::<u8>::new());
}

#[test]
fn a_presentation_is_the_record_hashes_in_order() {
    let a = Entry::new(1, 1, Carried::Vouch).prepared();
    let b = Entry::new(1, 2, Carried::Vouch).prepared();
    let mut expected = vec![1; 32];
    expected.extend_from_slice(&[2; 32]);
    assert_eq!(presentation(&vec![a.clone(), b.clone()]), expected);
    assert_ne!(presentation(&vec![b, a]), expected);
}

#[test]
fn kinds_route_to_engines_by_tag() {
    let routed = |s: &str| route_kind(&Some(s.to_string()));
    assert_eq!(routed("rrn.tx.proposal"), Some(RecordKind::Proposal));
    assert_eq!(routed("rrn.tx.confirmation"), Some(RecordKind::Confirmation));
    assert_eq!(routed("rrn.tx.dispute"), Some(RecordKind::Dispute));
    assert_eq!(routed("rrn.tx.dispute.response"), Some(RecordKind::DisputeResponse));
    assert_eq!(routed("rrn.vouch"), None);
    assert_eq!(route_kind(&None), None);
}

#[test]
fn engine_refusals_have_receipt_reasons() {
    let cases = [
        (LedgerErrorKind::BadSignature, RefusalReason::BadSignature),
        (LedgerErrorKind::DuplicateProposal, RefusalReason::Duplicate),
        (LedgerErrorKind::BadNonce, RefusalReason::NonceGap),
        (LedgerErrorKind::Expired, RefusalReason::Expired),
        (LedgerErrorKind::TierNotSupported, RefusalReason::TierUnsupported),
        (LedgerErrorKind::DebtFloorExceeded, RefusalReason::DebtFloor),
        (LedgerErrorKind::UnknownTransaction, RefusalReason::NotProposed),
        (LedgerErrorKind::NotProposed, RefusalReason::NotProposed),
        (LedgerErrorKind::Other, RefusalReason::Rejected),
    ];
    for (kind, reason) in cases {
        assert_eq!(map_refusal(kind), reason);
    }
    assert_eq!(
        refused(id(1), RefusalReason::Expired),
        Outcome {
            record_hash: id(1),
            disposition: refused_disposition(RefusalReason::Expired)
        }
    );
}

#[test]
fn only_the_higher_tiers_need_a_stake() {
    assert!(!needs_stake(None));
    assert!(!needs_stake(Some(1)));
    assert!(needs_stake(Some(2)));
    assert_eq!(tier2_confirmation_gate(Some(2), Some(Tier2Eligibility::Allowed)), None);
    assert_eq!(
        tier2_confirmation_gate(
            Some(2),
            Some(Tier2Eligibility::Refused { composite: "1.00".into(), established: 4 })
        ),
        Some(("1.00".to_string(), 4))
    );
    assert_eq!(
        tier2_confirmation_gate(
            Some(1),
            Some(Tier2Eligibility::Refused { composite: "1.00".into(), established: 4 })
        ),
        None
    );
}

#[test]
fn a_head_short_of_the_position_is_a_gap() {
    assert!(!is_gap(Some(3), 3));
    assert!(is_gap(Some(1), 3));
    assert!(is_gap(None, 0));
}
