use rrn_station::cbor::{is_shallow, record_kind, MAX_NESTING};
use rrn_station::history::{
    decode_summary, fmt_commons, friendly_kind, history, is_version, short_addr, short_tx,
    summarize, HistoryEntry,
};
use rrn_station::log::{
    CancelReason, CancellationRecord, ConfirmationRecord, LogEntry, LogRecord, ProposalRecord,
    SettlementRecord, VouchRecord,
};
use rrn_station::tables::Id;

/// A one inside as many arrays as it takes.
fn nested(levels: usize) -> Vec<u8> {
    let mut bytes = vec![0x81; levels - 1];
    bytes.push(0x01);
    bytes
}

#[test]
fn fmt_commons_handles_sign_and_padding() {
    assert_eq!(fmt_commons(350), "3.50 Commons");
    assert_eq!(fmt_commons(1), "0.01 Commons");
    assert_eq!(fmt_commons(0), "0.00 Commons");
    assert_eq!(fmt_commons(-300), "-3.00 Commons");
}

#[test]
fn the_least_amount_has_no_positive_twin_and_still_prints() {
    assert_eq!(fmt_commons(i64::MIN), "-92233720368547758.08 Commons");
    assert_eq!(fmt_commons(i64::MAX), "92233720368547758.07 Commons");
}

#[test]
fn friendly_kind_names_records_from_their_tag() {
    // A versioned marketplace record: prefix and `.v1` dropped, name is the
    // final segment, summary reads as a plain phrase.
    assert_eq!(
        friendly_kind("rrn.marketplace.stock_consumed.v1"),
        ("stock_consumed".to_string(), "marketplace stock consumed".to_string())
    );
    // An unversioned ledger record.
    assert_eq!(
        friendly_kind("rrn.tx.contract_charge"),
        ("contract_charge".to_string(), "tx contract charge".to_string())
    );
    // A tag in no recognized shape still names itself rather than panicking.
    assert_eq!(friendly_kind("weird"), ("weird".to_string(), "weird".to_string()));
}

#[test]
fn a_tag_that_is_only_a_version_names_itself() {
    assert_eq!(friendly_kind("v1"), ("v1".to_string(), "".to_string()));
    assert_eq!(friendly_kind("rrn.v2"), ("rrn.v2".to_string(), "".to_string()));
    assert_eq!(friendly_kind(""), ("".to_string(), "".to_string()));
}

#[test]
fn only_real_version_segments_are_dropped() {
    assert!(is_version("v1"));
    assert!(is_version("v12"));
    assert!(!is_version("v"));
    assert!(!is_version("valve"));
    assert!(!is_version("1"));
}

const FROM: &str = "rrn1aaaaaaaaaaaa";
const TO: &str = "rrn1bbbbbbbbbbbb";

fn id() -> Id {
    let mut bytes = [0; 32];
    bytes[0] = 0x0a;
    bytes[1] = 0xbc;
    bytes[3] = 0xff;
    Id { bytes }
}

#[test]
fn ids_and_addresses_are_shortened() {
    assert_eq!(short_tx(&id()), "0abc00ff…");
    assert_eq!(short_addr(FROM), "rrn1aaaaaaaa…");
    assert_eq!(short_addr("rrn1"), "rrn1…");
}

fn summary(record: LogRecord) -> (String, String) {
    decode_summary(&record, &vec![])
}

#[test]
fn each_ledger_record_has_a_summary() {
    assert_eq!(
        summary(LogRecord::Proposal(ProposalRecord {
            id: id(),
            sender: FROM.into(),
            receiver: TO.into(),
            amount_centi: 350
        })),
        (
            "proposal".to_string(),
            "propose 3.50 Commons from rrn1aaaaaaaa… to rrn1bbbbbbbb… (tx 0abc00ff…)".to_string()
        )
    );
    assert_eq!(
        summary(LogRecord::Confirmation(ConfirmationRecord {
            proposal_id: id(),
            confirmer: TO.into()
        })),
        ("confirmation".to_string(), "confirm tx 0abc00ff… by rrn1bbbbbbbb…".to_string())
    );
    assert_eq!(
        summary(LogRecord::Settlement(SettlementRecord {
            proposal_id: id(),
            sender: FROM.into(),
            receiver: TO.into(),
            amount_centi: 1
        })),
        (
            "settlement".to_string(),
            "settle 0.01 Commons from rrn1aaaaaaaa… to rrn1bbbbbbbb… (tx 0abc00ff…)".to_string()
        )
    );
    assert_eq!(
        summary(LogRecord::Cancellation(CancellationRecord {
            proposal_id: id(),
            reason: CancelReason::Expired
        })),
        ("cancellation".to_string(), "cancel tx 0abc00ff… (Expired)".to_string())
    );
    assert_eq!(
        summary(LogRecord::Vouch(VouchRecord {
            subject: TO.into(),
            community: "c".into(),
            statement: "a \"good\" one\n".into(),
            stake_centi: 0,
            issued_at: 0
        })),
        ("vouch".to_string(), "vouch for rrn1bbbbbbbb…: \"a \\\"good\\\" one\\n\"".to_string())
    );
}

/// `{"kind": "rrn.tx.contract_charge"}`
fn tagged() -> Vec<u8> {
    let mut bytes = vec![0xa1, 0x64];
    bytes.extend_from_slice(b"kind");
    bytes.push(0x76);
    bytes.extend_from_slice(b"rrn.tx.contract_charge");
    bytes
}

#[test]
fn other_records_name_themselves_or_their_size() {
    assert_eq!(record_kind(&tagged()), Some("rrn.tx.contract_charge".to_string()));
    assert_eq!(
        decode_summary(&LogRecord::Other, &tagged()),
        ("contract_charge".to_string(), "tx contract charge".to_string())
    );
    assert_eq!(record_kind(&[0xa0]), None);
    assert_eq!(record_kind(&[0x01]), None);
    assert_eq!(record_kind(&tagged()[..5]), None);
    // Nested as deeply as can be read, and deeper than any stack.
    assert_eq!(record_kind(&nested(MAX_NESTING)), None);
    assert!(is_shallow(&nested(MAX_NESTING)));
    assert!(!is_shallow(&nested(MAX_NESTING + 1)));
    assert_eq!(record_kind(&vec![0x81; 1_000_000]), None);
    assert_eq!(
        decode_summary(&LogRecord::Other, &vec![1, 2, 3]),
        ("unknown".to_string(), "3 bytes".to_string())
    );
}

fn entry(seq: u64) -> LogEntry {
    LogEntry {
        seq,
        created_at: 100 + seq as i64,
        signer: FROM.into(),
        hash_hex: "00".into(),
        bytes: vec![0; seq as usize],
        record: LogRecord::Other,
    }
}

fn row(seq: u64) -> HistoryEntry {
    HistoryEntry {
        seq,
        kind: "unknown".into(),
        summary: format!("{seq} bytes"),
        created_at: 100 + seq as i64,
    }
}

#[test]
fn history_is_newest_first_and_paged_from_the_new_end() {
    let log: Vec<LogEntry> = (1..=4).map(entry).collect();
    assert_eq!(summarize(&log[0]), row(1));
    assert_eq!(history(&log, None, None), vec![row(4), row(3), row(2), row(1)]);
    assert_eq!(history(&log, Some(2), None), vec![row(4), row(3)]);
    assert_eq!(history(&log, Some(2), Some(1)), vec![row(3), row(2)]);
    assert_eq!(history(&log, None, Some(4)), vec![]);
    assert_eq!(history(&log, Some(0), None), vec![]);
    assert_eq!(history(&log, Some(u64::MAX), Some(u64::MAX)), vec![]);
    // Two pages are the history.
    let mut both = history(&log, Some(3), Some(0));
    both.extend(history(&log, None, Some(3)));
    assert_eq!(both, history(&log, None, None));
}
