use rrn_station::gossip::{
    applied, log_range, peer_method, pull_range, stored_from_parts, to_id, to_signature,
    well_formed_entries, with_valid_parts, AppendOutcome, ConnectivityState, PeerHealth, PeerMethod, StoredEntry,
    StoredPayload, WireEntry, PEER_DIAL_TIMEOUT_SECS,
};
use rrn_station::rpc::ErrorCode;
use rrn_station::tables::Id;

fn state() -> ConnectivityState {
    ConnectivityState::new(vec!["10.255.255.1:7411".into()], "127.0.0.1:0".into(), true)
}

fn payload(n: u8) -> StoredPayload {
    StoredPayload { bytes: vec![n, n], signer: Id { bytes: [n; 32] }, signature: [n; 64] }
}

#[test]
fn reachability_transitions_log_once_not_per_round() {
    let mut s = state();
    let peer = "10.255.255.1:7411";

    // First unreachable observation is the silent offline default (no transition).
    assert_eq!(s.record(peer, false, 100), None);
    // Repeated failures stay silent.
    assert_eq!(s.record(peer, false, 101), None);
    // Becoming reachable is a transition.
    assert_eq!(s.record(peer, true, 102), Some(true));
    // Staying reachable is silent.
    assert_eq!(s.record(peer, true, 103), None);
    // Dropping is a transition.
    assert_eq!(s.record(peer, false, 104), Some(false));

    // Health reflects the last observation and the last success time.
    let h = s.health(peer).unwrap();
    assert!(!h.reachable);
    // Last success is the most recent reachable round (t=103), not the flip.
    assert_eq!(h.last_success_at, Some(103));
    assert_eq!(h.last_attempt_at, Some(104));
}

#[test]
fn first_reachable_observation_is_a_transition() {
    // A peer that is reachable from the very first round is worth one info line.
    let mut s = state();
    assert_eq!(s.record("127.0.0.1:1", true, 1), Some(true));
}

#[test]
fn a_peer_never_tried_is_unreachable_and_unknown() {
    let s = state();
    assert_eq!(s.health("10.255.255.1:7411"), None);
    assert_eq!(
        PeerHealth::default(),
        PeerHealth { reachable: false, last_success_at: None, last_attempt_at: None }
    );
    assert!(!s.mobile_bound);
    assert!(s.mobile_advertising);
    assert_eq!(s.mobile_listen, "127.0.0.1:0");
    assert_eq!(PEER_DIAL_TIMEOUT_SECS, 3);
}

#[test]
fn peers_do_not_share_their_health() {
    let mut s = state();
    s.record("a", true, 1);
    s.record("b", false, 2);
    assert!(s.health("a").unwrap().reachable);
    assert!(!s.health("b").unwrap().reachable);
    assert_eq!(s.health("b").unwrap().last_success_at, None);
}

#[test]
fn stored_payloads_survive_the_wire() {
    let p = payload(7);
    let wire = WireEntry::from_stored(&p);
    assert_eq!(wire.signer, vec![7; 32]);
    assert_eq!(wire.to_stored(), Some(p));
}

#[test]
fn entries_of_the_wrong_length_are_dropped() {
    let good = WireEntry::from_stored(&payload(1));
    let mut short_signer = good.clone();
    short_signer.signer.pop();
    let mut long_signature = good.clone();
    long_signature.signature.push(0);
    assert_eq!(short_signer.to_stored(), None);
    assert_eq!(long_signature.to_stored(), None);
    assert_eq!(
        well_formed_entries(&vec![short_signer, good, long_signature]),
        vec![payload(1)]
    );
    assert_eq!(with_valid_parts(payload(1), true, true), Some(payload(1)));
    assert_eq!(with_valid_parts(payload(1), false, true), None);
    assert_eq!(with_valid_parts(payload(1), true, false), None);
    assert_eq!(to_id(&[1; 31]), None);
    assert_eq!(to_id(&[1; 32]), Some(Id { bytes: [1; 32] }));
    assert_eq!(to_signature(&[1; 63]), None);
    assert_eq!(to_signature(&[2; 64]), Some([2; 64]));
    assert_eq!(stored_from_parts(&[3; 32], &[3; 64], vec![3, 3]), Some(payload(3)));
}

#[test]
fn a_range_stops_at_its_end_and_at_a_read_error() {
    let entry = |seq: u64| Some(StoredEntry { seq, payload: payload(seq as u8) });
    let wire = |seq: u64| WireEntry::from_stored(&payload(seq as u8));
    assert_eq!(
        log_range(&vec![entry(1), entry(2), entry(3), entry(4)], 1, 3),
        vec![wire(1), wire(2), wire(3)]
    );
    assert_eq!(log_range(&vec![entry(1), None, entry(3)], 1, 9), vec![wire(1)]);
    assert_eq!(log_range(&vec![], 1, 9), vec![]);
    // What is read begins at the range's start, behind whatever could not be read before it.
    assert_eq!(log_range(&vec![entry(3), entry(4)], 3, 9), vec![wire(3), wire(4)]);
}

#[test]
fn a_round_counts_what_it_appended_and_touches_each_listing_once() {
    let id = |n: u8| Id { bytes: [n; 32] };
    let done = applied(&vec![
        AppendOutcome::Appended { listing: Some(id(1)) },
        AppendOutcome::Held,
        AppendOutcome::Appended { listing: None },
        AppendOutcome::Refused,
        AppendOutcome::Appended { listing: Some(id(2)) },
        AppendOutcome::Appended { listing: Some(id(1)) },
    ]);
    assert_eq!(done.appended, 4);
    assert_eq!(done.touched.len(), 2);
    assert_eq!(*done.touched.key_at(0), id(1));
    assert_eq!(*done.touched.key_at(1), id(2));
}

#[test]
fn peers_know_three_methods() {
    assert_eq!(peer_method("peer_handshake"), Ok(PeerMethod::Handshake));
    assert_eq!(peer_method("log_tail"), Ok(PeerMethod::LogTail));
    assert_eq!(peer_method("log_range"), Ok(PeerMethod::LogRange));
    let e = peer_method("balance").unwrap_err();
    assert_eq!(e.code, ErrorCode::MethodNotFound);
    assert_eq!(e.message, "unknown peer method: balance");
}

#[test]
fn an_empty_peer_is_not_pulled_from() {
    assert_eq!(pull_range(0), None);
    assert_eq!(pull_range(12), Some((1, 12)));
}

/// A log that takes an entry whose signature starts as its signer does, once.
fn append_all(log: &mut Vec<StoredPayload>, entries: Vec<WireEntry>) -> usize {
    let mut outcomes = Vec::new();
    for stored in well_formed_entries(&entries) {
        outcomes.push(if stored.signature[0] != stored.signer.bytes[0] {
            AppendOutcome::Refused
        } else if log.contains(&stored) {
            AppendOutcome::Held
        } else {
            log.push(stored);
            AppendOutcome::Appended { listing: None }
        });
    }
    applied(&outcomes).appended
}

#[test]
fn gossip_apply_accepts_valid_and_ignores_bad_signatures() {
    let mut log = Vec::new();
    let good = WireEntry::from_stored(&payload(1));
    let mut bad = WireEntry::from_stored(&payload(2));
    bad.signature[0] ^= 0xff; // break the signature

    // One good, one tampered: only the good one is appended, and the bad one
    // does not abort the batch or crash.
    let appended = append_all(&mut log, vec![good.clone(), bad]);
    assert_eq!(appended, 1);
    assert_eq!(log.len(), 1);

    // Replaying the same good entry is deduped (idempotent).
    assert_eq!(append_all(&mut log, vec![good]), 0);
    assert_eq!(log.len(), 1);
}

#[test]
fn a_round_applied_twice_appends_once() {
    let mut log = Vec::new();
    let round = || -> Vec<WireEntry> {
        [3, 1, 3, 2].iter().map(|n| WireEntry::from_stored(&payload(*n))).collect()
    };
    assert_eq!(append_all(&mut log, round()), 3);
    assert_eq!(log, vec![payload(3), payload(1), payload(2)]);
    assert_eq!(append_all(&mut log, round()), 0);
    assert_eq!(log.len(), 3);
}
