use rrn_station::channel::{
    admit_nonce, admit_record, authorize, charter_signature, publish_tail, record_bytes,
    require_subscribe, respond, subscribe, too_far, ChannelError, ChannelWrite, EnvelopeHead,
    PairError, PendingPairs, PendingRow, SubscribeOutcome,
};
use rrn_station::events::{Event, EventBatch, EventKind};
use rrn_station::rpc::{internal, invalid_params, ErrorCode};
use rrn_station::tables::Id;

const NOW: i64 = 1_000;

fn id(n: u8) -> Id {
    Id { bytes: [n; 32] }
}

fn head() -> EnvelopeHead {
    EnvelopeHead { recipient: id(1), signer: id(2), timestamp: NOW, nonce: 7 }
}

#[test]
fn a_request_is_checked_for_recipient_then_pairing_then_time() {
    assert_eq!(authorize(&head(), &id(1), true, NOW, 60), Ok(()));
    assert_eq!(
        authorize(&head(), &id(9), false, 0, 60),
        Err(ChannelError::WrongRecipient)
    );
    assert_eq!(authorize(&head(), &id(1), false, 0, 60), Err(ChannelError::NotPaired));
    assert_eq!(authorize(&head(), &id(1), true, NOW + 61, 60), Err(ChannelError::StaleTimestamp));
    assert_eq!(authorize(&head(), &id(1), true, NOW - 61, 60), Err(ChannelError::StaleTimestamp));
    assert_eq!(authorize(&head(), &id(1), true, NOW - 60, 60), Ok(()));
    assert!(too_far(i64::MAX, i64::MIN, i64::MAX));
}

/// Authenticates a request against the nonces used so far, as the station does.
fn authenticate(used: &mut Vec<(Id, u64)>, saved: bool) -> Result<(), ChannelError> {
    let e = head();
    authorize(&e, &id(1), true, NOW, 60)?;
    let fresh = !used.contains(&(e.signer, e.nonce));
    admit_nonce(fresh, saved)?;
    used.push((e.signer, e.nonce));
    Ok(())
}

#[test]
fn a_request_presented_twice_is_a_replay() {
    let mut used = Vec::new();
    // A nonce that could not be recorded is not used up.
    assert_eq!(authenticate(&mut used, false), Err(ChannelError::Unavailable));
    assert_eq!(authenticate(&mut used, true), Ok(()));
    assert_eq!(authenticate(&mut used, true), Err(ChannelError::Replay));
    assert_eq!(used.len(), 1);
}

#[test]
fn a_nonce_must_be_fresh_and_saved() {
    assert_eq!(admit_nonce(true, true), Ok(()));
    assert_eq!(admit_nonce(false, true), Err(ChannelError::Replay));
    assert_eq!(admit_nonce(true, false), Err(ChannelError::Unavailable));
}

#[test]
fn only_subscribe_subscribes() {
    assert_eq!(require_subscribe("subscribe"), Ok(()));
    assert_eq!(require_subscribe("history"), Err(ChannelError::Malformed));
}

#[test]
fn a_subscriber_waits_where_nothing_is_new() {
    assert_eq!(
        subscribe(vec![], 5, "rrn1m".into(), id(2), 4, 7),
        SubscribeOutcome::Waiting {
            member: "rrn1m".into(),
            member_pk: id(2),
            last_seen: 4,
            nonce: 7
        }
    );
    let event =
        Event { id: 5, kind: EventKind::Settlement, transaction: None, vouch: None };
    assert_eq!(
        subscribe(vec![event.clone()], 5, "rrn1m".into(), id(2), 4, 7),
        SubscribeOutcome::Ready(EventBatch { last_seen_event_id: 5, events: vec![event] })
    );
}

#[test]
fn the_published_tail_tells_only_of_changes() {
    let mut tail = 3;
    assert!(!publish_tail(&mut tail, 3));
    assert!(publish_tail(&mut tail, 4));
    assert_eq!(tail, 4);
    // A tail that could not be read, and so reads as none, wakes nobody.
    assert!(!publish_tail(&mut tail, 0));
    assert_eq!(tail, 4);
}

#[test]
fn a_response_echoes_the_nonce() {
    let ok = respond(9, Ok("{}".to_string()));
    assert_eq!(ok.nonce, 9);
    assert_eq!(ok.body, Ok("{}".to_string()));
    let err = respond(9, Err(internal("boom")));
    assert_eq!(err.body, Err((ErrorCode::InternalError, "boom".to_string())));
}

#[test]
fn records_come_out_of_their_own_field() {
    assert_eq!(
        record_bytes(ChannelWrite::SubmitVouch, "{\"signed_vouch\": \"0a\"}"),
        Ok(vec![10])
    );
    assert_eq!(
        record_bytes(ChannelWrite::SubmitVouch, "{\"signed_listing\": \"0a\"}"),
        Err(invalid_params("missing string field: signed_vouch"))
    );
    assert_eq!(
        record_bytes(ChannelWrite::SubmitVerdict, "{\"signed_verdict\": \"0\"}"),
        Err(invalid_params("signed_verdict is not hex"))
    );
    assert_eq!(ChannelWrite::SubmitEscalationBallot.field(), "signed_ballot");
}

#[test]
fn a_mobile_submits_only_its_own_records() {
    let write = ChannelWrite::SubmitListing;
    assert_eq!(admit_record(write, Some(id(2)), &id(2), true), Ok(()));
    assert_eq!(
        admit_record(write, None, &id(2), true),
        Err(invalid_params("malformed signed listing"))
    );
    assert_eq!(
        admit_record(write, Some(id(3)), &id(2), true),
        Err(invalid_params("provider is not the authenticated mobile"))
    );
    assert_eq!(
        admit_record(write, Some(id(2)), &id(2), false),
        Err(invalid_params("listing signature does not verify"))
    );
    // The ledger checks a proposal's signature itself.
    assert_eq!(admit_record(ChannelWrite::SubmitProposal, Some(id(2)), &id(2), false), Ok(()));
}

#[test]
fn a_charter_signature_is_sixty_four_bytes() {
    let good = format!("{{\"charter_signature\": \"{}\"}}", "02".repeat(64));
    assert_eq!(charter_signature(&good), Ok([2; 64]));
    assert_eq!(
        charter_signature("{\"charter_signature\": \"02\"}"),
        Err(invalid_params("signature must be 64 bytes"))
    );
    assert_eq!(
        charter_signature("{}"),
        Err(invalid_params("missing string field: charter_signature"))
    );
}

#[test]
fn a_pairing_request_waits_to_be_confirmed() {
    let mut pending = PendingPairs::new();
    assert_eq!(pending.request("rrn1b".into(), "111".into(), NOW, NOW, 60, 100), Ok(()));
    assert_eq!(pending.request("rrn1a".into(), "222".into(), NOW, NOW + 5, 60, 100), Ok(()));
    assert_eq!(
        pending.request("rrn1c".into(), "333".into(), NOW - 100, NOW, 60, 100),
        Err(PairError::StaleTimestamp)
    );
    // Newest first.
    let rows = pending.list(NOW + 10, 100);
    assert_eq!(rows.len(), 2);
    assert!(rows.contains(&PendingRow {
        address: "rrn1b".into(),
        sas: "111".into(),
        age_secs: 10
    }));
    let confirmed = pending.confirm(&"rrn1a".to_string(), NOW + 10, 100).unwrap();
    assert_eq!(confirmed.sas, "222");
    // It can be confirmed once.
    assert_eq!(
        pending.confirm(&"rrn1a".to_string(), NOW + 10, 100),
        Err(invalid_params("no pending pairing request from rrn1a (it may have expired)"))
    );
}

#[test]
fn an_aged_pairing_request_is_gone() {
    let mut pending = PendingPairs::new();
    pending.request("rrn1b".into(), "111".into(), NOW, NOW, 60, 100).unwrap();
    assert_eq!(pending.list(NOW + 100, 100).len(), 1);
    assert!(pending.confirm(&"rrn1b".to_string(), NOW + 101, 100).is_err());
    assert_eq!(pending.list(NOW + 101, 100), vec![]);
    // A second request of one mobile replaces the first.
    pending.request("rrn1b".into(), "1".into(), NOW, NOW, 60, 100).unwrap();
    pending.request("rrn1b".into(), "2".into(), NOW, NOW, 60, 100).unwrap();
    assert_eq!(pending.list(NOW, 100).len(), 1);
    pending.prune(NOW + 500, 100);
    assert_eq!(pending.list(NOW, 100).len(), 0);
}
