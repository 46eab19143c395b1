use rrn_station::methods::{call_method, route_channel_method, ChannelMethod, Method};
use rrn_station::params::{
    escalation_name, hex_param, left_out, parse_addr, parse_bundle_hex, parse_charter_body,
    parse_contract_id, parse_escalation_reason, parse_evidence_hash, parse_inquiry_id,
    parse_listing_id, parse_proposal_id, parse_proposal_kind, parse_pubkey_hex,
    parse_secret_keypair, parse_signature_hex, parse_subscribe_cursor, parse_tx_id, require_key, require_signature,
    parse_vote_choice, parse_window, queried, read_raw_shard, EscalationReason, ProposalKind,
    RawShard, VoteChoice, Window,
};
use rrn_station::rpc::{invalid_params, ErrorCode};
use rrn_station::tables::Id;

#[test]
fn unknown_method_is_method_not_found() {
    let err = call_method("nope").unwrap_err();
    assert_eq!(err.code, ErrorCode::MethodNotFound);
    assert_eq!(err.message, "unknown method: nope");
}

#[test]
fn operator_methods_are_found_and_mobiles_do_not_reach_them() {
    assert_eq!(call_method("whoami"), Ok(Method::Whoami));
    assert_eq!(call_method("governance_init_charter"), Ok(Method::GovernanceInitCharter));
    let err = route_channel_method("pair_confirm").unwrap_err();
    assert_eq!(err.code, ErrorCode::MethodNotFound);
    assert_eq!(err.message, "method not available to mobiles: pair_confirm");
    assert_eq!(route_channel_method("submit_proposal"), Ok(ChannelMethod::SubmitProposal));
    assert_eq!(call_method(Method::DisputeEscalate.name()), Ok(Method::DisputeEscalate));
}

#[test]
fn hex_fields_come_out_of_json() {
    assert_eq!(hex_param("{\"a\": \"00ff\"}", "a"), Ok(vec![0, 0xff]));
    assert_eq!(hex_param("{\"a\": \"zz\"}", "a"), Err(invalid_params("a is not hex")));
    assert_eq!(hex_param("{}", "a"), Err(invalid_params("missing string field: a")));
    assert_eq!(hex_param("{\"a\": 7}", "a"), Err(invalid_params("missing string field: a")));
    let e = hex_param("{", "a").unwrap_err();
    assert_eq!(e.code, ErrorCode::InvalidParams);
    assert!(e.message.starts_with("params not valid JSON: "), "{}", e.message);
}

#[test]
fn a_cursor_that_is_not_there_is_the_start() {
    assert_eq!(parse_subscribe_cursor("{\"last_seen_event_id\": 12}"), 12);
    assert_eq!(parse_subscribe_cursor("{\"last_seen_event_id\": -1}"), 0);
    assert_eq!(parse_subscribe_cursor("{}"), 0);
    assert_eq!(parse_subscribe_cursor(""), 0);
    assert_eq!(parse_subscribe_cursor("not json"), 0);
}

#[test]
fn a_window_may_be_left_out() {
    assert!(left_out(" \t\n\u{3000}"));
    assert!(!left_out(" {} "));
    assert_eq!(parse_window("  "), Ok(Window { limit: None, offset: 0 }));
    assert_eq!(parse_window("{}"), Ok(Window { limit: None, offset: 0 }));
    assert_eq!(
        parse_window("{\"limit\": 5, \"offset\": 2}"),
        Ok(Window { limit: Some(5), offset: 2 })
    );
    assert_eq!(
        parse_window("{\"limit\": \"5\"}"),
        Ok(Window { limit: None, offset: 0 })
    );
    assert!(parse_window("{").unwrap_err().message.starts_with("params not valid JSON: "));
}

#[test]
fn ids_are_thirty_two_bytes_of_hex() {
    let good = "ab".repeat(32);
    let id = Id { bytes: [0xab; 32] };
    assert_eq!(parse_tx_id(&good), Ok(id));
    assert_eq!(parse_proposal_id(&good), Ok(id));
    assert_eq!(parse_listing_id(&good), Ok(id));
    assert_eq!(parse_inquiry_id(&good), Ok(id));
    assert_eq!(parse_contract_id(&good), Ok(id));
    assert_eq!(parse_secret_keypair(&good), Ok(id));
    assert_eq!(parse_tx_id("x\"y"), Err(invalid_params("invalid tx id \"x\\\"y\"")));
    assert_eq!(parse_tx_id("ab"), Err(invalid_params("tx id must be 32 bytes")));
    assert_eq!(parse_proposal_id("q"), Err(invalid_params("invalid proposal id \"q\"")));
    assert_eq!(parse_listing_id("q"), Err(invalid_params("listing_id is not hex")));
    assert_eq!(parse_listing_id("ab"), Err(invalid_params("listing_id is not 32 bytes")));
    assert_eq!(parse_inquiry_id("q"), Err(invalid_params("inquiry_id is not hex")));
    assert_eq!(parse_contract_id("ab"), Err(invalid_params("contract_id is not 32 bytes")));
    assert_eq!(
        parse_secret_keypair("q"),
        Err(invalid_params("founder key is not valid hex"))
    );
}

#[test]
fn pasted_keys_and_signatures_are_trimmed() {
    let key = format!("  {}\n", "cd".repeat(32));
    assert_eq!(parse_pubkey_hex(&key), Ok(Id { bytes: [0xcd; 32] }));
    assert_eq!(parse_pubkey_hex("cd"), Err(invalid_params("signer key must be 32 bytes")));
    let sig = format!("\t{} ", "01".repeat(64));
    assert_eq!(parse_signature_hex(&sig), Ok([1; 64]));
    assert_eq!(parse_signature_hex("01"), Err(invalid_params("signature must be 64 bytes")));
    assert_eq!(parse_signature_hex("?"), Err(invalid_params("signature is not valid hex")));
    let id = Id { bytes: [0xcd; 32] };
    assert_eq!(require_key(id, true), Ok(id));
    assert_eq!(
        require_key(id, false),
        Err(invalid_params("signer key is not a valid public key"))
    );
    assert_eq!(require_signature([1; 64], true), Ok([1; 64]));
    assert_eq!(
        require_signature([1; 64], false),
        Err(invalid_params("signature is malformed"))
    );
    assert_eq!(parse_charter_body(" 0102 "), Ok(vec![1, 2]));
    assert_eq!(
        parse_charter_body("x"),
        Err(invalid_params("charter_body_hex is not valid hex"))
    );
    // A bundle is not pasted, and is not trimmed.
    assert_eq!(parse_bundle_hex("0102"), Ok(vec![1, 2]));
    assert_eq!(parse_bundle_hex(" 0102"), Err(invalid_params("bundle_hex is not hex")));
}

#[test]
fn addresses_and_hashes_report_what_the_parser_said() {
    assert_eq!(parse_addr("rrn1a", Ok("rrn1a".into())), Ok("rrn1a".to_string()));
    assert_eq!(
        parse_addr("bad", Err("checksum".into())),
        Err(invalid_params("invalid address \"bad\": checksum"))
    );
    let own = "rrn1me".to_string();
    assert_eq!(queried(None, &own), own);
    assert_eq!(queried(Some("rrn1x".into()), &own), "rrn1x");
    assert_eq!(parse_evidence_hash(None), Ok(None));
    assert_eq!(
        parse_evidence_hash(Some(Ok(Id { bytes: [1; 32] }))),
        Ok(Some(Id { bytes: [1; 32] }))
    );
    assert_eq!(
        parse_evidence_hash(Some(Err("short".into()))),
        Err(invalid_params("invalid evidence hash: short"))
    );
}

#[test]
fn proposal_kinds_need_what_they_need() {
    assert_eq!(parse_proposal_kind("statute", None, None), Ok(ProposalKind::Statute));
    for name in ["administrative_rule", "admin_rule", "admin-rule"] {
        assert_eq!(
            parse_proposal_kind(name, Some("tools".into()), None),
            Ok(ProposalKind::AdministrativeRule { scope: "tools".into() })
        );
    }
    assert_eq!(
        parse_proposal_kind("admin_rule", None, None),
        Err(invalid_params("an administrative_rule proposal needs a --scope"))
    );
    assert_eq!(
        parse_proposal_kind("emergency", None, Some(9)),
        Ok(ProposalKind::Emergency { expires_at: 9 })
    );
    assert_eq!(
        parse_proposal_kind("emergency", None, None),
        Err(invalid_params("an emergency proposal needs --expires-at"))
    );
    assert_eq!(
        parse_proposal_kind("law", None, None),
        Err(invalid_params(
            "unknown proposal kind \"law\" (statute, administrative_rule, emergency)"
        ))
    );
}

#[test]
fn votes_and_escalations_are_read_by_name() {
    assert_eq!(parse_vote_choice("yes"), Ok(VoteChoice::Yes));
    assert_eq!(parse_vote_choice("no"), Ok(VoteChoice::No));
    assert_eq!(parse_vote_choice("abstain"), Ok(VoteChoice::Abstain));
    assert_eq!(
        parse_vote_choice("Yes"),
        Err(invalid_params("vote choice must be yes, no, or abstain, got \"Yes\""))
    );
    for r in [EscalationReason::Appeal, EscalationReason::CannotSeat] {
        assert_eq!(parse_escalation_reason(escalation_name(r)), Ok(r));
    }
    assert_eq!(
        parse_escalation_reason("x"),
        Err(invalid_params("unknown escalation reason: x"))
    );
}

#[test]
fn a_shard_is_an_index_and_thirty_two_bytes() {
    let mut bytes = vec![5];
    bytes.extend_from_slice(&[7; 32]);
    assert_eq!(
        read_raw_shard("s", &bytes),
        Ok(RawShard { index: 5, data: Id { bytes: [7; 32] } })
    );
    assert_eq!(
        read_raw_shard("a/b", &vec![1, 2]),
        Err(invalid_params("shard \"a/b\" is 2 bytes, expected 33"))
    );
}
