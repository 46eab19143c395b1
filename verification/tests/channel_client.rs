use rrn_station::channel_client::{
    conclude_call, conclude_pairing, open_frame, parse_status, read_call_status, read_pairing,
    read_reply, read_response, read_status, verified, ChannelClient, ChannelClientError,
    MethodReply, PairResponse, MAX_RESPONSE_BYTES, RESPONSE_TIMEOUT_SECS,
};
use rrn_station::tables::Id;

#[test]
fn a_request_head_names_path_host_type_and_length() {
    let client = ChannelClient::new("station.local:7411".into(), Id { bytes: [1; 32] });
    assert_eq!(
        client.request_head("/pair", "application/json", 12),
        "POST /pair HTTP/1.1\r\nHost: station.local:7411\r\nContent-Type: application/json\r\n\
         Content-Length: 12\r\nConnection: close\r\n\r\n"
    );
    assert_eq!(client.station, Id { bytes: [1; 32] });
    assert_eq!(MAX_RESPONSE_BYTES, 8 * 1024 * 1024);
    assert_eq!(RESPONSE_TIMEOUT_SECS, 20);
}

#[test]
fn a_response_splits_at_the_first_blank_line() {
    let raw = b"HTTP/1.1 200 OK\r\nA: b\r\n\r\nbody\r\n\r\nmore\x00\xff";
    assert_eq!(read_response(raw), Ok((200, b"body\r\n\r\nmore\x00\xff".to_vec())));
    assert_eq!(read_response(b"HTTP/1.1 404 Not Found\r\n\r\n"), Ok((404, vec![])));
}

#[test]
fn responses_without_a_blank_line_or_a_status_are_malformed() {
    for raw in [
        &b""[..],
        &b"HTTP/1.1 200 OK\r\n"[..],
        &b"HTTP/1.1\r\n\r\nbody"[..],
        &b"HTTP/1.1 abc\r\n\r\n"[..],
        &b"\r\n\r\nbody"[..],
        &b"\r\n\r\n 200"[..],
    ] {
        assert_eq!(read_response(raw), Err(ChannelClientError::Malformed));
    }
}

#[test]
fn a_head_that_is_not_text_still_has_a_status() {
    assert_eq!(read_response(b"\xff\xfe 201 ok\r\n\r\nx"), Ok((201, b"x".to_vec())));
}

#[test]
fn a_status_is_the_second_word_of_the_first_line() {
    assert_eq!(read_status("HTTP/1.1  \t 503 Busy\r\nX: 1"), Some(503));
    assert_eq!(read_status("HTTP/1.1\u{3000}204"), Some(204));
    assert_eq!(read_status("HTTP/1.1\n200 OK"), None);
    assert_eq!(read_status(""), None);
}

#[test]
fn a_status_is_a_small_decimal_number() {
    assert_eq!(parse_status("200"), Some(200));
    assert_eq!(parse_status("+200"), Some(200));
    assert_eq!(parse_status("000401"), Some(401));
    assert_eq!(parse_status("65535"), Some(65535));
    assert_eq!(parse_status("65536"), None);
    assert_eq!(parse_status("-1"), None);
    assert_eq!(parse_status("+"), None);
    assert_eq!(parse_status("++1"), None);
    assert_eq!(parse_status(""), None);
    assert_eq!(parse_status("20x"), None);
}

fn response(address: &str, signature: &str) -> Option<PairResponse> {
    Some(PairResponse { station_address: address.into(), signature: signature.into() })
}

#[test]
fn a_pairing_checks_status_then_shape_then_station_then_signature() {
    let sig = "ab".repeat(64);
    assert_eq!(
        read_pairing(200, b"", &response("rrn1station", &sig), "rrn1station"),
        Ok(vec![0xab; 64])
    );
    assert_eq!(
        read_pairing(500, b"busy \xff", &response("rrn1station", &sig), "rrn1station"),
        Err(ChannelClientError::Http { status: 500, message: "busy \u{fffd}".into() })
    );
    assert_eq!(read_pairing(200, b"", &None, "rrn1station"), Err(ChannelClientError::Malformed));
    // The wrong station is named even where its signature is no signature.
    assert_eq!(
        read_pairing(200, b"", &response("rrn1other", "zz"), "rrn1station"),
        Err(ChannelClientError::StationMismatch {
            pinned: "rrn1station".into(),
            got: "rrn1other".into()
        })
    );
    assert_eq!(
        read_pairing(200, b"", &response("rrn1station", "ab"), "rrn1station"),
        Err(ChannelClientError::Malformed)
    );
    assert_eq!(
        read_pairing(200, b"", &response("rrn1station", "zz"), "rrn1station"),
        Err(ChannelClientError::Malformed)
    );
}

#[test]
fn a_reply_counts_only_where_its_signature_holds() {
    assert_eq!(verified(7, true), Ok(7));
    assert_eq!(verified(7, false), Err(ChannelClientError::Verify));
}

#[test]
fn a_401_says_that_the_device_is_not_paired() {
    assert_eq!(read_call_status(200, b""), Ok(()));
    assert_eq!(read_call_status(401, b"no"), Err(ChannelClientError::NotPaired));
    assert_eq!(
        read_call_status(429, b"slow down"),
        Err(ChannelClientError::Http { status: 429, message: "slow down".into() })
    );
}

#[test]
fn a_frame_is_a_length_a_payload_and_a_signature() {
    let mut frame = vec![0, 0, 0, 3];
    frame.extend_from_slice(b"abc");
    frame.extend_from_slice(&[9; 64]);
    let opened = open_frame(&frame).unwrap();
    assert_eq!(opened.payload, b"abc".to_vec());
    assert_eq!(opened.signature, vec![9; 64]);

    let mut longer = frame.clone();
    longer.push(0);
    assert_eq!(open_frame(&longer), Err(ChannelClientError::Malformed));
    assert_eq!(open_frame(&frame[..frame.len() - 1]), Err(ChannelClientError::Malformed));
    assert_eq!(open_frame(&[0; 67]), Err(ChannelClientError::Malformed));
    assert_eq!(open_frame(&[0xff; 68]), Err(ChannelClientError::Malformed));
    assert_eq!(open_frame(&[0; 68]).unwrap().payload, Vec::<u8>::new());
}

fn reply(nonce: u64, result: Option<&str>, error: Option<(i32, &str)>) -> MethodReply {
    MethodReply {
        nonce,
        result: result.map(|s| s.to_string()),
        error: error.map(|(c, m)| (c, m.to_string())),
    }
}

#[test]
fn a_reply_must_echo_the_nonce_and_carry_json() {
    assert_eq!(read_reply(5, reply(5, Some("{\"a\":1}"), None)), Ok("{\"a\":1}".to_string()));
    assert_eq!(
        read_reply(5, reply(6, Some("1"), Some((1, "x")))),
        Err(ChannelClientError::NonceMismatch { expected: 5, got: 6 })
    );
    assert_eq!(
        read_reply(5, reply(5, Some("1"), Some((-32602, "bad")))),
        Err(ChannelClientError::Method { code: -32602, message: "bad".into() })
    );
    assert_eq!(read_reply(5, reply(5, None, None)), Err(ChannelClientError::Malformed));
    assert_eq!(read_reply(5, reply(5, Some("{"), None)), Err(ChannelClientError::Malformed));
}

#[test]
fn a_call_is_concluded_only_from_an_opened_signed_and_matching_reply() {
    // A sealed reply is the frame backwards; the signature repeats the payload's length.
    let sealed = |payload: &[u8], mark: u8| {
        let mut frame = (payload.len() as u32).to_be_bytes().to_vec();
        frame.extend_from_slice(payload);
        frame.extend_from_slice(&[mark; 64]);
        frame.reverse();
        frame
    };
    let conclude = |sent: u64, status: u16, body: &[u8]| {
        conclude_call(
            sent,
            status,
            body,
            |b: &[u8]| {
                if b.is_empty() {
                    None
                } else {
                    Some(b.iter().rev().copied().collect())
                }
            },
            |payload: &Vec<u8>, signature: &Vec<u8>| signature[0] as usize == payload.len(),
            |payload: &Vec<u8>| {
                let text = String::from_utf8(payload.clone()).ok()?;
                Some(reply(5, Some(text.as_str()), None))
            },
        )
    };
    assert_eq!(conclude(5, 200, &sealed(b"[1]", 3)), Ok("[1]".to_string()));
    assert_eq!(conclude(5, 401, &sealed(b"[1]", 3)), Err(ChannelClientError::NotPaired));
    assert_eq!(
        conclude(5, 500, b"down"),
        Err(ChannelClientError::Http { status: 500, message: "down".into() })
    );
    // It does not open, or opens to no frame, or does not parse.
    assert_eq!(conclude(5, 200, b""), Err(ChannelClientError::Malformed));
    assert_eq!(conclude(5, 200, &[0; 60]), Err(ChannelClientError::Malformed));
    assert_eq!(conclude(5, 200, &sealed(b"\xff", 1)), Err(ChannelClientError::Malformed));
    // The signature does not hold: whatever the payload says, it is not read.
    assert_eq!(conclude(5, 200, &sealed(b"[1]", 4)), Err(ChannelClientError::Verify));
    assert_eq!(conclude(6, 200, &sealed(b"[1]", 4)), Err(ChannelClientError::Verify));
    assert_eq!(
        conclude(6, 200, &sealed(b"[1]", 3)),
        Err(ChannelClientError::NonceMismatch { expected: 6, got: 5 })
    );
}

#[test]
fn a_pairing_is_concluded_only_with_a_signature_over_the_token() {
    let sig = "ab".repeat(64);
    let pair = |address: &str, want: u8| {
        conclude_pairing(200, b"", response(address, &sig), "rrn1station", |s: &Vec<u8>| {
            *s == vec![want; 64]
        })
    };
    assert_eq!(pair("rrn1station", 0xab), Ok(response("rrn1station", &sig).unwrap()));
    assert_eq!(pair("rrn1station", 0xac), Err(ChannelClientError::Verify));
    assert_eq!(
        pair("rrn1other", 0xab),
        Err(ChannelClientError::StationMismatch {
            pinned: "rrn1station".into(),
            got: "rrn1other".into()
        })
    );
    assert_eq!(
        conclude_pairing(403, b"no", None, "rrn1station", |_: &Vec<u8>| true),
        Err(ChannelClientError::Http { status: 403, message: "no".into() })
    );
}

#[test]
fn client_errors_read_as_sentences() {
    let cases = [
        (
            ChannelClientError::Connect { url: "h:1".into(), source: "refused".into() },
            "could not reach the station at h:1: refused",
        ),
        (ChannelClientError::Timeout { secs: 20 }, "the station did not respond within 20s"),
        (ChannelClientError::NotPaired, "the station has not confirmed this device is paired"),
        (
            ChannelClientError::Http { status: 500, message: "oops".into() },
            "station returned HTTP 500: oops",
        ),
        (ChannelClientError::Malformed, "malformed station reply"),
        (
            ChannelClientError::Verify,
            "station reply signature did not verify against the pinned station key",
        ),
        (
            ChannelClientError::NonceMismatch { expected: 1, got: 2 },
            "station reply nonce 2 did not echo the request nonce 1",
        ),
        (
            ChannelClientError::StationMismatch { pinned: "p".into(), got: "g".into() },
            "the station at this URL identifies as g, not the pinned p",
        ),
        (
            ChannelClientError::Method { code: -32602, message: "bad".into() },
            "station refused the request (-32602): bad",
        ),
    ];
    for (error, text) in cases {
        assert_eq!(error.message(), text);
    }
}
