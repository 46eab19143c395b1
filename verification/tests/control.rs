use rrn_station::control::{ControlFrame, PayloadKind};

#[test]
fn control_frame_roundtrips() {
    let req = ControlFrame::RequestMissing {
        payload_id: [7u8; 32],
        missing: vec![0, 3, 9, 65535],
    };
    assert_eq!(ControlFrame::decode(&req.encode()), Some(req));
    let ack = ControlFrame::Ack { payload_id: [9u8; 32] };
    assert_eq!(ControlFrame::decode(&ack.encode()), Some(ack));
    // Not a control frame: the framing magic, and junk.
    assert_eq!(ControlFrame::decode(b"RRNF...."), None);
    assert_eq!(ControlFrame::decode(b"x"), None);
}

#[test]
fn payload_kind_tags() {
    for k in [PayloadKind::Bundle, PayloadKind::Receipt] {
        assert_eq!(PayloadKind::from_tag(k.tag()), Some(k));
    }
    assert_eq!(PayloadKind::from_tag(0xFF), None);
}

#[test]
fn an_ack_is_the_header_and_the_payload_id() {
    let bytes = ControlFrame::Ack { payload_id: [9u8; 32] }.encode();
    let mut expected = b"RRNC".to_vec();
    expected.push(1);
    expected.push(2);
    expected.extend_from_slice(&[9u8; 32]);
    assert_eq!(bytes, expected);
}

#[test]
fn a_request_counts_its_indexes_in_two_bytes() {
    let bytes = ControlFrame::RequestMissing { payload_id: [1u8; 32], missing: vec![258] }.encode();
    assert_eq!(&bytes[..6], b"RRNC\x01\x01");
    assert_eq!(&bytes[38..], &[0, 1, 1, 2]);
}

#[test]
fn truncated_or_mislabelled_control_frames_are_none() {
    let good = ControlFrame::RequestMissing { payload_id: [1u8; 32], missing: vec![1, 2] }.encode();
    assert_eq!(ControlFrame::decode(&good[..good.len() - 1]), None);
    let mut version = good.clone();
    version[4] = 2;
    assert_eq!(ControlFrame::decode(&version), None);
    let mut kind = good.clone();
    kind[5] = 7;
    assert_eq!(ControlFrame::decode(&kind), None);
    assert_eq!(ControlFrame::decode(&good[..6]), None);
}
