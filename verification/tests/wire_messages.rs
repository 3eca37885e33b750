use enclave_proxy::message::{
    empty_payload, encode_message, encode_message_frame, format_timestamp, handshake_payload,
    log_payload, pcr0_of, pcr_values_of, read_wire_message, Message, WireEvent,
};

fn msg(t: &str, id: &str, payload: &str) -> Message {
    Message {
        msg_type: t.to_string(),
        id: id.to_string(),
        payload: payload.to_string(),
    }
}

#[test]
fn message_text_is_the_wire_object() {
    let m = msg("log", "req-2", "{\"level\":\"info\"}");
    let text = encode_message(&m);
    assert_eq!(
        text,
        "{\"type\":\"log\",\"id\":\"req-2\",\"payload\":{\"level\":\"info\"}}"
    );
}

#[test]
fn encoded_message_parses_as_json_with_the_same_fields() {
    let m = msg("kms_request", "req-9", "{\"data\":{},\"operation\":\"decrypt\"}");
    let text = encode_message(&m);
    let v: serde_json::Value = serde_json::from_str(&text).expect("wire text must be JSON");
    assert_eq!(v.get("type").and_then(|x| x.as_str()), Some("kms_request"));
    assert_eq!(v.get("id").and_then(|x| x.as_str()), Some("req-9"));
    let expected: serde_json::Value =
        serde_json::from_str("{\"data\":{},\"operation\":\"decrypt\"}").unwrap();
    assert_eq!(v.get("payload"), Some(&expected));
}

#[test]
fn escaping_is_serde_json_s() {
    let m = msg("log", "req-1", "{}");
    let tricky = Message {
        msg_type: "log\"quote".to_string(),
        id: m.id.clone(),
        payload: m.payload.clone(),
    };
    let text = encode_message(&tricky);
    let v: serde_json::Value = serde_json::from_str(&text).unwrap();
    assert_eq!(v.get("type").and_then(|x| x.as_str()), Some("log\"quote"));
}

#[test]
fn message_round_trips_through_frame_and_parse() {
    let m = msg("http_request", "req-3", "{\"body\":\"\",\"url\":\"http://x/\"}");
    let frame = encode_message_frame(&m).expect("short message fits");
    match read_wire_message(&frame, false) {
        WireEvent::Message { msg: back, consumed } => {
            assert_eq!(consumed, frame.len());
            assert_eq!(back.msg_type, m.msg_type);
            assert_eq!(back.id, m.id);
            assert_eq!(back.payload, m.payload);
        }
        _ => panic!("expected one complete frame"),
    }
}

#[test]
fn read_wire_message_decodes_a_buffered_frame() {
    let m = msg("pcr_request", "req-4", "{}");
    let mut buf = encode_message_frame(&m).unwrap();
    buf.extend_from_slice(&[0, 0]);
    match read_wire_message(&buf, false) {
        WireEvent::Message { msg: back, consumed } => {
            assert_eq!(consumed, buf.len() - 2);
            assert_eq!(back.msg_type, "pcr_request");
            assert_eq!(back.id, "req-4");
            assert_eq!(back.payload, "{}");
        }
        _ => panic!("expected a message"),
    }
}

#[test]
fn every_outgoing_frame_decodes_to_a_message() {
    // A gateway-built payload (headers in arrival order, not sorted) still
    // travels as one frame that decodes to one valid message.
    let headers = vec![
        ("X-Zed".to_string(), "1".to_string()),
        ("Accept".to_string(), "*/*".to_string()),
    ];
    let payload = enclave_proxy::http_gateway::build_http_request_payload(
        &"GET".to_string(),
        &"http://example.com/".to_string(),
        &headers,
        &"".to_string(),
    );
    let m = msg("http_request", "req-5", &payload);
    let frame = encode_message_frame(&m).unwrap();
    let announced = u32::from_be_bytes([frame[0], frame[1], frame[2], frame[3]]) as usize;
    assert_eq!(announced, frame.len() - 4);
    match read_wire_message(&frame, true) {
        WireEvent::Message { msg: back, consumed } => {
            assert_eq!(consumed, frame.len());
            assert_eq!(back.msg_type, "http_request");
            assert_eq!(back.id, "req-5");
            let got: serde_json::Value = serde_json::from_str(&back.payload).unwrap();
            let sent: serde_json::Value = serde_json::from_str(&payload).unwrap();
            assert_eq!(got, sent);
        }
        _ => panic!("outgoing frames stay decodable"),
    }
}

#[test]
fn read_wire_message_reports_clean_eof() {
    let empty: Vec<u8> = Vec::new();
    assert!(matches!(read_wire_message(&empty, true), WireEvent::EndOfStream));
    assert!(matches!(read_wire_message(&empty, false), WireEvent::NeedMore));
}

#[test]
fn unparsable_frame_is_corrupt() {
    let garbage = b"not json".to_vec();
    let frame = enclave_proxy::frame::encode_frame(&garbage).unwrap();
    assert!(matches!(read_wire_message(&frame, false), WireEvent::Corrupt));
}

#[test]
fn responses_carry_their_payload_as_text() {
    let body = b"{\"type\":\"resp\",\"id\":\"req-7\",\"payload\":{\"status\":200}}".to_vec();
    let frame = enclave_proxy::frame::encode_frame(&body).unwrap();
    match read_wire_message(&frame, false) {
        WireEvent::Message { msg: m, consumed: _ } => {
            assert_eq!(m.id, "req-7");
            assert_eq!(m.payload, "{\"status\":200}");
        }
        _ => panic!("a response object parses"),
    }
}

#[test]
fn frames_without_all_members_do_not_parse() {
    let body = b"{\"type\":\"resp\"}".to_vec();
    let frame = enclave_proxy::frame::encode_frame(&body).unwrap();
    assert!(matches!(read_wire_message(&frame, false), WireEvent::Corrupt));
}

#[test]
fn handshake_first_frame_decodes_to_the_expected_object() {
    let payload = handshake_payload("abc");
    let mut counter: u64 = 0;
    let id = enclave_proxy::mux::next_request_id(&mut counter);
    assert_eq!(id, "req-1");
    let m = Message {
        msg_type: "handshake".to_string(),
        id,
        payload,
    };
    let frame = encode_message_frame(&m).unwrap();
    let announced =
        u32::from_be_bytes([frame[0], frame[1], frame[2], frame[3]]) as usize;
    assert_eq!(announced, frame.len() - 4);
    let v: serde_json::Value = serde_json::from_slice(&frame[4..]).unwrap();
    let expected: serde_json::Value = serde_json::from_str(
        "{\"type\":\"handshake\",\"id\":\"req-1\",\"payload\":{\
         \"capabilities\":[\"http_proxy\",\"kms_proxy\",\"log_stream\",\"health\"],\
         \"enclave_id\":\"abc\",\"protocol_version\":\"2.0\"}}",
    )
    .unwrap();
    assert_eq!(v, expected);
}

#[test]
fn timestamps_are_fractional_seconds() {
    assert_eq!(format_timestamp(1_728_123_456_123), "1728123456.123");
    assert_eq!(format_timestamp(5), "0.005");
    assert_eq!(format_timestamp(1000), "1.000");
}

#[test]
fn log_payload_carries_level_message_and_time() {
    let p = log_payload("info", "started", 12_345);
    assert_eq!(
        p,
        "{\"level\":\"info\",\"message\":\"started\",\"timestamp\":12.345}"
    );
    let v: serde_json::Value = serde_json::from_str(&p).unwrap();
    assert_eq!(v.get("timestamp").and_then(|x| x.as_f64()), Some(12.345));
}

#[test]
fn pcr_request_payload_is_the_empty_object() {
    assert_eq!(empty_payload(), "{}");
}

#[test]
fn pcr_values_and_pcr0_are_extracted() {
    let payload = "{\"pcr_values\":{\"PCR0\":\"abcd\",\"PCR1\":\"ef01\"}}".to_string();
    let pcrs = pcr_values_of(&payload).expect("the member is present");
    assert_eq!(pcrs, "{\"PCR0\":\"abcd\",\"PCR1\":\"ef01\"}");
    assert_eq!(pcr0_of(&pcrs), Some("abcd".to_string()));
    assert_eq!(pcr_values_of(&"{}".to_string()), None);
    assert_eq!(pcr0_of(&"{\"PCR0\":7}".to_string()), None);
}
