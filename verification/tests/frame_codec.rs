use enclave_proxy::frame::{
    decode_frame, encode_be32, encode_frame, FrameDecode, FrameError, MAX_FRAME_LEN,
};

fn frame_of(body: &[u8]) -> Vec<u8> {
    encode_frame(&body.to_vec()).expect("body fits the frame limit")
}

#[test]
fn be32_is_big_endian() {
    assert_eq!(encode_be32(0), vec![0, 0, 0, 0]);
    assert_eq!(encode_be32(1), vec![0, 0, 0, 1]);
    assert_eq!(encode_be32(0x01020304), vec![1, 2, 3, 4]);
    assert_eq!(encode_be32(u32::MAX), vec![255, 255, 255, 255]);
}

#[test]
fn frame_layout_is_length_then_body() {
    let f = frame_of(b"hello");
    assert_eq!(f, vec![0, 0, 0, 5, b'h', b'e', b'l', b'l', b'o']);
}

#[test]
fn frame_round_trips() {
    let body = b"{\"k\":\"v\"}".to_vec();
    let f = encode_frame(&body).unwrap();
    match decode_frame(&f, false) {
        FrameDecode::Frame {
            body: decoded,
            consumed,
        } => {
            assert_eq!(decoded, body);
            assert_eq!(consumed, f.len());
        }
        _ => panic!("expected a complete frame"),
    }
}

#[test]
fn empty_body_frame_is_valid_and_round_trips() {
    let f = frame_of(b"");
    assert_eq!(f, vec![0, 0, 0, 0]);
    match decode_frame(&f, true) {
        FrameDecode::Frame { body, consumed } => {
            assert!(body.is_empty());
            assert_eq!(consumed, 4);
        }
        _ => panic!("a zero-length frame must decode"),
    }
}

#[test]
fn oversize_frame_is_rejected() {
    let announced = (10 * 1024 * 1024 + 1) as u32;
    let header = encode_be32(announced);
    match decode_frame(&header, false) {
        FrameDecode::Oversize { len } => assert_eq!(len, announced),
        _ => panic!("ten mebibytes plus one must be rejected"),
    }
}

#[test]
fn oversize_body_is_refused_on_encode() {
    let body = vec![0u8; MAX_FRAME_LEN + 1];
    assert_eq!(encode_frame(&body), Err(FrameError::Oversize));
    let at_limit = vec![0u8; MAX_FRAME_LEN];
    assert!(encode_frame(&at_limit).is_ok());
}

#[test]
fn clean_eof_before_prefix_is_end_of_stream() {
    let empty: Vec<u8> = Vec::new();
    assert!(matches!(decode_frame(&empty, true), FrameDecode::EndOfStream));
    let partial_header = vec![0u8, 0u8];
    assert!(matches!(
        decode_frame(&partial_header, true),
        FrameDecode::EndOfStream
    ));
}

#[test]
fn eof_inside_body_is_truncation_not_end_of_stream() {
    let mut f = frame_of(b"hello");
    f.truncate(6);
    assert!(matches!(decode_frame(&f, true), FrameDecode::TruncatedFrame));
    assert!(matches!(decode_frame(&f, false), FrameDecode::NeedMore));
}

#[test]
fn incomplete_buffer_asks_for_more() {
    let empty: Vec<u8> = Vec::new();
    assert!(matches!(decode_frame(&empty, false), FrameDecode::NeedMore));
}
