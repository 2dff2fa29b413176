use msg_relay::frame::{decode, encode, encode_text, DecodeError, Frame, MSG_SIZE};

fn padded(payload: &[u8]) -> [u8; 32] {
    let mut bytes = [0u8; 32];
    bytes[..payload.len()].copy_from_slice(payload);
    bytes
}

#[test]
fn frame_size_is_32() {
    assert_eq!(MSG_SIZE, 32);
}

#[test]
fn encode_pads_with_zeros() {
    let frame = encode(b"hello");
    let expected: [u8; 32] = [
        b'h', b'e', b'l', b'l', b'o', 0, 0, 0, 0, 0, 0, 0, 0, 0, 0, 0, 0, 0, 0, 0, 0, 0, 0, 0, 0,
        0, 0, 0, 0, 0, 0, 0,
    ];
    assert_eq!(frame.as_bytes(), &expected[..]);
}

#[test]
fn payload_round_trips() {
    let payloads: [&[u8]; 4] = [b"a", b"hello", b"with space and \xf0\x9f\x98\x80", &[0xff, 0x01]];
    for payload in payloads {
        assert_eq!(encode(payload).payload(), payload.to_vec());
    }
}

#[test]
fn payload_of_exactly_frame_size_round_trips() {
    let payload = [b'x'; 32];
    let frame = encode(&payload);
    assert_eq!(frame.as_bytes(), &payload[..]);
    assert_eq!(frame.payload(), payload.to_vec());
}

#[test]
fn long_payload_is_cut_to_frame_size() {
    let payload: Vec<u8> = (1u8..=40).collect();
    let frame = encode(&payload);
    assert_eq!(frame.as_bytes(), &payload[..32]);
    assert_eq!(frame.payload(), payload[..32].to_vec());
}

#[test]
fn long_text_is_cut_without_error() {
    let text = "abcdefghijklmnopqrstuvwxyz0123456789";
    let frame = encode_text(text);
    assert_eq!(decode(&frame), Ok(String::from("abcdefghijklmnopqrstuvwxyz012345")));
}

#[test]
fn interior_zero_ends_the_payload() {
    let frame = encode(b"ab\0cd");
    assert_eq!(frame.as_bytes(), &padded(b"ab\0cd")[..]);
    assert_eq!(frame.payload(), b"ab".to_vec());
    assert_eq!(decode(&frame), Ok(String::from("ab")));
}

#[test]
fn leading_zero_in_long_payload_leaves_nothing() {
    let mut payload = vec![b'z'; 33];
    payload[0] = 0;
    assert_eq!(encode(&payload).payload(), Vec::<u8>::new());
}

#[test]
fn empty_payload_is_a_frame_of_zeros() {
    let frame = encode(b"");
    assert_eq!(frame.as_bytes(), &[0u8; 32][..]);
    assert_eq!(frame.payload(), Vec::<u8>::new());
    assert_eq!(decode(&frame), Ok(String::new()));
    assert_eq!(encode_text(""), frame);
}

#[test]
fn decode_reads_text_back() {
    assert_eq!(decode(&encode_text("hello")), Ok(String::from("hello")));
    assert_eq!(decode(&encode_text("gr\u{fc}\u{df} dich")), Ok(String::from("gr\u{fc}\u{df} dich")));
}

#[test]
fn encode_text_uses_the_utf8_bytes() {
    let frame = encode_text("\u{e9}");
    assert_eq!(frame.as_bytes(), &padded(&[0xc3, 0xa9])[..]);
}

#[test]
fn decode_refuses_invalid_utf8() {
    let frame = encode(&[0xff, 0xfe, 0x41]);
    assert_eq!(decode(&frame), Err(DecodeError::InvalidEncoding));
    assert_eq!(frame.payload(), vec![0xff, 0xfe, 0x41]);
}

#[test]
fn decode_refuses_a_character_cut_in_two() {
    let mut text = "a".repeat(31);
    text.push('\u{e9}');
    let frame = encode_text(&text);
    assert_eq!(frame.payload().len(), 32);
    assert_eq!(decode(&frame), Err(DecodeError::InvalidEncoding));
}

#[test]
fn from_bytes_wants_the_exact_size() {
    assert!(Frame::from_bytes(&[1u8; 31]).is_none());
    assert!(Frame::from_bytes(&[1u8; 33]).is_none());
    assert!(Frame::from_bytes(&[]).is_none());
    let frame = Frame::from_bytes(&[1u8; 32]).unwrap();
    assert_eq!(frame.as_bytes(), &[1u8; 32][..]);
    assert_eq!(frame.payload(), vec![1u8; 32]);
}

#[test]
fn frame_from_the_wire_reads_like_the_one_sent() {
    let sent = encode_text("hello");
    let received = Frame::from_bytes(sent.as_bytes()).unwrap();
    assert_eq!(received, sent);
    assert_eq!(decode(&received), Ok(String::from("hello")));
}

#[test]
fn bytes_after_the_first_zero_are_ignored() {
    let mut bytes = [0u8; 32];
    bytes[0] = b'o';
    bytes[1] = b'k';
    bytes[5] = 0xff;
    let frame = Frame::from_bytes(&bytes).unwrap();
    assert_eq!(decode(&frame), Ok(String::from("ok")));
}
