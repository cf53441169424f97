use hermod::dispatch::{classify_first_byte, request_loop_step, split_init_body, Dispatch, LoopStep};
use hermod::frame::{bytes_needed, encode_frame, parse_unit, Unit};
use hermod::message::{Message, MessageType};

#[test]
fn tags_round_trip() {
    for b in 1u8..=15 {
        assert_eq!(MessageType::from_u8(b).to_u8(), b);
    }
    assert_eq!(MessageType::from(15u8), MessageType::Rekey);
    assert_eq!(MessageType::from(14u8), MessageType::EndOfResponse);
    assert_eq!(MessageType::from(0u8), MessageType::Unknown);
    assert_eq!(MessageType::from(16u8), MessageType::Unknown);
    assert_eq!(MessageType::Close.to_u8(), 8);
    assert_eq!(MessageType::Init.name(), "Init");
}

#[test]
fn message_accessors() {
    let m = Message::new(MessageType::Payload, &[1, 2, 3]);
    assert_eq!(m.get_type(), MessageType::Payload);
    assert_eq!(m.get_payload(), &[1, 2, 3]);
    assert_eq!(m.len(), 4);
    assert!(!m.is_empty());
    assert!(Message::new(MessageType::EOF, &[]).is_empty());
}

#[test]
fn frame_encoding_is_tag_length_body() {
    let body: Vec<u8> = (0..300u32).map(|i| i as u8).collect();
    let f = encode_frame(4, &body);
    assert_eq!(f.len(), 303);
    assert_eq!(&f[..3], &[4, 1, 44]);
    assert_eq!(&f[3..], &body[..]);
}

#[test]
fn reader_asks_for_exactly_one_unit() {
    assert_eq!(bytes_needed(&[]), 1);
    assert_eq!(bytes_needed(&[15]), 1);
    assert_eq!(bytes_needed(&[8]), 0);
    assert_eq!(bytes_needed(&[4]), 2);
    assert_eq!(bytes_needed(&[4, 0]), 1);
    assert_eq!(bytes_needed(&[4, 0, 20]), 20);
    assert_eq!(bytes_needed(&[15, 4, 0, 2, 9]), 1);
    assert_eq!(bytes_needed(&[15, 4, 0, 2, 9, 9]), 0);
}

#[test]
fn units_are_located() {
    assert_eq!(
        parse_unit(&[15, 15, 8]),
        Some(Unit { rekeys: 2, tag: 8, body_start: 3, body_len: 0 })
    );
    assert_eq!(
        parse_unit(&[15, 5, 0, 2, 7, 7]),
        Some(Unit { rekeys: 1, tag: 5, body_start: 4, body_len: 2 })
    );
    assert_eq!(parse_unit(&[5, 0, 2, 7]), None);
    assert_eq!(parse_unit(&[5, 0, 2, 7, 7, 7]), None);
    assert_eq!(parse_unit(&[8, 8]), None);
}

#[test]
fn dispatcher_drops_unknown_first_bytes() {
    assert_eq!(classify_first_byte(1), Dispatch::RequestSession);
    assert_eq!(classify_first_byte(10), Dispatch::ShareKey);
    for b in [0u8, 2, 3, 8, 9, 11, 15, 200] {
        assert_eq!(classify_first_byte(b), Dispatch::Drop);
    }
}

#[test]
fn request_loop_decisions() {
    assert_eq!(request_loop_step(MessageType::Request), LoopStep::Serve);
    assert_eq!(request_loop_step(MessageType::Close), LoopStep::Close);
    assert_eq!(request_loop_step(MessageType::Error), LoopStep::PeerError);
    assert_eq!(request_loop_step(MessageType::Payload), LoopStep::Violation);
}

#[test]
fn init_body_splits_into_token_and_handshake() {
    let body: Vec<u8> = (0..60u8).collect();
    let (token, hs) = split_init_body(&body).unwrap();
    assert_eq!(token, (0..12u8).collect::<Vec<u8>>());
    assert_eq!(hs, (12..60u8).collect::<Vec<u8>>());
    assert!(split_init_body(&body[..59]).is_none());
}
