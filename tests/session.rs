use hermod::error::HermodError;
use hermod::handshake::client_handshake;
use hermod::identity::{Identity, IdentityStore};
use hermod::keys::gen_keys;
use hermod::message::{Message, MessageType};
use hermod::session::NoiseStream;

fn pair() -> (NoiseStream, NoiseStream) {
    let client = gen_keys().unwrap();
    let server = gen_keys().unwrap();
    let token = b"AAAAAAAAAAA=".to_vec();
    let mut store = IdentityStore::new();
    store.insert(Identity::new(token.clone(), client.public.clone()));
    let (hs, init) = client_handshake(&client.private, &server.public, &token).unwrap();
    assert_eq!(init.len(), 61);
    assert_eq!(init[0], 1);
    let (srv, reply) = NoiseStream::new_responder(&store, &server.private, &init[1..]).unwrap();
    assert_eq!(reply.len(), 49);
    assert_eq!(reply[0], 2);
    let cli = NoiseStream::new_initiator(hs, &reply).unwrap();
    (cli, srv)
}

#[test]
fn frame_length_counts_ciphertext() {
    let (mut cli, mut srv) = pair();
    let wire = cli.send(&Message::new(MessageType::Payload, b"hello")).unwrap();
    assert_eq!(wire.len(), 3 + 5 + 16);
    assert_eq!(wire[0], 4);
    assert_eq!(u16::from_be_bytes([wire[1], wire[2]]) as usize, wire.len() - 3);
    let m = srv.recv(&wire).unwrap();
    assert_eq!(m.get_type(), MessageType::Payload);
    assert_eq!(m.get_payload(), b"hello");
    assert_eq!(m.get_payload().len(), wire.len() - 3 - 16);
}

#[test]
fn nonces_advance_per_direction() {
    let (mut cli, mut srv) = pair();
    for i in 0..3u64 {
        assert_eq!(cli.sending_nonce(), i);
        let wire = cli.send(&Message::new(MessageType::Payload, &[i as u8])).unwrap();
        srv.recv(&wire).unwrap();
        assert_eq!(srv.receiving_nonce(), i + 1);
    }
    assert_eq!(cli.receiving_nonce(), 0);
    assert_eq!(srv.sending_nonce(), 0);
    let back = srv.send(&Message::new(MessageType::EOF, &[])).unwrap();
    let m = cli.recv(&back).unwrap();
    assert_eq!(m.get_type(), MessageType::EOF);
    assert_eq!(cli.receiving_nonce(), 1);
    assert_eq!(cli.bytes_sent(), 3 * 17);
}

#[test]
fn close_is_a_lone_byte() {
    let (mut cli, mut srv) = pair();
    let wire = cli.send(&Message::new(MessageType::Close, &[])).unwrap();
    assert_eq!(wire, vec![8]);
    let m = srv.recv(&wire).unwrap();
    assert_eq!(m.get_type(), MessageType::Close);
    assert!(m.is_empty());
    assert_eq!(cli.sending_nonce(), 0);
}

#[test]
fn tampered_frame_fails_to_decrypt() {
    let (mut cli, mut srv) = pair();
    let mut wire = cli.send(&Message::new(MessageType::Payload, b"data")).unwrap();
    let last = wire.len() - 1;
    wire[last] ^= 1;
    assert_eq!(srv.recv(&wire).err(), Some(HermodError::Decrypt));
}

#[test]
fn short_frame_is_an_io_error() {
    let (mut cli, mut srv) = pair();
    let wire = cli.send(&Message::new(MessageType::Payload, b"data")).unwrap();
    assert_eq!(srv.recv(&wire[..wire.len() - 1]).err(), Some(HermodError::IoError));
}

#[test]
fn unknown_identity_fails_handshake() {
    let client = gen_keys().unwrap();
    let server = gen_keys().unwrap();
    let token = b"BBBBBBBBBBB=".to_vec();
    let store = IdentityStore::new();
    let (_hs, init) = client_handshake(&client.private, &server.public, &token).unwrap();
    assert_eq!(
        NoiseStream::new_responder(&store, &server.private, &init[1..]).err(),
        Some(HermodError::UnknownIdentity)
    );
}

#[test]
fn wrong_static_key_fails_handshake() {
    let client = gen_keys().unwrap();
    let other = gen_keys().unwrap();
    let server = gen_keys().unwrap();
    let token = b"CCCCCCCCCCC=".to_vec();
    let mut store = IdentityStore::new();
    store.insert(Identity::new(token.clone(), other.public.clone()));
    let (_hs, init) = client_handshake(&client.private, &server.public, &token).unwrap();
    assert_eq!(
        NoiseStream::new_responder(&store, &server.private, &init[1..]).err(),
        Some(HermodError::Crypto)
    );
}

#[test]
fn rekey_tag_is_not_a_message() {
    let (mut cli, _srv) = pair();
    assert_eq!(
        cli.send(&Message::new(MessageType::Rekey, &[])).err(),
        Some(HermodError::UnexpectedMessage)
    );
    assert_eq!(cli.sending_nonce(), 0);
}

#[test]
fn responder_key_length_is_checked() {
    let client = gen_keys().unwrap();
    let server = gen_keys().unwrap();
    let token = b"DDDDDDDDDDD=".to_vec();
    let mut store = IdentityStore::new();
    store.insert(Identity::new(token.clone(), vec![1u8; 31]));
    let (_hs, init) = client_handshake(&client.private, &server.public, &token).unwrap();
    assert_eq!(
        NoiseStream::new_responder(&store, &server.private, &init[1..]).err(),
        Some(HermodError::Crypto)
    );
    assert_eq!(
        NoiseStream::new_responder(&store, &server.private, &init[2..]).err(),
        Some(HermodError::UnexpectedMessage)
    );
}

#[test]
fn initiator_rejects_malformed_reply() {
    let client = gen_keys().unwrap();
    let server = gen_keys().unwrap();
    let (hs, _init) = client_handshake(&client.private, &server.public, b"EEEEEEEEEEE=").unwrap();
    assert_eq!(
        NoiseStream::new_initiator(hs, &[2u8; 10]).err(),
        Some(HermodError::UnexpectedMessage)
    );
}
