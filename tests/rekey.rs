use hermod::error::HermodError;
use hermod::message::MessageType;
use hermod::session::NoiseStream;

fn raw_pair() -> (snow::TransportState, snow::TransportState) {
    let params: snow::params::NoiseParams = "Noise_KK_25519_ChaChaPoly_BLAKE2s".parse().unwrap();
    let a = snow::Builder::new(params.clone()).generate_keypair().unwrap();
    let b = snow::Builder::new(params.clone()).generate_keypair().unwrap();
    let mut ini = snow::Builder::new(params.clone())
        .local_private_key(&a.private)
        .remote_public_key(&b.public)
        .build_initiator()
        .unwrap();
    let mut res = snow::Builder::new(params)
        .local_private_key(&b.private)
        .remote_public_key(&a.public)
        .build_responder()
        .unwrap();
    let mut buf = vec![0u8; 1024];
    let mut out = vec![0u8; 1024];
    let n = ini.write_message(&[], &mut buf).unwrap();
    res.read_message(&buf[..n], &mut out).unwrap();
    let n = res.write_message(&[], &mut buf).unwrap();
    ini.read_message(&buf[..n], &mut out).unwrap();
    (ini.into_transport_mode().unwrap(), res.into_transport_mode().unwrap())
}

fn rotated_frame(t: &mut snow::TransportState, payload: &[u8]) -> Vec<u8> {
    t.rekey_outgoing();
    let mut buf = vec![0u8; payload.len() + 16];
    let n = t.write_message(payload, &mut buf).unwrap();
    let mut f = vec![4u8, (n >> 8) as u8, n as u8];
    f.extend_from_slice(&buf[..n]);
    f
}

#[test]
fn rekey_byte_rotates_before_opening() {
    let (mut sender, receiver) = raw_pair();
    let mut session = NoiseStream::new(receiver);
    let mut wire = vec![15u8];
    wire.extend(rotated_frame(&mut sender, b"after rekey"));
    let m = session.recv(&wire).unwrap();
    assert_eq!(m.get_type(), MessageType::Payload);
    assert_eq!(m.get_payload(), b"after rekey");
}

#[test]
fn rotated_frame_does_not_open_under_old_key() {
    let (mut sender, receiver) = raw_pair();
    let mut session = NoiseStream::new(receiver);
    let wire = rotated_frame(&mut sender, b"after rekey");
    assert_eq!(session.recv(&wire).err(), Some(HermodError::Decrypt));
}
