use hermod::error::HermodError;
use hermod::host::load_host;
use hermod::identity::Identity;
use hermod::keys::{gen_idtoken, gen_keys};
use hermod::share_key::{
    enrolled_host, share_key_accept, share_key_ack, share_key_confirmed, share_key_identify,
    share_key_reply, share_key_start,
};

#[test]
fn enrolment_installs_identity_and_server_key() {
    let client = gen_keys().unwrap();
    let server = gen_keys().unwrap();
    let token = gen_idtoken();

    let (client_hs, opening) = share_key_start(&client.private).unwrap();
    assert_eq!(opening.len(), 33);
    assert_eq!(opening[0], 10);
    let (server_hs, reply) = share_key_reply(&server.private, &opening[1..]).unwrap();
    assert_eq!(reply.len(), 97);
    assert_eq!(reply[0], 11);
    let (last, server_key) = share_key_identify(client_hs, &reply, &token).unwrap();
    assert_eq!(last.len(), 77);
    assert_eq!(server_key, server.public);
    let id = share_key_accept(server_hs, &last).unwrap();
    assert_eq!(id.get_id(), &token[..]);
    assert_eq!(id.get_public_key(), &client.public[..]);
    assert_eq!(share_key_confirmed(share_key_ack()), Ok(()));
    assert_eq!(share_key_confirmed(7), Err(HermodError::UnexpectedMessage));

    let mut file = Vec::new();
    file.extend(id.to_line());
    let store = Identity::load_clients(&file).unwrap();
    assert_eq!(store.lookup(&token).unwrap().get_public_key(), &client.public[..]);

    let host = enrolled_host(b"srv", b"10.1.1.1:4444", &token, &client, &server_key);
    let loaded = load_host(b"srv", &host.write_record()).unwrap();
    assert_eq!(loaded.server_key(), &server.public[..]);
    assert_eq!(loaded.id_token(), &token[..]);
    assert_eq!(loaded.hostname(), b"10.1.1.1:4444");
}

#[test]
fn enrolment_rejects_wrong_tag() {
    let client = gen_keys().unwrap();
    let server = gen_keys().unwrap();
    let (client_hs, opening) = share_key_start(&client.private).unwrap();
    let (_server_hs, mut reply) = share_key_reply(&server.private, &opening[1..]).unwrap();
    reply[0] = 9;
    assert_eq!(
        share_key_identify(client_hs, &reply, &gen_idtoken()).err(),
        Some(HermodError::UnexpectedMessage)
    );
}

#[test]
fn enrolment_rejects_tampered_message() {
    let client = gen_keys().unwrap();
    let server = gen_keys().unwrap();
    let token = gen_idtoken();
    let (client_hs, opening) = share_key_start(&client.private).unwrap();
    let (server_hs, reply) = share_key_reply(&server.private, &opening[1..]).unwrap();
    let (mut last, _) = share_key_identify(client_hs, &reply, &token).unwrap();
    last[40] ^= 0xff;
    assert_eq!(share_key_accept(server_hs, &last).err(), Some(HermodError::Crypto));
}
