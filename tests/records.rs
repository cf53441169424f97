use hermod::error::HermodError;
use hermod::host::{load_host, Host};
use hermod::identity::{Identity, IdentityStore};
use hermod::peer::Peer;

fn sample_host() -> Host {
    Host::with_alias(b"box")
        .set_hostname(b"10.0.0.1:4444")
        .set_id_token(b"QUJDREVGR0g=")
        .set_public_key(&[1u8; 32])
        .set_private_key(&[2u8; 32])
        .set_server_key(&[3u8; 32])
}

#[test]
fn host_record_text() {
    let text = sample_host().write_record();
    let text = String::from_utf8(text).unwrap();
    let lines: Vec<&str> = text.lines().collect();
    assert_eq!(lines.len(), 5);
    assert_eq!(lines[0], "Hostname: 10.0.0.1:4444");
    assert_eq!(lines[1], "PublicKey: AQEBAQEBAQEBAQEBAQEBAQEBAQEBAQEBAQEBAQEBAQE=");
    assert_eq!(lines[3], "IdToken: QUJDREVGR0g=");
}

#[test]
fn host_record_round_trip() {
    let h = sample_host();
    let loaded = load_host(b"box", &h.write_record()).unwrap();
    assert_eq!(loaded.alias(), h.alias());
    assert_eq!(loaded.hostname(), h.hostname());
    assert_eq!(loaded.id_token(), h.id_token());
    assert_eq!(loaded.public_key(), h.public_key());
    assert_eq!(loaded.private_key(), h.private_key());
    assert_eq!(loaded.server_key(), h.server_key());
}

#[test]
fn host_record_any_order_unknown_keys() {
    let text = b"ServerKey: AwMD\nColour: blue\n\nHostname:   example.org:4444  \nIdToken: tok\n";
    let h = load_host(b"x", text).unwrap();
    assert_eq!(h.server_key(), &[3, 3, 3]);
    assert_eq!(h.hostname(), b"example.org:4444");
    assert_eq!(h.id_token(), b"tok");
    assert!(h.public_key().is_empty());
}

#[test]
fn host_record_bad_base64() {
    assert_eq!(load_host(b"x", b"PublicKey: !!!\n").err(), Some(HermodError::B64Decode));
}

#[test]
fn identity_line_and_reload() {
    let id = Identity::new(b"QUJDREVGR0g=".to_vec(), vec![7u8; 32]);
    let line = id.to_line();
    assert_eq!(
        String::from_utf8(line.clone()).unwrap(),
        "QUJDREVGR0g=:BwcHBwcHBwcHBwcHBwcHBwcHBwcHBwcHBwcHBwcHBwc=\n"
    );
    let mut file = b"AAAAAAAAAAA=:AQID\n".to_vec();
    file.extend(line);
    let store = Identity::load_clients(&file).unwrap();
    assert_eq!(store.len(), 2);
    assert_eq!(store.lookup(b"QUJDREVGR0g=").unwrap().get_public_key(), &[7u8; 32][..]);
    assert_eq!(store.lookup(b"AAAAAAAAAAA=").unwrap().get_public_key(), &[1, 2, 3]);
}

#[test]
fn identity_store_insert_replaces() {
    let mut store = IdentityStore::new();
    store.insert(Identity::new(b"a".to_vec(), vec![1]));
    store.insert(Identity::new(b"b".to_vec(), vec![2]));
    store.insert(Identity::new(b"a".to_vec(), vec![3]));
    assert_eq!(store.len(), 2);
    assert_eq!(store.lookup(b"a").unwrap().get_public_key(), &[3]);
    assert_eq!(store.identities().len(), 2);
}

#[test]
fn unknown_identity_lookup() {
    let store = Identity::load_clients(b"").unwrap();
    assert_eq!(store.lookup(b"nobody").err(), Some(HermodError::UnknownIdentity));
    assert!(matches!(Peer::new_client_peer(&store, b"nobody"), Err(HermodError::UnknownIdentity)));
}

#[test]
fn client_peer_from_store() {
    let mut store = IdentityStore::new();
    store.insert(Identity::new(b"tok".to_vec(), vec![9, 9]));
    let p = Peer::new_client_peer(&store, b"tok").unwrap();
    assert_eq!(p.get_id(), b"tok");
    assert_eq!(p.get_public_key(), &[9, 9]);
    let s = Peer::new_server_peer(sample_host());
    assert_eq!(s.get_public_key(), &[3u8; 32][..]);
}
