use hermod::keys::{create_server_keys, gen_idtoken, gen_keys};

#[test]
fn it_works() {
    assert_eq!(2 + 2, 4);
}

#[test]
fn diff_gen_keys() {
    let key1 = gen_keys().unwrap();
    let key2 = gen_keys().unwrap();

    assert_ne!(key1.private, key2.private);
    assert_ne!(key1.public, key2.public);
}

#[test]
fn diff_server_keys() {
    let key1 = create_server_keys().unwrap();
    let key2 = create_server_keys().unwrap();

    assert_ne!(key1.private, key2.private);
    assert_ne!(key1.public, key2.public);
}

#[test]
fn diff_gen_idtoken() {
    let token1 = gen_idtoken();
    let token2 = gen_idtoken();

    assert_ne!(token1, token2);
}

#[test]
fn keys_are_32_bytes_and_token_12_base64_chars() {
    let k = gen_keys().unwrap();
    assert_eq!(k.private.len(), 32);
    assert_eq!(k.public.len(), 32);
    let t = gen_idtoken();
    assert_eq!(t.len(), 12);
    assert!(t.iter().all(|c| c.is_ascii_alphanumeric() || *c == b'+' || *c == b'/' || *c == b'='));
}
