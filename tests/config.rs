use hermod::config::{ClientConfigBuilder, Config, ServerConfig};
use hermod::host::Host;
use hermod::log::{LogBuilder, LogLevel};
use hermod::request::{Request, RequestMethod, ServerRole};

#[test]
fn log_builder_settings() {
    let b = LogBuilder::with_verbosity(1).set_stdout(true).set_file(false);
    assert_eq!(b.get_verbosity(), 1);
    assert!(b.get_stdout());
    assert!(!b.get_file());
    assert_eq!(b.level(), LogLevel::Debug);
    assert_eq!(LogBuilder::new().level(), LogLevel::Info);
    assert_eq!(LogBuilder::new().set_verbosity(5).level(), LogLevel::Trace);
}

#[test]
fn server_config_from_key_texts() {
    let c = ServerConfig::from_key_texts(b"AQID", b"BAUG").unwrap();
    assert_eq!(c.get_public_key(), &[1, 2, 3]);
    assert_eq!(c.get_private_key(), &[4, 5, 6]);
    assert!(ServerConfig::from_key_texts(b"AQID", b"#").is_err());
    let keys = hermod::keys::create_server_keys().unwrap();
    let (public_text, private_text) = ServerConfig::key_texts(&keys);
    let back = ServerConfig::from_key_texts(&public_text, &private_text).unwrap();
    assert_eq!(back.get_public_key(), &keys.public[..]);
    assert_eq!(back.get_private_key(), &keys.private[..]);
}

#[test]
fn client_config_builder_needs_all_parts() {
    let host = Host::with_alias(b"box").set_hostname(b"h:4444").set_private_key(&[1]);
    let partial = ClientConfigBuilder::new(host.clone()).destination(b"dst");
    assert!(partial.build_config().is_none());
    let cfg = ClientConfigBuilder::new(host)
        .source(vec![b"a".to_vec()])
        .destination(b"dst")
        .request(RequestMethod::Upload)
        .build_config()
        .unwrap();
    assert_eq!(cfg.get_alias(), b"box");
    assert_eq!(cfg.get_hostname(), b"h:4444");
    assert_eq!(cfg.get_private_key(), &[1]);
}

#[test]
fn server_role_of_request() {
    let up = Request::file(b"a", b"b", RequestMethod::Upload);
    assert_eq!(up.server_role(), ServerRole::Receive);
    let down = Request::file(b"a", b"b", RequestMethod::Download);
    assert_eq!(down.server_role(), ServerRole::Send);
}
