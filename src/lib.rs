//! Hermod: authenticated, encrypted file transfer over the Noise protocol.
//!
//! The library holds the protocol engine: message tags, the frame codec, the
//! Noise transport session with in-band rekeying, the text formats of host
//! records and authorised identities, and the decisions of the server
//! dispatcher and of the transfer state machines. Sockets, files, tasks and
//! the command line live around it.
pub mod bytes;
pub mod config;
pub mod consts;
pub mod dispatch;
pub mod encoding;
pub mod error;
pub mod frame;
pub mod handshake;
pub mod host;
pub mod identity;
pub mod keys;
pub mod log;
pub mod message;
pub mod paths;
pub mod peer;
pub mod request;
pub mod session;
pub mod share_key;
pub mod text;
pub mod transfer;
