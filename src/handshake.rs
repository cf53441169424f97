//! The Noise_KK handshake that opens a request session.
//!
//! The initiator sends `Init | id token | e, es, ss`; the responder, who knows
//! the token's public key from its identity store, answers
//! `Response | e, ee, se`. Both then switch to transport mode.
use vstd::prelude::*;

use snow::{HandshakeState, TransportState};

use crate::consts::{NOISE_PATTERN, HERMOD_HS_INIT_LEN, HERMOD_HS_RESP_LEN, ID_TOKEN_B64LEN};
use crate::dispatch::{init_packet, parse_response_packet, response_packet, split_init_body, INIT_BODY_LEN};
use crate::error::HermodError;
use crate::identity::IdentityStore;
use crate::message::{tag_of, MessageType};
use crate::session::{CipherEvent, NoiseStream};

verus! {

#[verifier::external_type_specification]
#[verifier::external_body]
pub struct ExHandshakeState(snow::HandshakeState);

/// Static keys of the X25519 function are 32 bytes.
pub const STATIC_KEY_LEN: usize = 32;

/// Relies on snow's `Builder` (`new`, `local_private_key`,
/// `remote_public_key`, `build_initiator`) with the Noise parameters that
/// `pattern` names; keys of 32 bytes are
/// copied into the handshake state without panicking.
#[verifier::external_body]
fn kk_initiator_state(pattern: &str, local_private: &[u8], remote_public: &[u8]) -> (r: Result<HandshakeState, HermodError>)
    requires
        local_private@.len() == STATIC_KEY_LEN,
        remote_public@.len() == STATIC_KEY_LEN,
    ensures
        r is Err ==> r->Err_0 == HermodError::Crypto,
{
    let params: snow::params::NoiseParams = pattern.parse().map_err(|_| HermodError::Crypto)?;
    snow::Builder::new(params)
        .local_private_key(local_private)
        .remote_public_key(remote_public)
        .build_initiator()
        .map_err(|_| HermodError::Crypto)
}

/// Relies on snow's `Builder` (`new`, `local_private_key`,
/// `remote_public_key`, `build_responder`) with the Noise parameters that
/// `pattern` names; keys of 32 bytes are
/// copied into the handshake state without panicking.
#[verifier::external_body]
fn kk_responder_state(pattern: &str, local_private: &[u8], remote_public: &[u8]) -> (r: Result<HandshakeState, HermodError>)
    requires
        local_private@.len() == STATIC_KEY_LEN,
        remote_public@.len() == STATIC_KEY_LEN,
    ensures
        r is Err ==> r->Err_0 == HermodError::Crypto,
{
    let params: snow::params::NoiseParams = pattern.parse().map_err(|_| HermodError::Crypto)?;
    snow::Builder::new(params)
        .local_private_key(local_private)
        .remote_public_key(remote_public)
        .build_responder()
        .map_err(|_| HermodError::Crypto)
}

/// Room that a handshake message may take beyond its payload: an ephemeral
/// key (32), a sealed static key (48) and the payload's tag (16).
pub const HS_WRITE_ROOM: usize = 96;

/// Relies on snow's `HandshakeState::write_message`: the next handshake
/// message is written at the front of `out`, and its length returned. snow
/// checks only part of the room a sealed static key takes, so `out` must
/// leave room for every token of a message.
#[verifier::external_body]
pub(crate) fn hs_write(hs: &mut HandshakeState, payload: &[u8], out: &mut Vec<u8>) -> (r: Result<usize, HermodError>)
    requires
        old(out)@.len() >= payload@.len() + HS_WRITE_ROOM,
    ensures
        final(out)@.len() == old(out)@.len(),
        r is Ok ==> r->Ok_0 <= old(out)@.len(),
        r is Err ==> r->Err_0 == HermodError::Crypto,
{
    hs.write_message(payload, out.as_mut_slice()).map_err(|_| HermodError::Crypto)
}

/// Relies on snow's `HandshakeState::read_message`: the peer's handshake
/// message is checked, and the length of its payload returned.
#[verifier::external_body]
pub(crate) fn hs_read(hs: &mut HandshakeState, message: &[u8], out: &mut Vec<u8>) -> (r: Result<usize, HermodError>)
    ensures
        final(out)@.len() == old(out)@.len(),
        r is Ok ==> r->Ok_0 <= old(out)@.len(),
        r is Err ==> r->Err_0 == HermodError::Crypto,
{
    hs.read_message(message, out.as_mut_slice()).map_err(|_| HermodError::Crypto)
}

/// Relies on snow's `HandshakeState::into_transport_mode`: the transport
/// state of a finished handshake.
#[verifier::external_body]
fn hs_into_transport(hs: HandshakeState) -> (r: Result<TransportState, HermodError>)
    ensures
        r is Err ==> r->Err_0 == HermodError::Crypto,
{
    hs.into_transport_mode().map_err(|_| HermodError::Crypto)
}

/// Whether a session has just been established: nothing sent or received.
pub open spec fn fresh(s: NoiseStream) -> bool {
    &&& s.wf()
    &&& s.sent_since_rekey() == 0
    &&& s.next_send_nonce() == 0
    &&& s.next_recv_nonce() == 0
    &&& s.outbound_log() == Seq::<CipherEvent>::empty()
    &&& s.inbound_log() == Seq::<CipherEvent>::empty()
}

/// Starts a handshake as initiator and returns the packet to send.
///
/// Fails with `Crypto` when a key is not 32 bytes, the token is not 12
/// bytes, or the Noise layer fails.
pub fn client_handshake(local_private: &[u8], server_key: &[u8], token: &[u8]) -> (r: Result<(HandshakeState, Vec<u8>), HermodError>)
    ensures
        r is Ok ==> {
            let p = r->Ok_0.1@;
            &&& p.len() == 1 + INIT_BODY_LEN
            &&& p[0] == tag_of(MessageType::Init)
            &&& p.subrange(1, 13) == token@
        },
        (local_private@.len() != STATIC_KEY_LEN || server_key@.len() != STATIC_KEY_LEN
            || token@.len() != ID_TOKEN_B64LEN) ==> r == Err::<(HandshakeState, Vec<u8>), HermodError>(HermodError::Crypto),
        r is Err ==> r->Err_0 == HermodError::Crypto,
{
    if local_private.len() != STATIC_KEY_LEN || server_key.len() != STATIC_KEY_LEN || token.len() != ID_TOKEN_B64LEN {
        return Err(HermodError::Crypto);
    }
    let mut hs = kk_initiator_state(NOISE_PATTERN, local_private, server_key)?;
    let mut buf: Vec<u8> = vec![0u8; HS_WRITE_ROOM];
    let n = hs_write(&mut hs, &[], &mut buf)?;
    if n != HERMOD_HS_INIT_LEN {
        return Err(HermodError::Crypto);
    }
    let packet = init_packet(token, &buf.as_slice()[0..n]);
    assert(packet@.subrange(1, 13) =~= token@);
    Ok((hs, packet))
}

impl NoiseStream {
    /// Completes a handshake as initiator with the responder's reply.
    ///
    /// Fails with `UnexpectedMessage` when the reply is not a `Response` packet of
    /// the right length, and with `Crypto` when the Noise layer refuses it.
    pub fn new_initiator(hs: HandshakeState, response: &[u8]) -> (r: Result<NoiseStream, HermodError>)
        ensures
            r is Ok ==> fresh(r->Ok_0),
            !(response@.len() == 1 + HERMOD_HS_RESP_LEN && response@[0] == tag_of(MessageType::Response))
                <==> (r is Err && r->Err_0 == HermodError::UnexpectedMessage),
            r is Err ==> r->Err_0 == HermodError::UnexpectedMessage || r->Err_0 == HermodError::Crypto,
    {
        let mut hs = hs;
        let blob = match parse_response_packet(response) {
            Some(b) => b,
            None => {
                return Err(HermodError::UnexpectedMessage);
            },
        };
        let mut payload: Vec<u8> = vec![0u8; HERMOD_HS_RESP_LEN];
        hs_read(&mut hs, blob.as_slice(), &mut payload)?;
        let transport = hs_into_transport(hs)?;
        Ok(NoiseStream::new(transport))
    }

    /// Answers a request session's opening as responder: `body` is what follows
    /// the `Init` tag.
    ///
    /// Fails with `UnexpectedMessage` when the body has the wrong length, with
    /// `UnknownIdentity` when the store does not hold its token, and with
    /// `Crypto` when a key is not 32 bytes or the Noise layer refuses the
    /// handshake. On success it returns the session and the packet to send.
    pub fn new_responder(store: &IdentityStore, server_private: &[u8], body: &[u8]) -> (r: Result<(NoiseStream, Vec<u8>), HermodError>)
        requires
            store.wf(),
        ensures
            body@.len() != INIT_BODY_LEN ==> r is Err && r->Err_0 == HermodError::UnexpectedMessage,
            (r is Err && r->Err_0 == HermodError::UnexpectedMessage) <==> body@.len() != INIT_BODY_LEN,
            (r is Err && r->Err_0 == HermodError::UnknownIdentity) <==> (body@.len() == INIT_BODY_LEN
                && !store@.contains_key(body@.subrange(0, 12))),
            body@.len() == INIT_BODY_LEN && store@.contains_key(body@.subrange(0, 12)) && (
            server_private@.len() != STATIC_KEY_LEN || store@[body@.subrange(0, 12)].len()
                != STATIC_KEY_LEN) ==> r is Err && r->Err_0 == HermodError::Crypto,
            r is Ok ==> {
                &&& body@.len() == INIT_BODY_LEN
                &&& store@.contains_key(body@.subrange(0, 12))
                &&& server_private@.len() == STATIC_KEY_LEN
                &&& store@[body@.subrange(0, 12)].len() == STATIC_KEY_LEN
                &&& fresh(r->Ok_0.0)
                &&& r->Ok_0.1@.len() == 1 + HERMOD_HS_RESP_LEN
                &&& r->Ok_0.1@[0] == tag_of(MessageType::Response)
            },
            r is Err ==> r->Err_0 == HermodError::UnexpectedMessage || r->Err_0
                == HermodError::UnknownIdentity || r->Err_0 == HermodError::Crypto,
    {
        let (token, blob) = match split_init_body(body) {
            Some(parts) => parts,
            None => {
                return Err(HermodError::UnexpectedMessage);
            },
        };
        let client = store.lookup(token.as_slice())?;
        if server_private.len() != STATIC_KEY_LEN || client.client_key.len() != STATIC_KEY_LEN {
            return Err(HermodError::Crypto);
        }
        let mut hs = kk_responder_state(NOISE_PATTERN, server_private, client.client_key.as_slice())?;
        let mut payload: Vec<u8> = vec![0u8; HERMOD_HS_INIT_LEN];
        hs_read(&mut hs, blob.as_slice(), &mut payload)?;
        let mut reply: Vec<u8> = vec![0u8; HS_WRITE_ROOM];
        let n = hs_write(&mut hs, &[], &mut reply)?;
        if n != HERMOD_HS_RESP_LEN {
            return Err(HermodError::Crypto);
        }
        let transport = hs_into_transport(hs)?;
        let packet = response_packet(&reply.as_slice()[0..n]);
        Ok((NoiseStream::new(transport), packet))
    }
}

} // verus!
