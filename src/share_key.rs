//! Enrolment of a new client identity at a server, over Noise_XX.
//!
//! 1. client: `ShareKeyInit | e`
//! 2. server: `ShareKeyResp | e, ee, s, es`
//! 3. client: `ShareKeyResp | s, se` carrying the id token
//! 4. server: stores the identity and answers `Okay`
//!
//! Neither side keeps anything unless every step succeeds.
use vstd::prelude::*;

use snow::HandshakeState;

use crate::bytes::{append_bytes, copy_range};
use crate::consts::{HERMOD_KS_INIT_LEN, HERMOD_KS_RES1_LEN, HERMOD_KS_RES2_LEN, ID_TOKEN_B64LEN, SHARE_KEY_PATTERN};
use crate::error::HermodError;
use crate::handshake::{hs_read, hs_write, HS_WRITE_ROOM, STATIC_KEY_LEN};
use crate::host::{empty_host, Host, HostView};
use crate::identity::Identity;
use crate::keys::KeyPair;
use crate::message::{tag_of, MessageType};

verus! {

/// Relies on snow's `Builder` (`new`, `local_private_key`, `build_initiator`)
/// with the Noise parameters that `pattern` names; a key of 32 bytes is
/// copied into the handshake state without panicking.
#[verifier::external_body]
fn xx_initiator_state(pattern: &str, local_private: &[u8]) -> (r: Result<HandshakeState, HermodError>)
    requires
        local_private@.len() == STATIC_KEY_LEN,
    ensures
        r is Err ==> r->Err_0 == HermodError::Crypto,
{
    let params: snow::params::NoiseParams = pattern.parse().map_err(|_| HermodError::Crypto)?;
    snow::Builder::new(params).local_private_key(local_private).build_initiator().map_err(|_| HermodError::Crypto)
}

/// Relies on snow's `Builder` (`new`, `local_private_key`, `build_responder`)
/// with the Noise parameters that `pattern` names; a key of 32 bytes is
/// copied into the handshake state without panicking.
#[verifier::external_body]
fn xx_responder_state(pattern: &str, local_private: &[u8]) -> (r: Result<HandshakeState, HermodError>)
    requires
        local_private@.len() == STATIC_KEY_LEN,
    ensures
        r is Err ==> r->Err_0 == HermodError::Crypto,
{
    let params: snow::params::NoiseParams = pattern.parse().map_err(|_| HermodError::Crypto)?;
    snow::Builder::new(params).local_private_key(local_private).build_responder().map_err(|_| HermodError::Crypto)
}

/// Relies on snow's `HandshakeState::get_remote_static`: the peer's static
/// public key once a handshake message has disclosed it.
#[verifier::external_body]
fn hs_remote_static(hs: &HandshakeState) -> (r: Option<Vec<u8>>) {
    hs.get_remote_static().map(|k| k.to_vec())
}

/// A packet of a tag followed by a body.
pub open spec fn tagged(t: MessageType, body: Seq<u8>) -> Seq<u8> {
    seq![tag_of(t)] + body
}

fn tagged_packet(t: MessageType, body: &[u8]) -> (r: Vec<u8>)
    ensures
        r@ == tagged(t, body@),
{
    let mut r: Vec<u8> = Vec::new();
    r.push(t.to_u8());
    append_bytes(&mut r, body);
    r
}

/// Client, step 1: the enrolment handshake and the packet that opens it.
pub fn share_key_start(client_private: &[u8]) -> (r: Result<(HandshakeState, Vec<u8>), HermodError>)
    ensures
        r is Ok ==> r->Ok_0.1@.len() == 1 + HERMOD_KS_INIT_LEN && r->Ok_0.1@[0] == tag_of(
            MessageType::ShareKeyInit,
        ),
        client_private@.len() != STATIC_KEY_LEN ==> r is Err,
        r is Err ==> r->Err_0 == HermodError::Crypto,
{
    if client_private.len() != STATIC_KEY_LEN {
        return Err(HermodError::Crypto);
    }
    let mut hs = xx_initiator_state(SHARE_KEY_PATTERN, client_private)?;
    let mut buf: Vec<u8> = vec![0u8; HS_WRITE_ROOM];
    let n = hs_write(&mut hs, &[], &mut buf)?;
    if n != HERMOD_KS_INIT_LEN {
        return Err(HermodError::Crypto);
    }
    let packet = tagged_packet(MessageType::ShareKeyInit, &buf.as_slice()[0..n]);
    Ok((hs, packet))
}

/// Server, step 2: answers the opening message (what follows the
/// `ShareKeyInit` tag) with a packet that discloses the server's static key.
pub fn share_key_reply(server_private: &[u8], opening: &[u8]) -> (r: Result<(HandshakeState, Vec<u8>), HermodError>)
    ensures
        r is Ok ==> r->Ok_0.1@.len() == HERMOD_KS_RES1_LEN && r->Ok_0.1@[0] == tag_of(
            MessageType::ShareKeyResp,
        ),
        (server_private@.len() != STATIC_KEY_LEN || opening@.len() != HERMOD_KS_INIT_LEN) ==> r is Err,
        r is Err ==> r->Err_0 == HermodError::Crypto,
{
    if server_private.len() != STATIC_KEY_LEN || opening.len() != HERMOD_KS_INIT_LEN {
        return Err(HermodError::Crypto);
    }
    let mut hs = xx_responder_state(SHARE_KEY_PATTERN, server_private)?;
    let mut scratch: Vec<u8> = vec![0u8; HERMOD_KS_INIT_LEN];
    hs_read(&mut hs, opening, &mut scratch)?;
    let mut buf: Vec<u8> = vec![0u8; HS_WRITE_ROOM];
    let n = hs_write(&mut hs, &[], &mut buf)?;
    if n != HERMOD_KS_RES1_LEN - 1 {
        return Err(HermodError::Crypto);
    }
    let packet = tagged_packet(MessageType::ShareKeyResp, &buf.as_slice()[0..n]);
    Ok((hs, packet))
}

/// Client, step 3: reads the server's reply and returns the packet that
/// carries the id token, together with the server's static key.
pub fn share_key_identify(hs: HandshakeState, reply: &[u8], token: &[u8]) -> (r: Result<(Vec<u8>, Vec<u8>), HermodError>)
    ensures
        r is Ok ==> r->Ok_0.0@.len() == HERMOD_KS_RES2_LEN && r->Ok_0.0@[0] == tag_of(
            MessageType::ShareKeyResp,
        ) && r->Ok_0.1@.len() == STATIC_KEY_LEN,
        !(reply@.len() == HERMOD_KS_RES1_LEN && reply@[0] == tag_of(MessageType::ShareKeyResp))
            <==> (r is Err && r->Err_0 == HermodError::UnexpectedMessage),
        token@.len() != ID_TOKEN_B64LEN ==> r is Err,
        r is Err ==> r->Err_0 == HermodError::UnexpectedMessage || r->Err_0 == HermodError::Crypto,
{
    let mut hs = hs;
    if reply.len() != HERMOD_KS_RES1_LEN || reply[0] != MessageType::ShareKeyResp.to_u8() {
        return Err(HermodError::UnexpectedMessage);
    }
    if token.len() != ID_TOKEN_B64LEN {
        return Err(HermodError::Crypto);
    }
    let body = copy_range(reply, 1, reply.len());
    let mut scratch: Vec<u8> = vec![0u8; HERMOD_KS_RES1_LEN];
    hs_read(&mut hs, body.as_slice(), &mut scratch)?;
    let server_key = match hs_remote_static(&hs) {
        Some(k) => k,
        None => {
            return Err(HermodError::Crypto);
        },
    };
    if server_key.len() != STATIC_KEY_LEN {
        return Err(HermodError::Crypto);
    }
    let mut buf: Vec<u8> = vec![0u8; ID_TOKEN_B64LEN + HS_WRITE_ROOM];
    let n = hs_write(&mut hs, token, &mut buf)?;
    if n != HERMOD_KS_RES2_LEN - 1 {
        return Err(HermodError::Crypto);
    }
    let packet = tagged_packet(MessageType::ShareKeyResp, &buf.as_slice()[0..n]);
    Ok((packet, server_key))
}

/// Server, step 4: reads the client's last message and returns the identity
/// to store; the caller then stores it and answers `Okay`.
pub fn share_key_accept(hs: HandshakeState, last: &[u8]) -> (r: Result<Identity, HermodError>)
    ensures
        r is Ok ==> r->Ok_0.id_token@.len() == ID_TOKEN_B64LEN && r->Ok_0.client_key@.len()
            == STATIC_KEY_LEN,
        !(last@.len() == HERMOD_KS_RES2_LEN && last@[0] == tag_of(MessageType::ShareKeyResp))
            <==> (r is Err && r->Err_0 == HermodError::UnexpectedMessage),
        r is Err ==> r->Err_0 == HermodError::UnexpectedMessage || r->Err_0 == HermodError::Crypto,
{
    let mut hs = hs;
    if last.len() != HERMOD_KS_RES2_LEN || last[0] != MessageType::ShareKeyResp.to_u8() {
        return Err(HermodError::UnexpectedMessage);
    }
    let body = copy_range(last, 1, last.len());
    let mut payload: Vec<u8> = vec![0u8; HERMOD_KS_RES2_LEN];
    let n = hs_read(&mut hs, body.as_slice(), &mut payload)?;
    if n != ID_TOKEN_B64LEN {
        return Err(HermodError::Crypto);
    }
    let token = copy_range(payload.as_slice(), 0, n);
    let client_key = match hs_remote_static(&hs) {
        Some(k) => k,
        None => {
            return Err(HermodError::Crypto);
        },
    };
    if client_key.len() != STATIC_KEY_LEN {
        return Err(HermodError::Crypto);
    }
    Ok(Identity::new(token, client_key))
}

/// The server's acknowledgement of an enrolment.
pub fn share_key_ack() -> (r: u8)
    ensures
        r == tag_of(MessageType::Okay),
{
    MessageType::Okay.to_u8()
}

/// Client, step 4: whether the server acknowledged the enrolment.
pub fn share_key_confirmed(b: u8) -> (r: Result<(), HermodError>)
    ensures
        r is Ok <==> b == tag_of(MessageType::Okay),
        r is Err ==> r->Err_0 == HermodError::UnexpectedMessage,
{
    if b == MessageType::Okay.to_u8() {
        Ok(())
    } else {
        Err(HermodError::UnexpectedMessage)
    }
}

/// The host record a client keeps after a successful enrolment.
pub fn enrolled_host(alias: &[u8], hostname: &[u8], token: &[u8], keys: &KeyPair, server_key: &[u8]) -> (r: Host)
    ensures
        r@ == (HostView {
            hostname: hostname@,
            id_token: token@,
            public_key: keys.public@,
            private_key: keys.private@,
            server_key: server_key@,
            ..empty_host(alias@)
        }),
{
    let h = Host::with_alias(alias)
        .set_hostname(hostname)
        .set_id_token(token)
        .set_server_key(server_key)
        .set_private_key(keys.private.as_slice())
        .set_public_key(keys.public.as_slice());
    assert(h@.hostname =~= hostname@);
    assert(h@.id_token =~= token@);
    assert(h@.server_key =~= server_key@);
    assert(h@.private_key =~= keys.private@);
    assert(h@.public_key =~= keys.public@);
    h
}

} // verus!
