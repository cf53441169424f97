//! Decisions of the server dispatcher and of the per-connection request loop,
//! and the framing of the Noise_KK handshake packets.
use vstd::prelude::*;

use crate::bytes::{append_bytes, copy_range};
use crate::consts::{HERMOD_HS_INIT_LEN, HERMOD_HS_RESP_LEN, ID_TOKEN_B64LEN};
use crate::message::{tag_of, MessageType};

verus! {

/// What the dispatcher does with a fresh connection, given its first byte.
#[derive(Clone, Copy, Debug, PartialEq, Eq, Structural)]
pub enum Dispatch {
    /// `Init`: read the id token and handshake, then serve requests.
    RequestSession,
    /// `ShareKeyInit`: run the enrolment responder.
    ShareKey,
    /// Anything else: drop the connection without a word.
    Drop,
}

/// Classifies a connection by its first byte.
pub fn classify_first_byte(b: u8) -> (r: Dispatch)
    ensures
        r == Dispatch::RequestSession <==> b == tag_of(MessageType::Init),
        r == Dispatch::ShareKey <==> b == tag_of(MessageType::ShareKeyInit),
        r == Dispatch::Drop <==> (b != tag_of(MessageType::Init) && b != tag_of(
            MessageType::ShareKeyInit,
        )),
{
    match MessageType::from_u8(b) {
        MessageType::Init => Dispatch::RequestSession,
        MessageType::ShareKeyInit => Dispatch::ShareKey,
        _ => Dispatch::Drop,
    }
}

/// What the request loop does with the message it has just received.
#[derive(Clone, Copy, Debug, PartialEq, Eq, Structural)]
pub enum LoopStep {
    /// A `Request`: decode it and serve it, then wait for the next.
    Serve,
    /// A `Close`: leave the loop cleanly.
    Close,
    /// An `Error` from the peer: log it and leave the loop.
    PeerError,
    /// Anything else breaks the protocol: leave the loop.
    Violation,
}

/// The request loop's decision for a message type.
pub fn request_loop_step(t: MessageType) -> (r: LoopStep)
    ensures
        r == LoopStep::Serve <==> t == MessageType::Request,
        r == LoopStep::Close <==> t == MessageType::Close,
        r == LoopStep::PeerError <==> t == MessageType::Error,
        r == LoopStep::Violation <==> (t != MessageType::Request && t != MessageType::Close && t
            != MessageType::Error),
{
    match t {
        MessageType::Request => LoopStep::Serve,
        MessageType::Close => LoopStep::Close,
        MessageType::Error => LoopStep::PeerError,
        _ => LoopStep::Violation,
    }
}

/// Bytes that follow the `Init` tag of a request session: the id token and
/// the first handshake message.
pub const INIT_BODY_LEN: usize = 60;

/// The initiator's first packet: `Init | id token | handshake message`.
pub open spec fn init_packet_spec(token: Seq<u8>, hs: Seq<u8>) -> Seq<u8> {
    seq![tag_of(MessageType::Init)] + token + hs
}

/// Builds the initiator's first packet.
pub fn init_packet(token: &[u8], hs: &[u8]) -> (r: Vec<u8>)
    requires
        token@.len() == ID_TOKEN_B64LEN,
        hs@.len() == HERMOD_HS_INIT_LEN,
    ensures
        r@ == init_packet_spec(token@, hs@),
        r@.len() == 1 + INIT_BODY_LEN,
{
    let mut r: Vec<u8> = Vec::new();
    r.push(MessageType::Init.to_u8());
    append_bytes(&mut r, token);
    append_bytes(&mut r, hs);
    r
}

/// Splits what follows the `Init` tag into the id token and the handshake
/// message; `None` when the body has the wrong length.
pub fn split_init_body(body: &[u8]) -> (r: Option<(Vec<u8>, Vec<u8>)>)
    ensures
        body@.len() != INIT_BODY_LEN ==> r is None,
        body@.len() == INIT_BODY_LEN ==> r is Some && r->Some_0.0@ == body@.subrange(0, 12)
            && r->Some_0.1@ == body@.subrange(12, INIT_BODY_LEN as int),
{
    if body.len() != INIT_BODY_LEN {
        return None;
    }
    let token = copy_range(body, 0, ID_TOKEN_B64LEN);
    let hs = copy_range(body, ID_TOKEN_B64LEN, INIT_BODY_LEN);
    Some((token, hs))
}

/// A packet travelling with the initiator's first packet splits back into
/// its token and handshake message.
pub proof fn lemma_init_packet_splits(token: Seq<u8>, hs: Seq<u8>)
    requires
        token.len() == ID_TOKEN_B64LEN,
        hs.len() == HERMOD_HS_INIT_LEN,
    ensures
        init_packet_spec(token, hs).drop_first().len() == INIT_BODY_LEN,
        init_packet_spec(token, hs).drop_first().subrange(0, 12) == token,
        init_packet_spec(token, hs).drop_first().subrange(12, INIT_BODY_LEN as int) == hs,
{
    let p = init_packet_spec(token, hs);
    assert(p.drop_first() =~= token + hs);
    assert((token + hs).subrange(0, 12) =~= token);
    assert((token + hs).subrange(12, INIT_BODY_LEN as int) =~= hs);
}

/// Builds the responder's reply: `Response | handshake message`.
pub fn response_packet(hs: &[u8]) -> (r: Vec<u8>)
    requires
        hs@.len() == HERMOD_HS_RESP_LEN,
    ensures
        r@ == seq![tag_of(MessageType::Response)] + hs@,
{
    let mut r: Vec<u8> = Vec::new();
    r.push(MessageType::Response.to_u8());
    append_bytes(&mut r, hs);
    r
}

/// The handshake message of a responder's reply; `None` when the packet has
/// the wrong tag or length.
pub fn parse_response_packet(p: &[u8]) -> (r: Option<Vec<u8>>)
    ensures
        r is Some <==> (p@.len() == 1 + HERMOD_HS_RESP_LEN && p@[0] == tag_of(
            MessageType::Response,
        )),
        r is Some ==> r->Some_0@ == p@.drop_first(),
{
    if p.len() != 1 + HERMOD_HS_RESP_LEN || p[0] != MessageType::Response.to_u8() {
        return None;
    }
    let hs = copy_range(p, 1, p.len());
    assert(hs@ == p@.drop_first());
    Some(hs)
}

} // verus!
