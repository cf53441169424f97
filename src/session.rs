//! The Noise transport session: sealing and opening frames, with the
//! in-band rekey discipline.
//!
//! The session does not own the socket. `send` hands back the exact bytes to
//! write; `recv` takes one inbound unit, as located by `frame::bytes_needed`.
use vstd::prelude::*;

use snow::TransportState;

use crate::bytes::{append_bytes, copy_range};
use crate::consts::{AEAD_TAG_LEN, MSG_PAYLOAD_LEN, REKEY_THRESHOLD};
use crate::error::HermodError;
use crate::frame::{encode_frame, frame_bytes, parse_unit, unit_of, CLOSE_TAG, MAX_FRAME_BODY, REKEY_TAG};
use crate::message::{tag_of, type_of_tag, Message, MessageType};

verus! {

#[verifier::external_type_specification]
#[verifier::external_body]
pub struct ExTransportState(snow::TransportState);

/// Relies on snow's `TransportState::write_message`: on success the sealed
/// message is the payload followed by the 16-byte AEAD tag, written at the
/// front of `out`, and it fails when that would not fit `out`.
#[verifier::external_body]
fn noise_seal(t: &mut TransportState, payload: &[u8], out: &mut Vec<u8>) -> (r: Result<usize, HermodError>)
    ensures
        final(out)@.len() == old(out)@.len(),
        r is Ok ==> r->Ok_0 == payload@.len() + 16 && r->Ok_0 <= old(out)@.len(),
        r is Err ==> r->Err_0 == HermodError::Crypto,
{
    t.write_message(payload, out.as_mut_slice()).map_err(|_| HermodError::Crypto)
}

/// Relies on snow's `TransportState::read_message`: on success the opened
/// payload is the ciphertext without its 16-byte tag, written at the front of
/// `out`.
#[verifier::external_body]
fn noise_open(t: &mut TransportState, ciphertext: &[u8], out: &mut Vec<u8>) -> (r: Result<usize, HermodError>)
    ensures
        final(out)@.len() == old(out)@.len(),
        r is Ok ==> ciphertext@.len() >= 16 && r->Ok_0 == ciphertext@.len() - 16,
        r is Err ==> r->Err_0 == HermodError::Decrypt || r->Err_0 == HermodError::Crypto,
{
    match t.read_message(ciphertext, out.as_mut_slice()) {
        Ok(n) => Ok(n),
        Err(snow::Error::Decrypt) => Err(HermodError::Decrypt),
        Err(_) => Err(HermodError::Crypto),
    }
}

/// Relies on snow's `TransportState::rekey_outgoing`: rotates the sending key.
#[verifier::external_body]
fn noise_rekey_outgoing(t: &mut TransportState) {
    t.rekey_outgoing()
}

/// Relies on snow's `TransportState::rekey_incoming`: rotates the receiving key.
#[verifier::external_body]
fn noise_rekey_incoming(t: &mut TransportState) {
    t.rekey_incoming()
}

/// One cipher event of a direction of a session.
#[derive(Clone, Copy, Debug, PartialEq, Eq, Structural)]
pub enum CipherEvent {
    /// The key of this direction was rotated.
    Rekey,
    /// A frame of this many ciphertext bytes was sealed or opened.
    Frame(u64),
}

/// Ciphertext bytes sealed since the last rotation of the key.
pub open spec fn since_rekey(log: Seq<CipherEvent>) -> nat
    decreases log.len(),
{
    if log.len() == 0 {
        0
    } else {
        match log.last() {
            CipherEvent::Rekey => 0,
            CipherEvent::Frame(n) => since_rekey(log.drop_last()) + n as nat,
        }
    }
}

/// All ciphertext bytes of a log.
pub open spec fn total_bytes(log: Seq<CipherEvent>) -> nat
    decreases log.len(),
{
    if log.len() == 0 {
        0
    } else {
        match log.last() {
            CipherEvent::Rekey => total_bytes(log.drop_last()),
            CipherEvent::Frame(n) => total_bytes(log.drop_last()) + n as nat,
        }
    }
}

/// Number of frames of a log: the nonce that the next frame uses.
pub open spec fn frame_count(log: Seq<CipherEvent>) -> nat
    decreases log.len(),
{
    if log.len() == 0 {
        0
    } else {
        match log.last() {
            CipherEvent::Rekey => frame_count(log.drop_last()),
            CipherEvent::Frame(_) => frame_count(log.drop_last()) + 1,
        }
    }
}

/// What the log functions make of one more event.
pub proof fn lemma_log_push(log: Seq<CipherEvent>, e: CipherEvent)
    ensures
        since_rekey(log.push(e)) == match e {
            CipherEvent::Rekey => 0,
            CipherEvent::Frame(n) => since_rekey(log) + n as nat,
        },
        total_bytes(log.push(e)) == match e {
            CipherEvent::Rekey => total_bytes(log),
            CipherEvent::Frame(n) => total_bytes(log) + n as nat,
        },
        frame_count(log.push(e)) == match e {
            CipherEvent::Rekey => frame_count(log),
            CipherEvent::Frame(_) => frame_count(log) + 1,
        },
{
    assert(log.push(e).drop_last() == log);
}

/// `n` rotations in a row.
pub open spec fn rekeys(n: nat) -> Seq<CipherEvent> {
    Seq::new(n, |i: int| CipherEvent::Rekey)
}

/// Whether a frame of `c` ciphertext bytes, after `sent` bytes under the
/// current key, must wait for a rotation.
pub open spec fn rotation_due(sent: nat, c: nat) -> bool {
    sent + c > REKEY_THRESHOLD
}

/// The bytes that carry one sealed frame: the `Rekey` marker when the key
/// was rotated for it, then the frame.
pub open spec fn outbound_wire(rotate: bool, tag: u8, sealed: Seq<u8>) -> Seq<u8> {
    (if rotate { seq![REKEY_TAG] } else { Seq::<u8>::empty() }) + frame_bytes(tag, sealed)
}

/// The bytes to write for a frame sealed by the Noise layer.
pub fn sealed_wire(rotate: bool, kind: MessageType, sealed: &[u8]) -> (r: Vec<u8>)
    requires
        sealed@.len() <= MAX_FRAME_BODY,
    ensures
        r@ == outbound_wire(rotate, tag_of(kind), sealed@),
        r@.len() == (if rotate { 1int } else { 0int }) + 3 + sealed@.len(),
        rotate ==> r@[0] == REKEY_TAG,
        ({
            let f = if rotate { r@.drop_first() } else { r@ };
            &&& f[0] == tag_of(kind)
            &&& (f[1] as nat) * 256 + (f[2] as nat) == sealed@.len()
            &&& f.len() == 3 + sealed@.len()
        }),
{
    let mut wire: Vec<u8> = Vec::new();
    if rotate {
        wire.push(REKEY_TAG);
    }
    let frame = encode_frame(kind.to_u8(), sealed);
    append_bytes(&mut wire, frame.as_slice());
    if rotate {
        assert(wire@.drop_first() == frame@);
        assert(wire@ =~= seq![REKEY_TAG] + frame@);
    } else {
        assert(wire@ =~= Seq::<u8>::empty() + frame@);
    }
    wire
}

/// An established Noise transport session.
pub struct NoiseStream {
    noise: TransportState,
    bytes_sent: u64,
    send_nonce: u64,
    recv_nonce: u64,
    outbound: Ghost<Seq<CipherEvent>>,
    inbound: Ghost<Seq<CipherEvent>>,
}

impl NoiseStream {
    /// Ciphertext bytes sent since the last outbound rotation.
    pub closed spec fn sent_since_rekey(&self) -> nat {
        self.bytes_sent as nat
    }

    /// Nonce of the next outbound frame.
    pub closed spec fn next_send_nonce(&self) -> nat {
        self.send_nonce as nat
    }

    /// Nonce of the next inbound frame.
    pub closed spec fn next_recv_nonce(&self) -> nat {
        self.recv_nonce as nat
    }

    /// Every outbound event since the session was established.
    pub closed spec fn outbound_log(&self) -> Seq<CipherEvent> {
        self.outbound@
    }

    /// Every inbound event since the session was established.
    pub closed spec fn inbound_log(&self) -> Seq<CipherEvent> {
        self.inbound@
    }

    /// The session's counters agree with its logs, and the volume since the
    /// last rotation is within the threshold.
    pub closed spec fn wf(&self) -> bool {
        &&& self.bytes_sent as nat == since_rekey(self.outbound@)
        &&& self.bytes_sent <= REKEY_THRESHOLD
        &&& self.send_nonce as nat == frame_count(self.outbound@)
        &&& self.recv_nonce as nat == frame_count(self.inbound@)
    }

    /// A session over the transport state that a finished handshake produced.
    pub fn new(noise: TransportState) -> (r: NoiseStream)
        ensures
            r.wf(),
            r.sent_since_rekey() == 0,
            r.next_send_nonce() == 0,
            r.next_recv_nonce() == 0,
            r.outbound_log() == Seq::<CipherEvent>::empty(),
            r.inbound_log() == Seq::<CipherEvent>::empty(),
    {
        NoiseStream {
            noise,
            bytes_sent: 0,
            send_nonce: 0,
            recv_nonce: 0,
            outbound: Ghost(Seq::empty()),
            inbound: Ghost(Seq::empty()),
        }
    }

    /// Ciphertext bytes sent since the last outbound rotation.
    pub fn bytes_sent(&self) -> (r: u64)
        ensures
            r == self.sent_since_rekey(),
    {
        self.bytes_sent
    }

    /// Nonce of the next outbound frame.
    pub fn sending_nonce(&self) -> (r: u64)
        ensures
            r == self.next_send_nonce(),
    {
        self.send_nonce
    }

    /// Nonce of the next inbound frame.
    pub fn receiving_nonce(&self) -> (r: u64)
        ensures
            r == self.next_recv_nonce(),
    {
        self.recv_nonce
    }

    /// Whether a frame of `cipher_len` ciphertext bytes must be preceded by a rotation.
    pub fn needs_rekey(&self, cipher_len: u64) -> (r: bool)
        requires
            self.wf(),
            cipher_len <= 65535,
        ensures
            r == (self.sent_since_rekey() + cipher_len > REKEY_THRESHOLD),
    {
        self.bytes_sent + cipher_len > REKEY_THRESHOLD
    }

    /// Seals `msg` and returns the bytes to write to the stream.
    ///
    /// A `Close` message is the lone `Close` byte. Any other message becomes
    /// one frame whose length field counts the ciphertext, the payload plus
    /// the 16-byte tag; when that frame would take the volume sent since the
    /// last rotation past `REKEY_THRESHOLD`, a `Rekey` byte comes first and
    /// the outbound key is rotated before sealing. A `Rekey` message cannot
    /// be sent: its tag is reserved for the marker.
    ///
    /// Whether sealing succeeds is up to the Noise layer, whose nonce lives in
    /// the transport state; `sealed_wire` gives the bytes for every
    /// ciphertext it hands back.
    pub fn send(&mut self, msg: &Message) -> (r: Result<Vec<u8>, HermodError>)
        requires
            old(self).wf(),
            msg.data().len() <= MSG_PAYLOAD_LEN,
        ensures
            final(self).wf(),
            msg.kind() == MessageType::Close ==> r is Ok && r->Ok_0@ == seq![CLOSE_TAG]
                && *final(self) == *old(self),
            msg.kind() == MessageType::Rekey ==> r == Err::<Vec<u8>, HermodError>(
                HermodError::UnexpectedMessage,
            ) && *final(self) == *old(self),
            msg.kind() != MessageType::Close && r is Ok ==> exists|s: Seq<u8>|
                s.len() == msg.data().len() + 16 && r->Ok_0@ == #[trigger] outbound_wire(
                    rotation_due(old(self).sent_since_rekey(), msg.data().len() + 16),
                    tag_of(msg.kind()),
                    s,
                ),
            msg.kind() != MessageType::Close && r is Ok ==> ({
                let c = msg.data().len() + 16;
                let rotate = old(self).sent_since_rekey() + c > REKEY_THRESHOLD;
                let wire = r->Ok_0@;
                &&& wire.len() == (if rotate { 1int } else { 0int }) + 3 + c
                &&& rotate ==> wire[0] == REKEY_TAG
                &&& ({
                    let f = if rotate { wire.drop_first() } else { wire };
                    &&& f[0] == tag_of(msg.kind())
                    &&& (f[1] as nat) * 256 + (f[2] as nat) == c
                    &&& f.len() == 3 + c
                })
                &&& final(self).outbound_log() == if rotate {
                    old(self).outbound_log().push(CipherEvent::Rekey).push(CipherEvent::Frame(c as u64))
                } else {
                    old(self).outbound_log().push(CipherEvent::Frame(c as u64))
                }
                &&& final(self).sent_since_rekey() == if rotate { c } else {
                    old(self).sent_since_rekey() + c
                }
                &&& final(self).next_send_nonce() == old(self).next_send_nonce() + 1
                &&& final(self).next_recv_nonce() == old(self).next_recv_nonce()
                &&& final(self).inbound_log() == old(self).inbound_log()
            }),
            msg.kind() != MessageType::Close && msg.kind() != MessageType::Rekey && r is Err
                ==> r->Err_0 == HermodError::Crypto,
    {
        let kind = msg.get_type();
        if let MessageType::Close = kind {
            let mut wire: Vec<u8> = Vec::new();
            wire.push(CLOSE_TAG);
            return Ok(wire);
        }
        if let MessageType::Rekey = kind {
            return Err(HermodError::UnexpectedMessage);
        }
        if self.send_nonce == u64::MAX {
            return Err(HermodError::Crypto);
        }
        let payload = msg.get_payload();
        let cipher_len = (payload.len() + AEAD_TAG_LEN) as u64;
        let rotate = self.needs_rekey(cipher_len);
        if rotate {
            noise_rekey_outgoing(&mut self.noise);
            self.bytes_sent = 0;
            proof {
                lemma_log_push(self.outbound@, CipherEvent::Rekey);
            }
            self.outbound = Ghost(self.outbound@.push(CipherEvent::Rekey));
        }
        let mut sealed: Vec<u8> = vec![0u8; payload.len() + AEAD_TAG_LEN];
        let n = noise_seal(&mut self.noise, payload, &mut sealed)?;
        let wire = sealed_wire(rotate, kind, &sealed.as_slice()[0..n]);
        self.bytes_sent = self.bytes_sent + cipher_len;
        self.send_nonce = self.send_nonce + 1;
        proof {
            lemma_log_push(self.outbound@, CipherEvent::Frame(cipher_len));
        }
        self.outbound = Ghost(self.outbound@.push(CipherEvent::Frame(cipher_len)));
        assert(sealed@.subrange(0, n as int).len() == n);
        let ghost witness = sealed@.subrange(0, n as int);
        assert(rotate == rotation_due(old(self).sent_since_rekey(), (msg.data().len() + 16) as nat));
        assert(wire@ == outbound_wire(
            rotation_due(old(self).sent_since_rekey(), (msg.data().len() + 16) as nat),
            tag_of(msg.kind()),
            witness,
        ));
        Ok(wire)
    }

    /// Opens one inbound unit: the bytes that `frame::bytes_needed` asked for.
    ///
    /// Each leading `Rekey` byte rotates the inbound key before anything
    /// else is opened. A `Close` byte yields an empty `Close` message. A frame
    /// is opened under the current inbound key; its payload is the ciphertext
    /// without the 16-byte tag. A buffer that does not hold exactly one unit
    /// is a stream cut short.
    pub fn recv(&mut self, wire: &[u8]) -> (r: Result<Message, HermodError>)
        requires
            old(self).wf(),
        ensures
            final(self).wf(),
            final(self).outbound_log() == old(self).outbound_log(),
            final(self).next_send_nonce() == old(self).next_send_nonce(),
            final(self).sent_since_rekey() == old(self).sent_since_rekey(),
            unit_of(wire@) is None ==> r == Err::<Message, HermodError>(HermodError::IoError),
            unit_of(wire@) matches Some(u) ==> {
                &&& u.tag == CLOSE_TAG ==> {
                    &&& r is Ok
                    &&& r->Ok_0.kind() == MessageType::Close
                    &&& r->Ok_0.data().len() == 0
                    &&& final(self).inbound_log() == old(self).inbound_log() + rekeys(u.rekeys as nat)
                    &&& final(self).next_recv_nonce() == old(self).next_recv_nonce()
                }
                &&& u.tag != CLOSE_TAG && r is Ok ==> {
                    &&& r->Ok_0.kind() == type_of_tag(u.tag)
                    &&& u.body_len >= 16
                    &&& r->Ok_0.data().len() == u.body_len - 16
                    &&& final(self).inbound_log() == (old(self).inbound_log() + rekeys(
                        u.rekeys as nat,
                    )).push(CipherEvent::Frame(u.body_len as u64))
                    &&& final(self).next_recv_nonce() == old(self).next_recv_nonce() + 1
                }
                &&& u.tag != CLOSE_TAG && r is Err ==> r->Err_0 == HermodError::Decrypt
                    || r->Err_0 == HermodError::Crypto
            },
    {
        let unit = match parse_unit(wire) {
            Some(u) => u,
            None => {
                return Err(HermodError::IoError);
            },
        };
        if unit.tag != CLOSE_TAG && self.recv_nonce == u64::MAX {
            return Err(HermodError::Crypto);
        }
        let ghost start = self.inbound@;
        let mut i: usize = 0;
        while i < unit.rekeys
            invariant
                self.wf(),
                0 <= i <= unit.rekeys,
                self.inbound@ == start + rekeys(i as nat),
                self.outbound@ == old(self).outbound@,
                self.bytes_sent == old(self).bytes_sent,
                self.send_nonce == old(self).send_nonce,
                self.recv_nonce == old(self).recv_nonce,
            decreases unit.rekeys - i,
        {
            noise_rekey_incoming(&mut self.noise);
            proof {
                lemma_log_push(self.inbound@, CipherEvent::Rekey);
                assert(start + rekeys((i + 1) as nat) == (start + rekeys(i as nat)).push(
                    CipherEvent::Rekey,
                ));
            }
            self.inbound = Ghost(self.inbound@.push(CipherEvent::Rekey));
            i = i + 1;
        }
        if unit.tag == CLOSE_TAG {
            return Ok(Message::new(MessageType::Close, &[]));
        }
        let body = &wire[unit.body_start..wire.len()];
        let mut opened: Vec<u8> = vec![0u8; unit.body_len];
        let n = noise_open(&mut self.noise, body, &mut opened)?;
        let payload = copy_range(opened.as_slice(), 0, n);
        self.recv_nonce = self.recv_nonce + 1;
        proof {
            lemma_log_push(self.inbound@, CipherEvent::Frame(unit.body_len as u64));
        }
        self.inbound = Ghost(self.inbound@.push(CipherEvent::Frame(unit.body_len as u64)));
        Ok(Message::new(MessageType::from_u8(unit.tag), payload.as_slice()))
    }
}

proof fn lemma_no_rekey_all_since(log: Seq<CipherEvent>)
    requires
        forall|i: int| 0 <= i < log.len() ==> log[i] != CipherEvent::Rekey,
    ensures
        since_rekey(log) == total_bytes(log),
    decreases log.len(),
{
    if log.len() > 0 {
        let prefix = log.drop_last();
        assert forall|i: int| 0 <= i < prefix.len() implies prefix[i] != CipherEvent::Rekey by {
            assert(prefix[i] == log[i]);
        }
        lemma_no_rekey_all_since(prefix);
        assert(log.last() == log[log.len() - 1]);
    }
}

/// No frame leaves a session while more than `REKEY_THRESHOLD` bytes of
/// ciphertext have been sealed under its current outbound key.
pub proof fn lemma_volume_within_threshold(s: NoiseStream)
    requires
        s.wf(),
    ensures
        s.sent_since_rekey() <= REKEY_THRESHOLD,
        s.sent_since_rekey() == since_rekey(s.outbound_log()),
{
}

/// A session that has sent more than `REKEY_THRESHOLD` bytes of ciphertext
/// has rotated its outbound key at least once.
pub proof fn lemma_volume_forces_rekey(s: NoiseStream)
    requires
        s.wf(),
        total_bytes(s.outbound_log()) > REKEY_THRESHOLD,
    ensures
        exists|i: int|
            0 <= i < s.outbound_log().len() && s.outbound_log()[i] == CipherEvent::Rekey,
{
    let log = s.outbound_log();
    if forall|i: int| 0 <= i < log.len() ==> log[i] != CipherEvent::Rekey {
        lemma_no_rekey_all_since(log);
    }
}

/// The nonces of a session count the frames of each direction.
pub proof fn lemma_nonces_count_frames(s: NoiseStream)
    requires
        s.wf(),
    ensures
        s.next_send_nonce() == frame_count(s.outbound_log()),
        s.next_recv_nonce() == frame_count(s.inbound_log()),
{
}

} // verus!
