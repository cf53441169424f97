use vstd::prelude::*;

use crate::bytes::copy_bytes;
use crate::consts::MSG_TYPE_LEN;

verus! {

/// The type tag of a message; each variant has a stable byte on the wire.
#[derive(Clone, Copy, Debug, PartialEq, Eq, Structural)]
pub enum MessageType {
    Init,
    Response,
    Request,
    Payload,
    Metadata,
    EOF,
    Error,
    Close,
    Okay,
    ShareKeyInit,
    ShareKeyResp,
    ShareIdentity,
    ShareHost,
    EndOfResponse,
    Rekey,
    Unknown,
}

/// The byte that stands for each message type on the wire.
pub open spec fn tag_of(t: MessageType) -> u8 {
    match t {
        MessageType::Init => 1,
        MessageType::Response => 2,
        MessageType::Request => 3,
        MessageType::Payload => 4,
        MessageType::Metadata => 5,
        MessageType::EOF => 6,
        MessageType::Error => 7,
        MessageType::Close => 8,
        MessageType::Okay => 9,
        MessageType::ShareKeyInit => 10,
        MessageType::ShareKeyResp => 11,
        MessageType::ShareIdentity => 12,
        MessageType::ShareHost => 13,
        MessageType::EndOfResponse => 14,
        MessageType::Rekey => 15,
        MessageType::Unknown => 0,
    }
}

/// The message type that a tag byte names; bytes outside 1..=15 are `Unknown`.
pub open spec fn type_of_tag(b: u8) -> MessageType {
    if b == 1 {
        MessageType::Init
    } else if b == 2 {
        MessageType::Response
    } else if b == 3 {
        MessageType::Request
    } else if b == 4 {
        MessageType::Payload
    } else if b == 5 {
        MessageType::Metadata
    } else if b == 6 {
        MessageType::EOF
    } else if b == 7 {
        MessageType::Error
    } else if b == 8 {
        MessageType::Close
    } else if b == 9 {
        MessageType::Okay
    } else if b == 10 {
        MessageType::ShareKeyInit
    } else if b == 11 {
        MessageType::ShareKeyResp
    } else if b == 12 {
        MessageType::ShareIdentity
    } else if b == 13 {
        MessageType::ShareHost
    } else if b == 14 {
        MessageType::EndOfResponse
    } else if b == 15 {
        MessageType::Rekey
    } else {
        MessageType::Unknown
    }
}

/// Every known type survives the trip to its byte and back.
pub proof fn lemma_tag_round_trip(t: MessageType)
    requires
        t != MessageType::Unknown,
    ensures
        type_of_tag(tag_of(t)) == t,
        1 <= tag_of(t) <= 15,
{
}

impl MessageType {
    /// The tag byte of this type.
    pub fn to_u8(self) -> (r: u8)
        ensures
            r == tag_of(self),
    {
        match self {
            MessageType::Init => 1,
            MessageType::Response => 2,
            MessageType::Request => 3,
            MessageType::Payload => 4,
            MessageType::Metadata => 5,
            MessageType::EOF => 6,
            MessageType::Error => 7,
            MessageType::Close => 8,
            MessageType::Okay => 9,
            MessageType::ShareKeyInit => 10,
            MessageType::ShareKeyResp => 11,
            MessageType::ShareIdentity => 12,
            MessageType::ShareHost => 13,
            MessageType::EndOfResponse => 14,
            MessageType::Rekey => 15,
            MessageType::Unknown => 0,
        }
    }

    /// The type that a tag byte names.
    pub fn from_u8(value: u8) -> (r: MessageType)
        ensures
            r == type_of_tag(value),
    {
        match value {
            1 => MessageType::Init,
            2 => MessageType::Response,
            3 => MessageType::Request,
            4 => MessageType::Payload,
            5 => MessageType::Metadata,
            6 => MessageType::EOF,
            7 => MessageType::Error,
            8 => MessageType::Close,
            9 => MessageType::Okay,
            10 => MessageType::ShareKeyInit,
            11 => MessageType::ShareKeyResp,
            12 => MessageType::ShareIdentity,
            13 => MessageType::ShareHost,
            14 => MessageType::EndOfResponse,
            15 => MessageType::Rekey,
            _ => MessageType::Unknown,
        }
    }

    /// The name of this type.
    pub fn name(&self) -> (r: &'static str) {
        match self {
            MessageType::Init => "Init",
            MessageType::Response => "Response",
            MessageType::Request => "Request",
            MessageType::Payload => "Payload",
            MessageType::Metadata => "Metadata",
            MessageType::EOF => "EOF",
            MessageType::Error => "Error",
            MessageType::Close => "Close",
            MessageType::Okay => "Okay",
            MessageType::ShareKeyInit => "ShareKeyInit",
            MessageType::ShareKeyResp => "ShareKeyResp",
            MessageType::ShareIdentity => "ShareIdentity",
            MessageType::ShareHost => "ShareHost",
            MessageType::EndOfResponse => "EndOfResponse",
            MessageType::Rekey => "Rekey",
            MessageType::Unknown => "Unknown",
        }
    }
}

impl From<u8> for MessageType {
    fn from(value: u8) -> (r: MessageType) {
        MessageType::from_u8(value)
    }
}

impl vstd::std_specs::convert::FromSpecImpl<u8> for MessageType {
    open spec fn obeys_from_spec() -> bool {
        true
    }

    open spec fn from_spec(v: u8) -> MessageType {
        type_of_tag(v)
    }
}

/// A tagged message: a type and a payload of plaintext bytes.
#[derive(Clone, Debug)]
pub struct Message {
    msg_type: MessageType,
    payload: Vec<u8>,
}

impl Message {
    /// The type of the message.
    pub closed spec fn kind(&self) -> MessageType {
        self.msg_type
    }

    /// The payload of the message.
    pub closed spec fn data(&self) -> Seq<u8> {
        self.payload@
    }

    /// A message of the given type holding a copy of `payload`.
    pub fn new(msg_type: MessageType, payload: &[u8]) -> (r: Message)
        ensures
            r.kind() == msg_type,
            r.data() == payload@,
    {
        Message { msg_type, payload: copy_bytes(payload) }
    }

    /// The type of the message.
    pub fn get_type(&self) -> (r: MessageType)
        ensures
            r == self.kind(),
    {
        self.msg_type
    }

    /// The payload of the message.
    pub fn get_payload(&self) -> (r: &[u8])
        ensures
            r@ == self.data(),
    {
        self.payload.as_slice()
    }

    /// The length of the message: its type byte and its payload.
    pub fn len(&self) -> (r: usize)
        requires
            self.data().len() + MSG_TYPE_LEN <= usize::MAX,
        ensures
            r == self.data().len() + MSG_TYPE_LEN,
    {
        MSG_TYPE_LEN + self.payload.len()
    }

    /// Whether the payload is empty.
    pub fn is_empty(&self) -> (r: bool)
        ensures
            r == (self.data().len() == 0),
    {
        self.payload.len() == 0
    }
}

} // verus!
