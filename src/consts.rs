use vstd::prelude::*;

verus! {

/// Largest frame on the wire, header included.
pub const PACKET_MAXLENGTH: usize = 65536;

/// Length of the AEAD authentication tag appended to every ciphertext.
pub const MAC_LENGTH: usize = 16;

/// Same as `MAC_LENGTH`: the tag that the Noise cipher appends.
pub const AEAD_TAG_LEN: usize = 16;

/// Default TCP port of a server.
pub const HERMOD_PORT: u16 = 4444;

/// Length of the message-type byte.
pub const MSG_TYPE_LEN: usize = 1;

/// Length of the big-endian length field of a frame.
pub const MSG_LENGTH_LEN: usize = 2;

/// Length of a frame header: type byte and length field.
pub const MSG_HEADER_LEN: usize = 3;

/// Largest plaintext payload of one frame.
pub const MSG_PAYLOAD_LEN: usize = 65517;

/// Bytes of ciphertext a session may send before it must rotate its outbound key.
pub const REKEY_THRESHOLD: u64 = 1073741824;

/// Number of random bytes in an identity token.
pub const ID_TOKEN_LEN: usize = 8;

/// Length of an identity token once base64 encoded.
pub const ID_TOKEN_B64LEN: usize = 12;

/// Length of the first handshake packet of a request session, type byte included.
pub const HERMOD_HS_INIT_LEN: usize = 48;

/// Length of the responder's handshake reply, type byte excluded.
pub const HERMOD_HS_RESP_LEN: usize = 48;

/// Length of the first enrolment message, type byte excluded.
pub const HERMOD_KS_INIT_LEN: usize = 32;

/// Length of the server's enrolment reply, type byte included.
pub const HERMOD_KS_RES1_LEN: usize = 97;

/// Length of the client's final enrolment message, type byte included.
pub const HERMOD_KS_RES2_LEN: usize = 77;

/// Noise parameters of request sessions.
pub const NOISE_PATTERN: &'static str = "Noise_KK_25519_ChaChaPoly_BLAKE2s";

/// Noise parameters of enrolment.
pub const SHARE_KEY_PATTERN: &'static str = "Noise_XX_25519_ChaChaPoly_BLAKE2s";

/// Capacity of the bounded queue between the disk and the network side of a transfer.
pub const TRANSFER_QUEUE_LEN: usize = 100;

/// Most connections a server serves at once.
pub const CONNECTION_LIMIT: usize = 100;

/// Cooldown after a transient accept error, in milliseconds.
pub const ACCEPT_COOLDOWN_MS: u64 = 500;

} // verus!
