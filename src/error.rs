use vstd::prelude::*;

verus! {

/// The kinds of failure of the protocol engine.
#[derive(Clone, Copy, Debug, PartialEq, Eq, Structural)]
pub enum HermodError {
    /// Expected a file, found a directory.
    IsDir,
    /// A file-system path did not exist.
    NotFound,
    /// A message tag that no rule accepts here.
    UnknownMessage,
    /// An id token that the identity store does not hold.
    UnknownIdentity,
    /// A host alias with no record.
    UnknownHost,
    /// The underlying stream or disk failed, or a frame was cut short.
    IoError,
    /// A base64 field did not decode.
    B64Decode,
    /// A message arrived where the protocol does not allow it.
    UnexpectedMessage,
    /// A Noise handshake or cipher operation failed.
    Crypto,
    /// A ciphertext did not authenticate.
    Decrypt,
    /// A binary structure did not deserialise.
    Encoding,
    /// The background daemon could not be set up.
    DaemonError,
    /// Any other failure.
    Other,
}

impl HermodError {
    /// A human-readable description of the error.
    pub fn describe(&self) -> (r: &'static str) {
        match self {
            HermodError::IsDir => "Expected a file, found a directory",
            HermodError::NotFound => "No such file or directory",
            HermodError::UnknownMessage => "Unknown message type",
            HermodError::UnknownIdentity => "Authentication attempt from unknown identity",
            HermodError::UnknownHost => "Host was not found in known_hosts",
            HermodError::IoError => "I/O error",
            HermodError::B64Decode => "Invalid base64 data",
            HermodError::UnexpectedMessage => "Unexpected message",
            HermodError::Crypto => "Noise protocol failure",
            HermodError::Decrypt => "Decryption failed",
            HermodError::Encoding => "Invalid encoding",
            HermodError::DaemonError => "Failed to daemonize",
            HermodError::Other => "Unknown error",
        }
    }
}

} // verus!
