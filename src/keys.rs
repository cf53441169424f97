//! Fresh static key pairs and identity tokens.
use vstd::prelude::*;

use crate::consts::{ID_TOKEN_B64LEN, ID_TOKEN_LEN, NOISE_PATTERN};
use crate::encoding::{b64_encode, base64_decoded, base64_of};
use crate::error::HermodError;

verus! {

/// A static X25519 key pair.
pub struct KeyPair {
    /// The private key.
    pub private: Vec<u8>,
    /// The public key.
    pub public: Vec<u8>,
}

/// Relies on snow's `Builder::generate_keypair` for the Noise parameters
/// that `pattern` names: with their X25519 function both keys are 32 bytes.
#[verifier::external_body]
fn noise_keypair(pattern: &str) -> (r: Result<KeyPair, HermodError>)
    ensures
        r is Ok ==> r->Ok_0.private@.len() == 32 && r->Ok_0.public@.len() == 32,
{
    let params: snow::params::NoiseParams = pattern.parse().map_err(|_| HermodError::Crypto)?;
    snow::Builder::new(params)
        .generate_keypair()
        .map(|k| KeyPair { private: k.private, public: k.public })
        .map_err(|_| HermodError::Crypto)
}

/// Relies on `rand::Rng::fill` over the thread-local generator: it fills the
/// whole buffer with random bytes.
#[verifier::external_body]
fn random_bytes(buf: &mut [u8; 8]) {
    rand::Rng::fill(&mut rand::thread_rng(), buf)
}

/// A fresh key pair for a server.
pub fn create_server_keys() -> (r: Result<KeyPair, HermodError>)
    ensures
        r is Ok ==> r->Ok_0.private@.len() == 32 && r->Ok_0.public@.len() == 32,
{
    noise_keypair(NOISE_PATTERN)
}

/// A fresh key pair for a client.
pub fn gen_keys() -> (r: Result<KeyPair, HermodError>)
    ensures
        r is Ok ==> r->Ok_0.private@.len() == 32 && r->Ok_0.public@.len() == 32,
{
    noise_keypair(NOISE_PATTERN)
}

/// A fresh identity token: eight random bytes as base64 text.
pub fn gen_idtoken() -> (r: Vec<u8>)
    ensures
        r@.len() == ID_TOKEN_B64LEN,
        exists|b: Seq<u8>|
            b.len() == ID_TOKEN_LEN && r@ == base64_of(b) && base64_decoded(r@) == Some(b),
{
    let mut raw: [u8; 8] = [0u8; 8];
    random_bytes(&mut raw);
    let r = b64_encode(raw.as_slice());
    assert(raw@.len() == ID_TOKEN_LEN);
    r
}

} // verus!
