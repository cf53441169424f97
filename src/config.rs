//! The local key material that each side presents to the Noise layer, and
//! the client's plan of requests.
use vstd::prelude::*;

use crate::bytes::copy_bytes;
use crate::encoding::{b64_decode, b64_encode, base64_decoded, base64_of};
use crate::keys::KeyPair;
use crate::error::HermodError;
use crate::host::Host;
use crate::request::RequestMethod;

verus! {

/// Local static key material.
pub trait Config {
    /// The local static private key.
    fn get_private_key(&self) -> &[u8];

    /// The local static public key.
    fn get_public_key(&self) -> &[u8];
}

/// A server's static key pair.
#[derive(Clone, Debug)]
pub struct ServerConfig {
    pub public_key: Vec<u8>,
    pub private_key: Vec<u8>,
}

impl ServerConfig {
    /// A server configuration from the base64 texts of its key files.
    pub fn from_key_texts(public_text: &[u8], private_text: &[u8]) -> (r: Result<
        ServerConfig,
        HermodError,
    >)
        ensures
            (base64_decoded(public_text@) is Some && base64_decoded(private_text@) is Some) <==> r is Ok,
            r is Ok ==> r->Ok_0.public_key@ == base64_decoded(public_text@)->Some_0
                && r->Ok_0.private_key@ == base64_decoded(private_text@)->Some_0,
            r is Err ==> r->Err_0 == HermodError::B64Decode,
    {
        let public_key = match b64_decode(public_text) {
            Some(k) => k,
            None => {
                return Err(HermodError::B64Decode);
            },
        };
        let private_key = match b64_decode(private_text) {
            Some(k) => k,
            None => {
                return Err(HermodError::B64Decode);
            },
        };
        Ok(ServerConfig { public_key, private_key })
    }
}

impl ServerConfig {
    /// The base64 texts of a server's key files: public key, then private
    /// key. `from_key_texts` reads them back to the same keys.
    pub fn key_texts(keys: &KeyPair) -> (r: (Vec<u8>, Vec<u8>))
        requires
            keys.public@.len() <= usize::MAX / 4,
            keys.private@.len() <= usize::MAX / 4,
        ensures
            r.0@ == base64_of(keys.public@),
            r.1@ == base64_of(keys.private@),
            base64_decoded(r.0@) == Some(keys.public@),
            base64_decoded(r.1@) == Some(keys.private@),
    {
        (b64_encode(keys.public.as_slice()), b64_encode(keys.private.as_slice()))
    }
}

impl Config for ServerConfig {
    fn get_private_key(&self) -> &[u8] {
        self.private_key.as_slice()
    }

    fn get_public_key(&self) -> &[u8] {
        self.public_key.as_slice()
    }
}

/// What a client run does: its server, sources, destination and method.
#[derive(Clone, Debug)]
pub struct ClientConfig {
    pub host: Host,
    pub source: Vec<Vec<u8>>,
    pub destination: Vec<u8>,
    pub request: RequestMethod,
}

impl ClientConfig {
    /// A configuration of the given parts.
    pub fn new(host: Host, source: Vec<Vec<u8>>, destination: Vec<u8>, request: RequestMethod) -> (r: ClientConfig)
        ensures
            r.host@ == host@,
            r.source@ == source@,
            r.destination@ == destination@,
            r.request == request,
    {
        ClientConfig { host, source, destination, request }
    }

    /// The address of the server.
    pub fn get_hostname(&self) -> (r: &[u8])
        ensures
            r@ == self.host.hostname@,
    {
        self.host.hostname()
    }

    /// The alias of the server.
    pub fn get_alias(&self) -> (r: &[u8])
        ensures
            r@ == self.host.alias@,
    {
        self.host.alias()
    }
}

impl Config for ClientConfig {
    fn get_private_key(&self) -> &[u8] {
        self.host.private_key()
    }

    fn get_public_key(&self) -> &[u8] {
        self.host.public_key()
    }
}

/// Builder of a client configuration.
pub struct ClientConfigBuilder {
    pub host: Host,
    pub source: Option<Vec<Vec<u8>>>,
    pub destination: Option<Vec<u8>>,
    pub request: Option<RequestMethod>,
}

impl ClientConfigBuilder {
    /// A builder for the given server, with nothing else set.
    pub fn new(host: Host) -> (r: ClientConfigBuilder)
        ensures
            r.host@ == host@,
            r.source is None && r.destination is None && r.request is None,
    {
        ClientConfigBuilder { host, source: None, destination: None, request: None }
    }

    /// Sets the sources.
    pub fn source(self, source: Vec<Vec<u8>>) -> (r: ClientConfigBuilder)
        ensures
            r.host@ == self.host@,
            r.source matches Some(s) && s@ == source@,
            r.destination == self.destination && r.request == self.request,
    {
        ClientConfigBuilder { source: Some(source), ..self }
    }

    /// Sets the destination.
    pub fn destination(self, destination: &[u8]) -> (r: ClientConfigBuilder)
        ensures
            r.host@ == self.host@,
            r.destination matches Some(d) && d@ == destination@,
            r.source == self.source && r.request == self.request,
    {
        ClientConfigBuilder { destination: Some(copy_bytes(destination)), ..self }
    }

    /// Sets the method.
    pub fn request(self, request: RequestMethod) -> (r: ClientConfigBuilder)
        ensures
            r.host@ == self.host@,
            r.request == Some(request),
            r.source == self.source && r.destination == self.destination,
    {
        ClientConfigBuilder { request: Some(request), ..self }
    }

    /// The configuration; `None` while sources, destination or method is unset.
    pub fn build_config(self) -> (r: Option<ClientConfig>)
        ensures
            r is Some <==> (self.source is Some && self.destination is Some && self.request is Some),
            r matches Some(c) ==> c.host@ == self.host@ && c.source@ == self.source->Some_0@
                && c.destination@ == self.destination->Some_0@ && c.request == self.request->Some_0,
    {
        match (self.source, self.destination, self.request) {
            (Some(source), Some(destination), Some(request)) => Some(
                ClientConfig::new(self.host, source, destination, request),
            ),
            _ => None,
        }
    }
}

} // verus!
