//! The other end of a session: a client identity, seen from a server, or a
//! host record, seen from a client.
use vstd::prelude::*;

use crate::bytes::copy_bytes;
use crate::error::HermodError;
use crate::host::Host;
use crate::identity::{Identity, IdentityStore};

verus! {

/// The peer of a session.
pub enum Peer {
    /// A client, as the server's identity store knows it.
    Identity(Identity),
    /// A server, as the client's host record knows it.
    Host(Host),
}

impl Peer {
    /// The peer's identity token.
    pub open spec fn id_view(&self) -> Seq<u8> {
        match self {
            Peer::Identity(i) => i.id_token@,
            Peer::Host(h) => h.id_token@,
        }
    }

    /// The peer's static public key.
    pub open spec fn key_view(&self) -> Seq<u8> {
        match self {
            Peer::Identity(i) => i.client_key@,
            Peer::Host(h) => h.server_key@,
        }
    }

    /// The server of a host record.
    pub fn new_server_peer(host: Host) -> (r: Peer)
        ensures
            r == Peer::Host(host),
    {
        Peer::Host(host)
    }

    /// The client whose token opened a request session; `UnknownIdentity`
    /// when the store does not hold the token, and the handshake cannot begin.
    pub fn new_client_peer(store: &IdentityStore, id: &[u8]) -> (r: Result<Peer, HermodError>)
        requires
            store.wf(),
        ensures
            r is Ok <==> store@.contains_key(id@),
            r is Ok ==> r->Ok_0 is Identity && r->Ok_0.id_view() == id@ && r->Ok_0.key_view()
                == store@[id@],
            r is Err ==> r->Err_0 == HermodError::UnknownIdentity,
    {
        let client = store.lookup(id)?;
        let id_token = copy_bytes(client.get_id());
        let client_key = copy_bytes(client.get_public_key());
        Ok(Peer::Identity(Identity { id_token, client_key }))
    }

    /// The peer's identity token.
    pub fn get_id(&self) -> (r: &[u8])
        ensures
            r@ == self.id_view(),
    {
        match self {
            Peer::Identity(i) => i.id_token.as_slice(),
            Peer::Host(h) => h.id_token.as_slice(),
        }
    }

    /// The peer's static public key.
    pub fn get_public_key(&self) -> (r: &[u8])
        ensures
            r@ == self.key_view(),
    {
        match self {
            Peer::Identity(i) => i.client_key.as_slice(),
            Peer::Host(h) => h.server_key.as_slice(),
        }
    }
}

} // verus!
