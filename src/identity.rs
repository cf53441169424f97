//! Client identities known to a server, and the text of the
//! authorised-clients file: one `id_token:base64(key)` line per identity.
use vstd::prelude::*;

use crate::bytes::{append_bytes, bytes_eq};
use crate::encoding::{b64_decode, b64_encode, base64_decoded, base64_of, is_b64_byte};
use crate::error::HermodError;
use crate::text::{
    field, is_ws, lemma_lines_append, lemma_one_line, lemma_tight_field_round_trip, lines,
    no_colon, no_ws, parse_field, split_lines, views, COLON, NEWLINE,
};

verus! {

/// A client identity: its token and its static public key.
#[derive(Clone, Debug)]
pub struct Identity {
    pub id_token: Vec<u8>,
    pub client_key: Vec<u8>,
}

impl Identity {
    /// An identity of the given token and key.
    pub fn new(id_token: Vec<u8>, client_key: Vec<u8>) -> (r: Identity)
        ensures
            r.id_token@ == id_token@,
            r.client_key@ == client_key@,
    {
        Identity { id_token, client_key }
    }

    /// The client's public key.
    pub fn get_public_key(&self) -> (r: &[u8])
        ensures
            r@ == self.client_key@,
    {
        self.client_key.as_slice()
    }

    /// The identity token.
    pub fn get_id(&self) -> (r: &[u8])
        ensures
            r@ == self.id_token@,
    {
        self.id_token.as_slice()
    }

    /// The line of the authorised-clients file for this identity.
    ///
    /// Appended to a file that loads, the file loads to the same store with
    /// this identity added.
    pub fn to_line(&self) -> (r: Vec<u8>)
        requires
            self.client_key@.len() <= usize::MAX / 4,
        ensures
            r@ == identity_line(self.id_token@, base64_of(self.client_key@)),
            no_ws(self.id_token@) && no_colon(self.id_token@) ==> forall|t: Seq<u8>|
                #![trigger identities_from_text(t + r@)]
                ends_lines(t) && identities_from_text(t) is Some ==> identities_from_text(t + r@)
                    == Some(
                    identities_from_text(t)->Some_0.insert(self.id_token@, self.client_key@),
                ),
    {
        let key = b64_encode(self.client_key.as_slice());
        let mut out: Vec<u8> = Vec::new();
        append_bytes(&mut out, self.id_token.as_slice());
        out.push(COLON);
        append_bytes(&mut out, key.as_slice());
        out.push(NEWLINE);
        assert(out@ =~= identity_line(self.id_token@, key@));
        proof {
            if no_ws(self.id_token@) && no_colon(self.id_token@) {
                assert forall|i: int| 0 <= i < key@.len() implies !is_ws(#[trigger] key@[i]) by {
                    assert(is_b64_byte(key@[i]));
                }
                assert forall|t: Seq<u8>|
                    #![trigger identities_from_text(t + out@)]
                    ends_lines(t) && identities_from_text(t) is Some implies identities_from_text(
                        t + out@,
                    ) == Some(
                        identities_from_text(t)->Some_0.insert(self.id_token@, self.client_key@),
                    ) by {
                    lemma_identity_persists(t, self.id_token@, self.client_key@, key@);
                }
            }
        }
        out
    }
}

/// The line `id:key` and a line feed.
pub open spec fn identity_line(id: Seq<u8>, key_text: Seq<u8>) -> Seq<u8> {
    id + seq![COLON] + key_text + seq![NEWLINE]
}

/// Text that is empty or ends with a line feed.
pub open spec fn ends_lines(t: Seq<u8>) -> bool {
    t.len() == 0 || t[t.len() - 1] == NEWLINE
}

/// What one line does to the identities being loaded; `None` when the key is
/// not base64. Lines without a colon are skipped.
pub open spec fn apply_identity_line(m: Map<Seq<u8>, Seq<u8>>, l: Seq<u8>) -> Option<
    Map<Seq<u8>, Seq<u8>>,
> {
    match field(l) {
        None => Some(m),
        Some(kv) => match base64_decoded(kv.1) {
            Some(key) => Some(m.insert(kv.0, key)),
            None => None,
        },
    }
}

/// The identities after the given lines, in order; a later line for a token
/// replaces an earlier one.
pub open spec fn apply_identity_lines(m: Map<Seq<u8>, Seq<u8>>, ls: Seq<Seq<u8>>) -> Option<
    Map<Seq<u8>, Seq<u8>>,
>
    decreases ls.len(),
{
    if ls.len() == 0 {
        Some(m)
    } else {
        match apply_identity_lines(m, ls.drop_last()) {
            Some(g) => apply_identity_line(g, ls.last()),
            None => None,
        }
    }
}

/// The identities that an authorised-clients file holds.
pub open spec fn identities_from_text(t: Seq<u8>) -> Option<Map<Seq<u8>, Seq<u8>>> {
    apply_identity_lines(Map::empty(), lines(t))
}

/// Persisting an identity and loading the file again yields a store that
/// holds it: appending its line, with any base64 text of its key that
/// decodes back to the key, adds it to what the file held.
pub proof fn lemma_identity_persists(t: Seq<u8>, id: Seq<u8>, key: Seq<u8>, key_text: Seq<u8>)
    requires
        ends_lines(t),
        identities_from_text(t) is Some,
        no_ws(id),
        no_colon(id),
        no_ws(key_text),
        base64_decoded(key_text) == Some(key),
    ensures
        identities_from_text(t + identity_line(id, key_text)) == Some(
            identities_from_text(t)->Some_0.insert(id, key),
        ),
        identities_from_text(t + identity_line(id, key_text))->Some_0.contains_key(id),
        identities_from_text(t + identity_line(id, key_text))->Some_0[id] == key,
{
    let c = id + seq![COLON] + key_text;
    let l = identity_line(id, key_text);
    assert forall|j: int| 0 <= j < c.len() implies c[j] != NEWLINE by {
        if j < id.len() {
            assert(c[j] == id[j]);
        } else if j > id.len() {
            assert(c[j] == key_text[j - id.len() - 1]);
        }
    }
    lemma_one_line(c);
    assert(l =~= c.push(NEWLINE));
    lemma_tight_field_round_trip(id, key_text);
    if t.len() == 0 {
        assert(t + l =~= l);
        assert(lines(t) =~= Seq::<Seq<u8>>::empty());
    } else {
        lemma_lines_append(t, l);
    }
    let ls = lines(t + l);
    assert(ls =~= lines(t).push(c));
    assert(ls.drop_last() =~= lines(t));
}

proof fn lemma_identity_lines_fail(m: Map<Seq<u8>, Seq<u8>>, ls: Seq<Seq<u8>>, n: int)
    requires
        0 <= n <= ls.len(),
        apply_identity_lines(m, ls.take(n)) is None,
    ensures
        apply_identity_lines(m, ls) is None,
    decreases ls.len() - n,
{
    if n < ls.len() {
        assert(ls.take(n + 1).drop_last() =~= ls.take(n));
        lemma_identity_lines_fail(m, ls, n + 1);
    } else {
        assert(ls.take(n) =~= ls);
    }
}

/// The identities a server knows, keyed by token.
pub struct IdentityStore {
    entries: Vec<Identity>,
    known: Ghost<Map<Seq<u8>, Seq<u8>>>,
}

impl View for IdentityStore {
    type V = Map<Seq<u8>, Seq<u8>>;

    closed spec fn view(&self) -> Map<Seq<u8>, Seq<u8>> {
        self.known@
    }
}

impl IdentityStore {
    /// Tokens are unique among the entries, and the entries are the map.
    pub closed spec fn wf(&self) -> bool {
        &&& forall|i: int, j: int|
            0 <= i < j < self.entries@.len() ==> self.entries@[i].id_token@
                != self.entries@[j].id_token@
        &&& forall|i: int|
            0 <= i < self.entries@.len() ==> self.known@.contains_key(
                #[trigger] self.entries@[i].id_token@,
            ) && self.known@[self.entries@[i].id_token@] == self.entries@[i].client_key@
        &&& forall|k: Seq<u8>|
            #[trigger] self.known@.contains_key(k) ==> exists|i: int|
                0 <= i < self.entries@.len() && self.entries@[i].id_token@ == k
        &&& self.known@.dom().finite()
        &&& self.entries@.len() == self.known@.len()
    }

    /// An empty store.
    pub fn new() -> (r: IdentityStore)
        ensures
            r.wf(),
            r@ == Map::<Seq<u8>, Seq<u8>>::empty(),
    {
        IdentityStore { entries: Vec::new(), known: Ghost(Map::empty()) }
    }

    /// Number of identities.
    pub fn len(&self) -> (r: usize)
        requires
            self.wf(),
        ensures
            r == self@.len(),
    {
        self.entries.len()
    }

    /// The key of the identity with token `id`; `UnknownIdentity` when there
    /// is none.
    pub fn lookup(&self, id: &[u8]) -> (r: Result<&Identity, HermodError>)
        requires
            self.wf(),
        ensures
            self@.contains_key(id@) <==> r is Ok,
            r is Ok ==> r->Ok_0.id_token@ == id@ && r->Ok_0.client_key@ == self@[id@],
            r is Err ==> r->Err_0 == HermodError::UnknownIdentity,
    {
        match self.position(id) {
            Some(i) => Ok(&self.entries[i]),
            None => Err(HermodError::UnknownIdentity),
        }
    }

    fn position(&self, id: &[u8]) -> (r: Option<usize>)
        requires
            self.wf(),
        ensures
            self@.contains_key(id@) <==> r is Some,
            r matches Some(i) ==> i < self.entries@.len() && self.entries@[i as int].id_token@
                == id@,
    {
        let mut i: usize = 0;
        while i < self.entries.len()
            invariant
                self.wf(),
                0 <= i <= self.entries@.len(),
                forall|j: int| 0 <= j < i ==> self.entries@[j].id_token@ != id@,
            decreases self.entries@.len() - i,
        {
            if bytes_eq(self.entries[i].id_token.as_slice(), id) {
                assert(self.known@.contains_key(self.entries@[i as int].id_token@));
                return Some(i);
            }
            i = i + 1;
        }
        None
    }

    /// Adds an identity, replacing any with the same token.
    pub fn insert(&mut self, identity: Identity)
        requires
            old(self).wf(),
        ensures
            final(self).wf(),
            final(self)@ == old(self)@.insert(identity.id_token@, identity.client_key@),
    {
        let ghost id = identity.id_token@;
        let ghost key = identity.client_key@;
        let pos = self.position(identity.id_token.as_slice());
        let ghost old_known = self.known@;
        let ghost old_entries = self.entries@;
        match pos {
            Some(i) => {
                self.entries.set(i, identity);
                self.known = Ghost(self.known@.insert(id, key));
                assert(old_known.dom().insert(id) =~= old_known.dom());
                assert forall|k: Seq<u8>| #[trigger] self.known@.contains_key(k) implies exists|j: int|
                    0 <= j < self.entries@.len() && self.entries@[j].id_token@ == k by {
                    if k != id {
                        let j = choose|j: int| 0 <= j < old_entries.len() && old_entries[j].id_token@ == k;
                        assert(self.entries@[j].id_token@ == k);
                    } else {
                        assert(self.entries@[i as int].id_token@ == k);
                    }
                }
            },
            None => {
                self.entries.push(identity);
                self.known = Ghost(self.known@.insert(id, key));
                assert(self.entries@[old_entries.len() as int].id_token@ == id);
                assert forall|k: Seq<u8>| #[trigger] self.known@.contains_key(k) implies exists|j: int|
                    0 <= j < self.entries@.len() && self.entries@[j].id_token@ == k by {
                    if k != id {
                        let j = choose|j: int| 0 <= j < old_entries.len() && old_entries[j].id_token@ == k;
                        assert(self.entries@[j].id_token@ == k);
                    } else {
                        assert(self.entries@[old_entries.len() as int].id_token@ == k);
                    }
                }
            },
        }
    }

    /// The identities, in the order they were first added.
    pub fn identities(&self) -> (r: &[Identity])
        requires
            self.wf(),
        ensures
            r@.len() == self@.len(),
            forall|i: int|
                0 <= i < r@.len() ==> self@.contains_key(#[trigger] r@[i].id_token@) && self@[r@[i].id_token@]
                    == r@[i].client_key@,
    {
        self.entries.as_slice()
    }

}

impl Identity {
    /// Loads the store from the text of an authorised-clients file.
    pub fn load_clients(text: &[u8]) -> (r: Result<IdentityStore, HermodError>)
        ensures
            match identities_from_text(text@) {
                Some(m) => r is Ok && r->Ok_0.wf() && r->Ok_0@ == m,
                None => r == Err::<IdentityStore, HermodError>(HermodError::B64Decode),
            },
    {
        let ls = split_lines(text);
        let mut store = IdentityStore::new();
        let mut i: usize = 0;
        while i < ls.len()
            invariant
                0 <= i <= ls@.len(),
                views(ls@) == lines(text@),
                store.wf(),
                apply_identity_lines(Map::empty(), views(ls@).take(i as int)) == Some(store@),
            decreases ls@.len() - i,
        {
            assert(views(ls@).take(i + 1).drop_last() =~= views(ls@).take(i as int));
            assert(views(ls@)[i as int] == ls@[i as int]@);
            match parse_field(ls[i].as_slice()) {
                None => {},
                Some((id, key_text)) => match b64_decode(key_text.as_slice()) {
                    Some(key) => {
                        store.insert(Identity::new(id, key));
                    },
                    None => {
                        proof {
                            lemma_identity_lines_fail(Map::empty(), views(ls@), i as int + 1);
                        }
                        return Err(HermodError::B64Decode);
                    },
                },
            }
            i = i + 1;
        }
        assert(views(ls@).take(i as int) =~= views(ls@));
        Ok(store)
    }
}

} // verus!
