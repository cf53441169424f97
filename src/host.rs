//! Host records: what a client knows of one server, and their text form.
//!
//! A record is written as five `Key: value` lines; the keys are base64
//! text. Loading reads the lines in any order, ignores unknown keys and lines
//! without a colon, and fails only on a key field that is not base64.
use vstd::prelude::*;

use crate::bytes::{append_bytes, bytes_eq, copy_bytes};
use crate::encoding::{b64_decode, b64_encode, base64_decoded, base64_of, is_b64_byte};
use crate::error::HermodError;
use crate::text::{
    field, lemma_field_round_trip, lemma_lines_append, lemma_one_line, lines, no_colon, no_ws,
    parse_field, split_lines, views, COLON, NEWLINE, SPACE,
};

verus! {

/// A client's record of one server.
#[derive(Clone, Debug)]
pub struct Host {
    /// Local name of the server.
    pub alias: Vec<u8>,
    /// Address of the server, `host:port`.
    pub hostname: Vec<u8>,
    /// The client's identity token at that server.
    pub id_token: Vec<u8>,
    /// The client's static public key.
    pub public_key: Vec<u8>,
    /// The client's static private key.
    pub private_key: Vec<u8>,
    /// The server's static public key.
    pub server_key: Vec<u8>,
}

/// The contents of a host record.
pub struct HostView {
    pub alias: Seq<u8>,
    pub hostname: Seq<u8>,
    pub id_token: Seq<u8>,
    pub public_key: Seq<u8>,
    pub private_key: Seq<u8>,
    pub server_key: Seq<u8>,
}

impl View for Host {
    type V = HostView;

    open spec fn view(&self) -> HostView {
        HostView {
            alias: self.alias@,
            hostname: self.hostname@,
            id_token: self.id_token@,
            public_key: self.public_key@,
            private_key: self.private_key@,
            server_key: self.server_key@,
        }
    }
}

/// A record with only its alias set.
pub open spec fn empty_host(alias: Seq<u8>) -> HostView {
    HostView {
        alias,
        hostname: seq![],
        id_token: seq![],
        public_key: seq![],
        private_key: seq![],
        server_key: seq![],
    }
}

/// The keys of the record's lines.
#[derive(Clone, Copy, Debug, PartialEq, Eq, Structural)]
pub enum HostField {
    Hostname,
    PublicKey,
    PrivateKey,
    IdToken,
    ServerKey,
}

/// The text of a line key.
pub open spec fn field_key(f: HostField) -> Seq<u8> {
    match f {
        HostField::Hostname => seq![72u8, 111, 115, 116, 110, 97, 109, 101],
        HostField::PublicKey => seq![80u8, 117, 98, 108, 105, 99, 75, 101, 121],
        HostField::PrivateKey => seq![80u8, 114, 105, 118, 97, 116, 101, 75, 101, 121],
        HostField::IdToken => seq![73u8, 100, 84, 111, 107, 101, 110],
        HostField::ServerKey => seq![83u8, 101, 114, 118, 101, 114, 75, 101, 121],
    }
}

/// The text of a line key.
pub fn field_key_bytes(f: HostField) -> (r: Vec<u8>)
    ensures
        r@ == field_key(f),
{
    match f {
        HostField::Hostname => {
            let a: [u8; 8] = [72, 111, 115, 116, 110, 97, 109, 101];
            let r = copy_bytes(a.as_slice());
            assert(r@ =~= field_key(f));
            r
        },
        HostField::PublicKey => {
            let a: [u8; 9] = [80, 117, 98, 108, 105, 99, 75, 101, 121];
            let r = copy_bytes(a.as_slice());
            assert(r@ =~= field_key(f));
            r
        },
        HostField::PrivateKey => {
            let a: [u8; 10] = [80, 114, 105, 118, 97, 116, 101, 75, 101, 121];
            let r = copy_bytes(a.as_slice());
            assert(r@ =~= field_key(f));
            r
        },
        HostField::IdToken => {
            let a: [u8; 7] = [73, 100, 84, 111, 107, 101, 110];
            let r = copy_bytes(a.as_slice());
            assert(r@ =~= field_key(f));
            r
        },
        HostField::ServerKey => {
            let a: [u8; 9] = [83, 101, 114, 118, 101, 114, 75, 101, 121];
            let r = copy_bytes(a.as_slice());
            assert(r@ =~= field_key(f));
            r
        },
    }
}

/// One line of a record: `key: value` and a line feed.
pub open spec fn record_line(key: Seq<u8>, value: Seq<u8>) -> Seq<u8> {
    key + seq![COLON, SPACE] + value + seq![NEWLINE]
}

/// The text of a record whose keys are written as the given base64 texts.
pub open spec fn record_text_with(h: HostView, public: Seq<u8>, private: Seq<u8>, server: Seq<u8>) -> Seq<u8> {
    record_line(field_key(HostField::Hostname), h.hostname) + (record_line(
        field_key(HostField::PublicKey),
        public,
    ) + (record_line(field_key(HostField::PrivateKey), private) + (record_line(
        field_key(HostField::IdToken),
        h.id_token,
    ) + record_line(field_key(HostField::ServerKey), server))))
}

/// The text of a record.
pub open spec fn record_text(h: HostView) -> Seq<u8> {
    record_text_with(h, base64_of(h.public_key), base64_of(h.private_key), base64_of(h.server_key))
}

/// What one line does to a record being loaded; `None` when a key field is
/// not base64.
pub open spec fn apply_host_line(h: HostView, l: Seq<u8>) -> Option<HostView> {
    match field(l) {
        None => Some(h),
        Some(kv) => {
            let (k, v) = kv;
            if k == field_key(HostField::Hostname) {
                Some(HostView { hostname: v, ..h })
            } else if k == field_key(HostField::IdToken) {
                Some(HostView { id_token: v, ..h })
            } else if k == field_key(HostField::PublicKey) {
                match base64_decoded(v) {
                    Some(b) => Some(HostView { public_key: b, ..h }),
                    None => None,
                }
            } else if k == field_key(HostField::PrivateKey) {
                match base64_decoded(v) {
                    Some(b) => Some(HostView { private_key: b, ..h }),
                    None => None,
                }
            } else if k == field_key(HostField::ServerKey) {
                match base64_decoded(v) {
                    Some(b) => Some(HostView { server_key: b, ..h }),
                    None => None,
                }
            } else {
                Some(h)
            }
        },
    }
}

/// A record after the given lines, in order.
pub open spec fn apply_host_lines(h: HostView, ls: Seq<Seq<u8>>) -> Option<HostView>
    decreases ls.len(),
{
    if ls.len() == 0 {
        Some(h)
    } else {
        match apply_host_lines(h, ls.drop_last()) {
            Some(g) => apply_host_line(g, ls.last()),
            None => None,
        }
    }
}

/// The record that `text` describes for `alias`.
pub open spec fn host_from_text(alias: Seq<u8>, text: Seq<u8>) -> Option<HostView> {
    apply_host_lines(empty_host(alias), lines(text))
}

fn push_line(out: &mut Vec<u8>, f: HostField, value: &[u8])
    ensures
        final(out)@ == old(out)@ + record_line(field_key(f), value@),
{
    let key = field_key_bytes(f);
    append_bytes(out, key.as_slice());
    out.push(COLON);
    out.push(SPACE);
    append_bytes(out, value);
    out.push(NEWLINE);
    assert(final(out)@ =~= old(out)@ + record_line(field_key(f), value@));
}

proof fn lemma_keys_plain(f: HostField)
    ensures
        no_ws(field_key(f)),
        no_colon(field_key(f)),
{
    let k = field_key(f);
    assert forall|i: int| 0 <= i < k.len() implies 65 <= #[trigger] k[i] <= 122 by {}
}

proof fn lemma_b64_plain(s: Seq<u8>)
    requires
        forall|i: int| 0 <= i < s.len() ==> is_b64_byte(#[trigger] s[i]),
    ensures
        no_ws(s),
{
    assert forall|i: int| 0 <= i < s.len() implies !crate::text::is_ws(#[trigger] s[i]) by {
        assert(is_b64_byte(s[i]));
    }
}

proof fn lemma_record_line(f: HostField, v: Seq<u8>)
    requires
        no_ws(v),
    ensures
        lines(record_line(field_key(f), v)) == seq![field_key(f) + seq![COLON, SPACE] + v],
        field(field_key(f) + seq![COLON, SPACE] + v) == Some((field_key(f), v)),
        record_line(field_key(f), v).len() > 0,
        record_line(field_key(f), v)[record_line(field_key(f), v).len() - 1] == NEWLINE,
{
    lemma_keys_plain(f);
    let l = field_key(f) + seq![COLON, SPACE] + v;
    assert forall|j: int| 0 <= j < l.len() implies l[j] != NEWLINE by {
        if j < field_key(f).len() {
            assert(l[j] == field_key(f)[j]);
        } else if j >= field_key(f).len() + 2 {
            assert(l[j] == v[j - field_key(f).len() - 2]);
        }
    }
    lemma_one_line(l);
    assert(record_line(field_key(f), v) =~= l.push(NEWLINE));
    lemma_field_round_trip(field_key(f), v);
}

/// A record written with any base64 texts of its keys that decode back to
/// them, and with no whitespace in its address and token, loads back as the
/// same record.
pub proof fn lemma_host_round_trip(h: HostView, public: Seq<u8>, private: Seq<u8>, server: Seq<u8>)
    requires
        no_ws(h.hostname),
        no_ws(h.id_token),
        no_ws(public),
        no_ws(private),
        no_ws(server),
        base64_decoded(public) == Some(h.public_key),
        base64_decoded(private) == Some(h.private_key),
        base64_decoded(server) == Some(h.server_key),
    ensures
        host_from_text(h.alias, record_text_with(h, public, private, server)) == Some(h),
{
    let l1 = record_line(field_key(HostField::Hostname), h.hostname);
    let l2 = record_line(field_key(HostField::PublicKey), public);
    let l3 = record_line(field_key(HostField::PrivateKey), private);
    let l4 = record_line(field_key(HostField::IdToken), h.id_token);
    let l5 = record_line(field_key(HostField::ServerKey), server);
    lemma_record_line(HostField::Hostname, h.hostname);
    lemma_record_line(HostField::PublicKey, public);
    lemma_record_line(HostField::PrivateKey, private);
    lemma_record_line(HostField::IdToken, h.id_token);
    lemma_record_line(HostField::ServerKey, server);
    lemma_lines_append(l4, l5);
    lemma_lines_append(l3, l4 + l5);
    lemma_lines_append(l2, l3 + (l4 + l5));
    lemma_lines_append(l1, l2 + (l3 + (l4 + l5)));
    let c1 = field_key(HostField::Hostname) + seq![COLON, SPACE] + h.hostname;
    let c2 = field_key(HostField::PublicKey) + seq![COLON, SPACE] + public;
    let c3 = field_key(HostField::PrivateKey) + seq![COLON, SPACE] + private;
    let c4 = field_key(HostField::IdToken) + seq![COLON, SPACE] + h.id_token;
    let c5 = field_key(HostField::ServerKey) + seq![COLON, SPACE] + server;
    let ls = lines(record_text_with(h, public, private, server));
    assert(ls =~= seq![c1, c2, c3, c4, c5]);
    let e = empty_host(h.alias);
    assert(ls.drop_last().drop_last().drop_last().drop_last().drop_last() =~= Seq::<
        Seq<u8>,
    >::empty());
    assert(ls.drop_last().drop_last().drop_last().drop_last() =~= seq![c1]);
    assert(ls.drop_last().drop_last().drop_last() =~= seq![c1, c2]);
    assert(ls.drop_last().drop_last() =~= seq![c1, c2, c3]);
    assert(ls.drop_last() =~= seq![c1, c2, c3, c4]);
    let g1 = HostView { hostname: h.hostname, ..e };
    let g2 = HostView { public_key: h.public_key, ..g1 };
    let g3 = HostView { private_key: h.private_key, ..g2 };
    let g4 = HostView { id_token: h.id_token, ..g3 };
    assert(apply_host_lines(e, seq![c1]) == Some(g1)) by {
        assert(seq![c1].drop_last() =~= Seq::<Seq<u8>>::empty());
        assert(apply_host_lines(e, Seq::<Seq<u8>>::empty()) == Some(e));
        assert(seq![c1].last() == c1);
        assert(field(c1) == Some((field_key(HostField::Hostname), h.hostname)));
        assert(apply_host_line(e, c1) == Some(g1));
    }
    assert(apply_host_lines(e, seq![c1, c2]) == Some(g2)) by {
        assert(seq![c1, c2].drop_last() =~= seq![c1]);
    }
    assert(apply_host_lines(e, seq![c1, c2, c3]) == Some(g3)) by {
        assert(seq![c1, c2, c3].drop_last() =~= seq![c1, c2]);
    }
    assert(apply_host_lines(e, seq![c1, c2, c3, c4]) == Some(g4)) by {
        assert(seq![c1, c2, c3, c4].drop_last() =~= seq![c1, c2, c3]);
    }
    assert(apply_host_lines(e, ls) == Some(h));
}

impl Host {
    /// A record with only its alias set.
    pub fn with_alias(alias: &[u8]) -> (r: Host)
        ensures
            r@ == empty_host(alias@),
    {
        Host {
            alias: copy_bytes(alias),
            hostname: Vec::new(),
            id_token: Vec::new(),
            public_key: Vec::new(),
            private_key: Vec::new(),
            server_key: Vec::new(),
        }
    }

    /// Appends to the address.
    pub fn set_hostname(self, hostname: &[u8]) -> (r: Host)
        ensures
            r@ == (HostView { hostname: self@.hostname + hostname@, ..self@ }),
    {
        let mut h = self;
        append_bytes(&mut h.hostname, hostname);
        h
    }

    /// Appends to the identity token.
    pub fn set_id_token(self, id: &[u8]) -> (r: Host)
        ensures
            r@ == (HostView { id_token: self@.id_token + id@, ..self@ }),
    {
        let mut h = self;
        append_bytes(&mut h.id_token, id);
        h
    }

    /// Appends to the client's public key.
    pub fn set_public_key(self, key: &[u8]) -> (r: Host)
        ensures
            r@ == (HostView { public_key: self@.public_key + key@, ..self@ }),
    {
        let mut h = self;
        append_bytes(&mut h.public_key, key);
        h
    }

    /// Appends to the client's private key.
    pub fn set_private_key(self, key: &[u8]) -> (r: Host)
        ensures
            r@ == (HostView { private_key: self@.private_key + key@, ..self@ }),
    {
        let mut h = self;
        append_bytes(&mut h.private_key, key);
        h
    }

    /// Appends to the server's public key.
    pub fn set_server_key(self, key: &[u8]) -> (r: Host)
        ensures
            r@ == (HostView { server_key: self@.server_key + key@, ..self@ }),
    {
        let mut h = self;
        append_bytes(&mut h.server_key, key);
        h
    }

    /// Local name of the server.
    pub fn alias(&self) -> (r: &[u8])
        ensures
            r@ == self.alias@,
    {
        self.alias.as_slice()
    }

    /// Address of the server.
    pub fn hostname(&self) -> (r: &[u8])
        ensures
            r@ == self.hostname@,
    {
        self.hostname.as_slice()
    }

    /// The client's identity token at the server.
    pub fn id_token(&self) -> (r: &[u8])
        ensures
            r@ == self.id_token@,
    {
        self.id_token.as_slice()
    }

    /// The client's private key.
    pub fn private_key(&self) -> (r: &[u8])
        ensures
            r@ == self.private_key@,
    {
        self.private_key.as_slice()
    }

    /// The client's public key.
    pub fn public_key(&self) -> (r: &[u8])
        ensures
            r@ == self.public_key@,
    {
        self.public_key.as_slice()
    }

    /// The server's public key.
    pub fn server_key(&self) -> (r: &[u8])
        ensures
            r@ == self.server_key@,
    {
        self.server_key.as_slice()
    }

    /// The text of this record.
    ///
    /// When neither the address nor the token holds whitespace, the text
    /// loads back as this record.
    pub fn write_record(&self) -> (r: Vec<u8>)
        requires
            self.public_key@.len() <= usize::MAX / 4,
            self.private_key@.len() <= usize::MAX / 4,
            self.server_key@.len() <= usize::MAX / 4,
        ensures
            r@ == record_text(self@),
            no_ws(self.hostname@) && no_ws(self.id_token@) ==> host_from_text(self.alias@, r@)
                == Some(self@),
    {
        let public = b64_encode(self.public_key.as_slice());
        let private = b64_encode(self.private_key.as_slice());
        let server = b64_encode(self.server_key.as_slice());
        let mut out: Vec<u8> = Vec::new();
        push_line(&mut out, HostField::Hostname, self.hostname.as_slice());
        push_line(&mut out, HostField::PublicKey, public.as_slice());
        push_line(&mut out, HostField::PrivateKey, private.as_slice());
        push_line(&mut out, HostField::IdToken, self.id_token.as_slice());
        push_line(&mut out, HostField::ServerKey, server.as_slice());
        assert(out@ =~= record_text(self@));
        proof {
            if no_ws(self.hostname@) && no_ws(self.id_token@) {
                lemma_b64_plain(public@);
                lemma_b64_plain(private@);
                lemma_b64_plain(server@);
                lemma_host_round_trip(self@, public@, private@, server@);
            }
        }
        out
    }

    fn apply_line(&mut self, line: &[u8]) -> (ok: bool)
        ensures
            match apply_host_line(old(self)@, line@) {
                Some(g) => ok && final(self)@ == g,
                None => !ok,
            },
    {
        let (k, v) = match parse_field(line) {
            Some(kv) => kv,
            None => {
                return true;
            },
        };
        if bytes_eq(k.as_slice(), field_key_bytes(HostField::Hostname).as_slice()) {
            self.hostname = v;
        } else if bytes_eq(k.as_slice(), field_key_bytes(HostField::IdToken).as_slice()) {
            self.id_token = v;
        } else if bytes_eq(k.as_slice(), field_key_bytes(HostField::PublicKey).as_slice()) {
            match b64_decode(v.as_slice()) {
                Some(b) => self.public_key = b,
                None => {
                    return false;
                },
            }
        } else if bytes_eq(k.as_slice(), field_key_bytes(HostField::PrivateKey).as_slice()) {
            match b64_decode(v.as_slice()) {
                Some(b) => self.private_key = b,
                None => {
                    return false;
                },
            }
        } else if bytes_eq(k.as_slice(), field_key_bytes(HostField::ServerKey).as_slice()) {
            match b64_decode(v.as_slice()) {
                Some(b) => self.server_key = b,
                None => {
                    return false;
                },
            }
        }
        true
    }
}

/// Loads the record of `alias` from its text.
pub fn load_host(alias: &[u8], text: &[u8]) -> (r: Result<Host, HermodError>)
    ensures
        match host_from_text(alias@, text@) {
            Some(h) => r is Ok && r->Ok_0@ == h,
            None => r == Err::<Host, HermodError>(HermodError::B64Decode),
        },
{
    let ls = split_lines(text);
    let mut host = Host::with_alias(alias);
    let mut i: usize = 0;
    while i < ls.len()
        invariant
            0 <= i <= ls@.len(),
            views(ls@) == lines(text@),
            apply_host_lines(empty_host(alias@), views(ls@).take(i as int)) == Some(host@),
        decreases ls@.len() - i,
    {
        let ghost before = host@;
        let ok = host.apply_line(ls[i].as_slice());
        assert(views(ls@).take(i + 1).drop_last() =~= views(ls@).take(i as int));
        assert(views(ls@)[i as int] == ls@[i as int]@);
        if !ok {
            proof {
                lemma_host_lines_fail(empty_host(alias@), views(ls@), i as int + 1);
            }
            return Err(HermodError::B64Decode);
        }
        i = i + 1;
    }
    assert(views(ls@).take(i as int) =~= views(ls@));
    Ok(host)
}

proof fn lemma_host_lines_fail(h: HostView, ls: Seq<Seq<u8>>, n: int)
    requires
        0 <= n <= ls.len(),
        apply_host_lines(h, ls.take(n)) is None,
    ensures
        apply_host_lines(h, ls) is None,
    decreases ls.len() - n,
{
    if n < ls.len() {
        assert(ls.take(n + 1).drop_last() =~= ls.take(n));
        lemma_host_lines_fail(h, ls, n + 1);
    } else {
        assert(ls.take(n) =~= ls);
    }
}

} // verus!
