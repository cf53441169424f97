//! The frame codec: `type (1) | length (2, big-endian) | ciphertext`.
//!
//! Two tags travel without length or body: `Close`, which ends the session,
//! and `Rekey`, which announces that the next frame is sealed under a rotated
//! key. On the inbound side a unit is any number of `Rekey` bytes followed by
//! either a lone `Close` byte or one full frame.
use vstd::prelude::*;

use crate::bytes::append_bytes;

verus! {

/// Tag byte of `Close`.
pub const CLOSE_TAG: u8 = 8;

/// Tag byte of `Rekey`.
pub const REKEY_TAG: u8 = 15;

/// Largest body that a frame's 16-bit length field can announce.
pub const MAX_FRAME_BODY: usize = 65535;

/// A length as two big-endian bytes.
pub open spec fn be16(n: nat) -> Seq<u8> {
    seq![(n / 256) as u8, (n % 256) as u8]
}

/// The value of two big-endian length bytes.
pub open spec fn be16_value(hi: u8, lo: u8) -> nat {
    (hi as nat) * 256 + (lo as nat)
}

/// The bytes of one frame carrying `body` under `tag`.
pub open spec fn frame_bytes(tag: u8, body: Seq<u8>) -> Seq<u8> {
    seq![tag] + be16(body.len()) + body
}

/// Encodes a frame.
pub fn encode_frame(tag: u8, body: &[u8]) -> (r: Vec<u8>)
    requires
        body@.len() <= MAX_FRAME_BODY,
    ensures
        r@ == frame_bytes(tag, body@),
        r@.len() == body@.len() + 3,
        be16_value(r@[1], r@[2]) == body@.len(),
{
    let n = body.len();
    let hi = (n / 256) as u8;
    let lo = (n % 256) as u8;
    let mut r: Vec<u8> = Vec::new();
    r.push(tag);
    r.push(hi);
    r.push(lo);
    append_bytes(&mut r, body);
    assert(r@ == frame_bytes(tag, body@));
    r
}

/// Number of consecutive `Rekey` bytes in `s` from position `i` on.
pub open spec fn rekeys_from(s: Seq<u8>, i: int) -> nat
    decreases s.len() - i,
{
    if 0 <= i < s.len() && s[i] == REKEY_TAG {
        1 + rekeys_from(s, i + 1)
    } else {
        0
    }
}

/// Number of `Rekey` bytes that open `s`.
pub open spec fn leading_rekeys(s: Seq<u8>) -> nat {
    rekeys_from(s, 0)
}

/// Length of the first inbound unit of `s`, if `s` holds all of it.
pub open spec fn unit_len(s: Seq<u8>) -> Option<nat> {
    let k = leading_rekeys(s) as int;
    if k >= s.len() {
        None
    } else if s[k] == CLOSE_TAG {
        Some((k + 1) as nat)
    } else if s.len() < k + 3 {
        None
    } else {
        let l = be16_value(s[k + 1], s[k + 2]);
        if s.len() < k + 3 + l {
            None
        } else {
            Some((k + 3 + l) as nat)
        }
    }
}

/// How many more bytes a reader must take before `s` holds a whole unit.
pub open spec fn needed(s: Seq<u8>) -> nat {
    let k = leading_rekeys(s) as int;
    if k >= s.len() {
        1
    } else if s[k] == CLOSE_TAG {
        0
    } else if s.len() < k + 3 {
        (k + 3 - s.len()) as nat
    } else {
        let l = be16_value(s[k + 1], s[k + 2]);
        if s.len() < k + 3 + l {
            (k + 3 + l - s.len()) as nat
        } else {
            0
        }
    }
}

/// An inbound unit located in a buffer.
#[derive(Clone, Copy, Debug, PartialEq, Eq, Structural)]
pub struct Unit {
    /// Number of `Rekey` bytes before the tag.
    pub rekeys: usize,
    /// The tag byte.
    pub tag: u8,
    /// Index of the first ciphertext byte.
    pub body_start: usize,
    /// Number of ciphertext bytes; zero for `Close`.
    pub body_len: usize,
}

/// The unit that `s` holds exactly, if it holds one.
pub open spec fn unit_of(s: Seq<u8>) -> Option<Unit> {
    match unit_len(s) {
        Some(n) => if n == s.len() {
            let k = leading_rekeys(s) as int;
            if s[k] == CLOSE_TAG {
                Some(Unit { rekeys: k as usize, tag: CLOSE_TAG, body_start: (k + 1) as usize, body_len: 0 })
            } else {
                Some(
                    Unit {
                        rekeys: k as usize,
                        tag: s[k],
                        body_start: (k + 3) as usize,
                        body_len: be16_value(s[k + 1], s[k + 2]) as usize,
                    },
                )
            }
        } else {
            None
        },
        None => None,
    }
}

proof fn lemma_rekeys_bound(s: Seq<u8>, i: int)
    requires
        0 <= i <= s.len(),
    ensures
        i + rekeys_from(s, i) <= s.len(),
        forall|j: int| i <= j < i + rekeys_from(s, i) ==> s[j] == REKEY_TAG,
        i + rekeys_from(s, i) < s.len() ==> s[i + rekeys_from(s, i)] != REKEY_TAG,
    decreases s.len() - i,
{
    if i < s.len() && s[i] == REKEY_TAG {
        lemma_rekeys_bound(s, i + 1);
    }
}

fn count_rekeys(buf: &[u8]) -> (k: usize)
    ensures
        k == leading_rekeys(buf@),
        k <= buf@.len(),
{
    let mut i: usize = 0;
    while i < buf.len() && buf[i] == REKEY_TAG
        invariant
            0 <= i <= buf@.len(),
            rekeys_from(buf@, 0) == i + rekeys_from(buf@, i as int),
        decreases buf@.len() - i,
    {
        i = i + 1;
    }
    proof {
        lemma_rekeys_bound(buf@, 0);
    }
    i
}

/// How many more bytes the reader must take before `buf` holds a whole
/// inbound unit; zero once it does.
pub fn bytes_needed(buf: &[u8]) -> (r: usize)
    ensures
        r == needed(buf@),
        (r == 0) == (unit_len(buf@) is Some),
{
    let k = count_rekeys(buf);
    if k >= buf.len() {
        1
    } else if buf[k] == CLOSE_TAG {
        0
    } else if buf.len() - k < 3 {
        3 - (buf.len() - k)
    } else {
        let l = (buf[k + 1] as usize) * 256 + (buf[k + 2] as usize);
        if buf.len() - (k + 3) < l {
            l - (buf.len() - k - 3)
        } else {
            0
        }
    }
}

/// Locates the inbound unit that `buf` holds exactly.
///
/// `None` when `buf` is cut short or holds more than one unit.
pub fn parse_unit(buf: &[u8]) -> (r: Option<Unit>)
    ensures
        r == unit_of(buf@),
        r matches Some(u) ==> u.body_start + u.body_len == buf@.len() && u.tag != REKEY_TAG,
{
    proof {
        lemma_rekeys_bound(buf@, 0);
    }
    let k = count_rekeys(buf);
    if k >= buf.len() {
        None
    } else if buf[k] == CLOSE_TAG {
        if k + 1 == buf.len() {
            Some(Unit { rekeys: k, tag: CLOSE_TAG, body_start: k + 1, body_len: 0 })
        } else {
            None
        }
    } else if buf.len() - k < 3 {
        None
    } else {
        let l = (buf[k + 1] as usize) * 256 + (buf[k + 2] as usize);
        if buf.len() - (k + 3) == l {
            Some(Unit { rekeys: k, tag: buf[k], body_start: k + 3, body_len: l })
        } else {
            None
        }
    }
}

/// A frame always parses back to its tag and body.
pub proof fn lemma_frame_parses(tag: u8, body: Seq<u8>)
    requires
        body.len() <= MAX_FRAME_BODY,
        tag != REKEY_TAG,
        tag != CLOSE_TAG,
    ensures
        unit_of(frame_bytes(tag, body)) == Some(
            Unit { rekeys: 0, tag, body_start: 3, body_len: body.len() as usize },
        ),
        frame_bytes(tag, body).subrange(3, 3 + body.len() as int) == body,
{
    let s = frame_bytes(tag, body);
    assert(s[0] == tag);
    assert(rekeys_from(s, 1) >= 0);
    assert(leading_rekeys(s) == 0);
    assert(be16_value(s[1], s[2]) == body.len()) by {
        let n = body.len();
        assert(s[1] == (n / 256) as u8);
        assert(s[2] == (n % 256) as u8);
        assert((n / 256) < 256);
    }
    assert(s.subrange(3, 3 + body.len() as int) =~= body);
}

} // verus!
