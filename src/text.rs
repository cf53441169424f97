//! Line-oriented text: splitting into lines and `key: value` fields.
use vstd::prelude::*;

use crate::bytes::copy_range;

verus! {

/// The line feed byte.
pub const NEWLINE: u8 = 10;

/// The byte that separates a key from its value.
pub const COLON: u8 = 58;

/// The byte of a space.
pub const SPACE: u8 = 32;

/// ASCII whitespace: space, tab, carriage return and line feed.
pub open spec fn is_ws(b: u8) -> bool {
    b == 32 || b == 9 || b == 13 || b == 10
}

/// Whether `s` holds no whitespace.
pub open spec fn no_ws(s: Seq<u8>) -> bool {
    forall|i: int| 0 <= i < s.len() ==> !is_ws(#[trigger] s[i])
}

/// Whether `s` holds no colon.
pub open spec fn no_colon(s: Seq<u8>) -> bool {
    forall|i: int| 0 <= i < s.len() ==> #[trigger] s[i] != COLON
}

/// The lines of `s` from position `i`, the current line having begun at `start`.
pub open spec fn lines_acc(s: Seq<u8>, i: int, start: int) -> Seq<Seq<u8>>
    decreases s.len() - i,
{
    if i >= s.len() {
        if start < s.len() {
            seq![s.subrange(start, s.len() as int)]
        } else {
            seq![]
        }
    } else if s[i] == NEWLINE {
        seq![s.subrange(start, i)] + lines_acc(s, i + 1, i + 1)
    } else {
        lines_acc(s, i + 1, start)
    }
}

/// The lines of `s`: split at each line feed, the feeds dropped; a final
/// line feed ends the last line rather than opening an empty one.
pub open spec fn lines(s: Seq<u8>) -> Seq<Seq<u8>> {
    lines_acc(s, 0, 0)
}

/// The views of a sequence of byte vectors.
pub open spec fn views(v: Seq<Vec<u8>>) -> Seq<Seq<u8>> {
    v.map_values(|x: Vec<u8>| x@)
}

/// Splits `s` into its lines.
pub fn split_lines(s: &[u8]) -> (r: Vec<Vec<u8>>)
    ensures
        views(r@) == lines(s@),
{
    let mut out: Vec<Vec<u8>> = Vec::new();
    let mut start: usize = 0;
    let mut i: usize = 0;
    while i < s.len()
        invariant
            0 <= start <= i <= s@.len(),
            views(out@) + lines_acc(s@, i as int, start as int) == lines(s@),
        decreases s@.len() - i,
    {
        if s[i] == NEWLINE {
            let line = copy_range(s, start, i);
            let ghost before = views(out@);
            out.push(line);
            assert(views(out@) == before.push(line@));
            assert(before + lines_acc(s@, i as int, start as int) == before.push(line@)
                + lines_acc(s@, i + 1, i + 1));
            start = i + 1;
        }
        i = i + 1;
    }
    if start < s.len() {
        let line = copy_range(s, start, s.len());
        let ghost before = views(out@);
        out.push(line);
        assert(views(out@) == before.push(line@));
    } else {
        assert(views(out@) + Seq::<Seq<u8>>::empty() == views(out@));
    }
    out
}

/// First colon of `l` at or after `i`; `l.len()` when there is none.
pub open spec fn colon_from(l: Seq<u8>, i: int) -> int
    decreases l.len() - i,
{
    if i < 0 || i >= l.len() {
        l.len() as int
    } else if l[i] == COLON {
        i
    } else {
        colon_from(l, i + 1)
    }
}

/// First index in `lo..hi` that is not whitespace; `hi` when there is none.
pub open spec fn skip_ws(s: Seq<u8>, lo: int, hi: int) -> int
    decreases hi - lo,
{
    if lo < hi && is_ws(s[lo]) {
        skip_ws(s, lo + 1, hi)
    } else {
        lo
    }
}

/// One past the last index in `lo..hi` that is not whitespace; `lo` when there is none.
pub open spec fn back_ws(s: Seq<u8>, lo: int, hi: int) -> int
    decreases hi - lo,
{
    if lo < hi && is_ws(s[hi - 1]) {
        back_ws(s, lo, hi - 1)
    } else {
        hi
    }
}

/// `s[lo..hi]` without leading and trailing whitespace.
pub open spec fn trimmed(s: Seq<u8>, lo: int, hi: int) -> Seq<u8> {
    let a = skip_ws(s, lo, hi);
    s.subrange(a, back_ws(s, a, hi))
}

/// The key and value of a line `key: value`, both trimmed; `None` when the
/// line has no colon.
pub open spec fn field(l: Seq<u8>) -> Option<(Seq<u8>, Seq<u8>)> {
    let c = colon_from(l, 0);
    if c >= l.len() {
        None
    } else {
        Some((trimmed(l, 0, c), trimmed(l, c + 1, l.len() as int)))
    }
}

proof fn lemma_skip_ws_bounds(s: Seq<u8>, lo: int, hi: int)
    requires
        0 <= lo <= hi <= s.len(),
    ensures
        lo <= skip_ws(s, lo, hi) <= hi,
    decreases hi - lo,
{
    if lo < hi && is_ws(s[lo]) {
        lemma_skip_ws_bounds(s, lo + 1, hi);
    }
}

proof fn lemma_back_ws_bounds(s: Seq<u8>, lo: int, hi: int)
    requires
        0 <= lo <= hi <= s.len(),
    ensures
        lo <= back_ws(s, lo, hi) <= hi,
    decreases hi - lo,
{
    if lo < hi && is_ws(s[hi - 1]) {
        lemma_back_ws_bounds(s, lo, hi - 1);
    }
}

proof fn lemma_colon_bounds(l: Seq<u8>, i: int)
    requires
        0 <= i <= l.len(),
    ensures
        i <= colon_from(l, i) <= l.len(),
        colon_from(l, i) < l.len() ==> l[colon_from(l, i)] == COLON,
    decreases l.len() - i,
{
    if i < l.len() && l[i] != COLON {
        lemma_colon_bounds(l, i + 1);
    }
}

fn trim_range(s: &[u8], lo: usize, hi: usize) -> (r: Vec<u8>)
    requires
        lo <= hi <= s@.len(),
    ensures
        r@ == trimmed(s@, lo as int, hi as int),
{
    let mut a: usize = lo;
    while a < hi && (s[a] == 32 || s[a] == 9 || s[a] == 13 || s[a] == 10)
        invariant
            lo <= a <= hi <= s@.len(),
            skip_ws(s@, lo as int, hi as int) == skip_ws(s@, a as int, hi as int),
        decreases hi - a,
    {
        a = a + 1;
    }
    let mut b: usize = hi;
    while a < b && (s[b - 1] == 32 || s[b - 1] == 9 || s[b - 1] == 13 || s[b - 1] == 10)
        invariant
            lo <= a <= b <= hi <= s@.len(),
            a == skip_ws(s@, lo as int, hi as int),
            back_ws(s@, a as int, hi as int) == back_ws(s@, a as int, b as int),
        decreases b - a,
    {
        b = b - 1;
    }
    copy_range(s, a, b)
}

/// Splits a line `key: value` into its trimmed key and value.
pub fn parse_field(l: &[u8]) -> (r: Option<(Vec<u8>, Vec<u8>)>)
    ensures
        field(l@) is None ==> r is None,
        field(l@) matches Some(kv) ==> r is Some && r->Some_0.0@ == kv.0 && r->Some_0.1@ == kv.1,
{
    let mut c: usize = 0;
    while c < l.len() && l[c] != COLON
        invariant
            0 <= c <= l@.len(),
            colon_from(l@, 0) == colon_from(l@, c as int),
        decreases l@.len() - c,
    {
        c = c + 1;
    }
    if c >= l.len() {
        return None;
    }
    let key = trim_range(l, 0, c);
    let value = trim_range(l, c + 1, l.len());
    Some((key, value))
}

proof fn lemma_lines_shift(p: Seq<u8>, b: Seq<u8>, j: int, k: int)
    requires
        0 <= k <= j <= b.len(),
    ensures
        lines_acc(p + b, p.len() + j, p.len() + k) == lines_acc(b, j, k),
    decreases b.len() - j,
{
    let s = p + b;
    if j < b.len() {
        assert(s[p.len() + j] == b[j]);
        if b[j] == NEWLINE {
            lemma_lines_shift(p, b, j + 1, j + 1);
            assert(s.subrange(p.len() + k, p.len() + j) =~= b.subrange(k, j));
        } else {
            lemma_lines_shift(p, b, j + 1, k);
        }
    } else {
        assert(s.subrange(p.len() + k, s.len() as int) =~= b.subrange(k, b.len() as int));
    }
}

proof fn lemma_lines_append_acc(a: Seq<u8>, b: Seq<u8>, i: int, start: int)
    requires
        a.len() > 0,
        a[a.len() - 1] == NEWLINE,
        0 <= start <= i <= a.len(),
        i == a.len() ==> start == a.len(),
    ensures
        lines_acc(a + b, i, start) == lines_acc(a, i, start) + lines(b),
    decreases a.len() - i,
{
    let s = a + b;
    if i == a.len() {
        lemma_lines_shift(a, b, 0, 0);
        assert(lines_acc(a, i, start) =~= Seq::<Seq<u8>>::empty());
        assert(lines_acc(a, i, start) + lines(b) =~= lines(b));
    } else {
        assert(s[i] == a[i]);
        if a[i] == NEWLINE {
            lemma_lines_append_acc(a, b, i + 1, i + 1);
            assert(s.subrange(start, i) =~= a.subrange(start, i));
            assert(seq![a.subrange(start, i)] + (lines_acc(a, i + 1, i + 1) + lines(b)) =~= (seq![
                a.subrange(start, i),
            ] + lines_acc(a, i + 1, i + 1)) + lines(b));
        } else {
            lemma_lines_append_acc(a, b, i + 1, start);
        }
    }
}

/// Text that ends with a line feed keeps its lines when more text follows.
pub proof fn lemma_lines_append(a: Seq<u8>, b: Seq<u8>)
    requires
        a.len() > 0,
        a[a.len() - 1] == NEWLINE,
    ensures
        lines(a + b) == lines(a) + lines(b),
{
    lemma_lines_append_acc(a, b, 0, 0);
}

proof fn lemma_one_line_acc(l: Seq<u8>, i: int)
    requires
        0 <= i <= l.len(),
        forall|j: int| 0 <= j < l.len() ==> l[j] != NEWLINE,
    ensures
        lines_acc(l.push(NEWLINE), i, 0) == seq![l],
    decreases l.len() - i,
{
    let s = l.push(NEWLINE);
    if i < l.len() {
        assert(s[i] == l[i]);
        lemma_one_line_acc(l, i + 1);
    } else {
        assert(s[i] == NEWLINE);
        assert(s.subrange(0, i) =~= l);
        assert(lines_acc(s, i + 1, i + 1) =~= Seq::<Seq<u8>>::empty());
        assert(seq![l] + Seq::<Seq<u8>>::empty() =~= seq![l]);
    }
}

/// A line without line feeds, ended by one, is a single line.
pub proof fn lemma_one_line(l: Seq<u8>)
    requires
        forall|j: int| 0 <= j < l.len() ==> l[j] != NEWLINE,
    ensures
        lines(l.push(NEWLINE)) == seq![l],
{
    lemma_one_line_acc(l, 0);
}

proof fn lemma_skip_none(s: Seq<u8>, lo: int, hi: int)
    requires
        0 <= lo <= hi <= s.len(),
        forall|j: int| lo <= j < hi ==> !is_ws(s[j]),
    ensures
        skip_ws(s, lo, hi) == lo,
        back_ws(s, lo, hi) == hi,
{
}

proof fn lemma_colon_none(l: Seq<u8>, i: int, c: int)
    requires
        0 <= i <= c < l.len(),
        l[c] == COLON,
        forall|j: int| i <= j < c ==> l[j] != COLON,
    ensures
        colon_from(l, i) == c,
    decreases c - i,
{
    if i < c {
        lemma_colon_none(l, i + 1, c);
    }
}

/// The line `key: value` gives back its key and value when neither holds
/// whitespace and the key holds no colon.
pub proof fn lemma_field_round_trip(key: Seq<u8>, value: Seq<u8>)
    requires
        no_ws(key),
        no_colon(key),
        no_ws(value),
    ensures
        field(key + seq![COLON, SPACE] + value) == Some((key, value)),
{
    let l = key + seq![COLON, SPACE] + value;
    let c = key.len() as int;
    assert(l[c] == COLON);
    assert forall|j: int| 0 <= j < c implies l[j] != COLON && !is_ws(l[j]) by {
        assert(l[j] == key[j]);
    }
    lemma_colon_none(l, 0, c);
    lemma_skip_none(l, 0, c);
    assert(l.subrange(0, c) =~= key);
    assert(is_ws(l[c + 1]));
    assert forall|j: int| c + 2 <= j < l.len() implies !is_ws(l[j]) by {
        assert(l[j] == value[j - c - 2]);
    }
    lemma_skip_none(l, c + 2, l.len() as int);
    assert(skip_ws(l, c + 1, l.len() as int) == c + 2);
    assert(l.subrange(c + 2, l.len() as int) =~= value);
}

/// The line `key:value` gives back its key and value when neither holds
/// whitespace and the key holds no colon.
pub proof fn lemma_tight_field_round_trip(key: Seq<u8>, value: Seq<u8>)
    requires
        no_ws(key),
        no_colon(key),
        no_ws(value),
    ensures
        field(key + seq![COLON] + value) == Some((key, value)),
{
    let l = key + seq![COLON] + value;
    let c = key.len() as int;
    assert(l[c] == COLON);
    assert forall|j: int| 0 <= j < c implies l[j] != COLON && !is_ws(l[j]) by {
        assert(l[j] == key[j]);
    }
    lemma_colon_none(l, 0, c);
    lemma_skip_none(l, 0, c);
    assert(l.subrange(0, c) =~= key);
    assert forall|j: int| c + 1 <= j < l.len() implies !is_ws(l[j]) by {
        assert(l[j] == value[j - c - 1]);
    }
    lemma_skip_none(l, c + 1, l.len() as int);
    assert(l.subrange(c + 1, l.len() as int) =~= value);
}

} // verus!
