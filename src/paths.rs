//! Slash-separated paths, and where a directory download puts each file.
//!
//! A directory download names the remote root and a local destination. Each
//! remote file under the root lands under `destination/<root's name>/`, at the
//! same relative place it had under the root.
use vstd::prelude::*;

use crate::bytes::{append_bytes, copy_range};

verus! {

/// The path separator.
pub const SLASH: u8 = 47;

/// Index of the last separator in `p[..i]`; `-1` when there is none.
pub open spec fn last_slash(p: Seq<u8>, i: int) -> int
    decreases i,
{
    if i <= 0 {
        -1
    } else if p[i - 1] == SLASH {
        i - 1
    } else {
        last_slash(p, i - 1)
    }
}

/// The last component of `p`.
pub open spec fn base_name(p: Seq<u8>) -> Seq<u8> {
    p.subrange(last_slash(p, p.len() as int) + 1, p.len() as int)
}

/// Everything of `p` before its last separator; empty when it has none.
pub open spec fn parent_of(p: Seq<u8>) -> Seq<u8> {
    let k = last_slash(p, p.len() as int);
    if k < 0 {
        seq![]
    } else {
        p.subrange(0, k)
    }
}

/// `a/b`, or `a` when `b` is empty.
pub open spec fn join(a: Seq<u8>, b: Seq<u8>) -> Seq<u8> {
    if b.len() == 0 {
        a
    } else {
        a + seq![SLASH] + b
    }
}

/// Whether `path` lies under the directory `root`.
pub open spec fn is_under(root: Seq<u8>, path: Seq<u8>) -> bool {
    &&& path.len() > root.len() + 1
    &&& path.subrange(0, root.len() as int) == root
    &&& path[root.len() as int] == SLASH
}

/// `path` relative to `root`.
pub open spec fn relative_to(root: Seq<u8>, path: Seq<u8>) -> Seq<u8> {
    path.subrange(root.len() as int + 1, path.len() as int)
}

/// The local directory that receives the remote file `path` of the remote
/// directory `root`, when the download goes to `dest`.
pub open spec fn file_destination(dest: Seq<u8>, root: Seq<u8>, path: Seq<u8>) -> Seq<u8> {
    join(join(dest, base_name(root)), parent_of(relative_to(root, path)))
}

proof fn lemma_last_slash_bounds(p: Seq<u8>, i: int)
    requires
        0 <= i <= p.len(),
    ensures
        -1 <= last_slash(p, i) < i,
        last_slash(p, i) >= 0 ==> p[last_slash(p, i)] == SLASH,
        forall|j: int| last_slash(p, i) < j < i ==> p[j] != SLASH,
    decreases i,
{
    if i > 0 && p[i - 1] != SLASH {
        lemma_last_slash_bounds(p, i - 1);
    }
}

proof fn lemma_last_slash_shift(a: Seq<u8>, b: Seq<u8>, i: int)
    requires
        0 <= i <= b.len(),
        last_slash(b, i) >= 0,
    ensures
        last_slash(a + b, a.len() + i) == a.len() + last_slash(b, i),
    decreases i,
{
    if i > 0 {
        assert((a + b)[a.len() + i - 1] == b[i - 1]);
        if b[i - 1] != SLASH {
            lemma_last_slash_shift(a, b, i - 1);
        }
    }
}

proof fn lemma_last_slash_none(a: Seq<u8>, b: Seq<u8>, i: int)
    requires
        0 <= i <= b.len(),
        last_slash(b, i) < 0,
    ensures
        last_slash(a + b, a.len() + i) == last_slash(a, a.len() as int),
    decreases i,
{
    if i > 0 {
        assert((a + b)[a.len() + i - 1] == b[i - 1]);
        lemma_last_slash_none(a, b, i - 1);
    } else {
        assert forall|j: int| 0 <= j <= a.len() implies last_slash(a + b, j) == last_slash(a, j) by {
            lemma_last_slash_prefix(a, b, j);
        }
    }
}

proof fn lemma_last_slash_prefix(a: Seq<u8>, b: Seq<u8>, j: int)
    requires
        0 <= j <= a.len(),
    ensures
        last_slash(a + b, j) == last_slash(a, j),
    decreases j,
{
    if j > 0 {
        assert((a + b)[j - 1] == a[j - 1]);
        lemma_last_slash_prefix(a, b, j - 1);
    }
}

/// A file of a downloaded directory keeps its place relative to the root:
/// it lands at `dest/<root's name>/<path relative to root>`.
pub proof fn lemma_tree_shape_kept(dest: Seq<u8>, root: Seq<u8>, path: Seq<u8>)
    requires
        is_under(root, path),
        path[path.len() - 1] != SLASH,
        path[root.len() as int + 1] != SLASH,
    ensures
        join(file_destination(dest, root, path), base_name(path)) == join(
            dest,
            base_name(root),
        ) + seq![SLASH] + relative_to(root, path),
{
    let rel = relative_to(root, path);
    let head = path.subrange(0, root.len() as int + 1);
    assert(path =~= head + rel);
    assert(head[root.len() as int] == SLASH);
    assert(last_slash(head, head.len() as int) == root.len());
    let d = join(dest, base_name(root));
    lemma_last_slash_bounds(rel, rel.len() as int);
    let k = last_slash(rel, rel.len() as int);
    if k >= 0 {
        lemma_last_slash_shift(head, rel, rel.len() as int);
        assert(base_name(path) =~= rel.subrange(k + 1, rel.len() as int));
        assert(base_name(path).len() > 0);
        assert(parent_of(rel) =~= rel.subrange(0, k));
        assert(rel[0] == path[root.len() as int + 1]);
        assert(k > 0);
        assert(rel =~= rel.subrange(0, k) + seq![SLASH] + rel.subrange(k + 1, rel.len() as int));
        assert(join(d, parent_of(rel)) == d + seq![SLASH] + rel.subrange(0, k));
        assert(join(join(d, parent_of(rel)), base_name(path)) =~= d + seq![SLASH] + rel);
    } else {
        lemma_last_slash_none(head, rel, rel.len() as int);
        assert(base_name(path) =~= rel);
        assert(parent_of(rel).len() == 0);
        assert(rel.len() > 0);
        assert(join(join(d, parent_of(rel)), base_name(path)) =~= d + seq![SLASH] + rel);
    }
}

/// `p` without trailing separators, keeping a lone leading one.
pub open spec fn strip_trailing(p: Seq<u8>) -> Seq<u8>
    decreases p.len(),
{
    if p.len() > 1 && p[p.len() - 1] == SLASH {
        strip_trailing(p.drop_last())
    } else {
        p
    }
}

/// A directory path without its trailing separators: `d/` names `d`.
pub fn trim_trailing_slashes(p: &[u8]) -> (r: Vec<u8>)
    ensures
        r@ == strip_trailing(p@),
{
    let mut end: usize = p.len();
    assert(p@.subrange(0, end as int) =~= p@);
    while end > 1 && p[end - 1] == SLASH
        invariant
            0 <= end <= p@.len(),
            strip_trailing(p@) == strip_trailing(p@.subrange(0, end as int)),
        decreases end,
    {
        assert(p@.subrange(0, end as int).drop_last() =~= p@.subrange(0, end - 1));
        end = end - 1;
    }
    let r = copy_range(p, 0, end);
    assert(strip_trailing(r@) == r@);
    r
}

fn last_slash_index(p: &[u8], end: usize) -> (r: Option<usize>)
    requires
        end <= p@.len(),
    ensures
        match r {
            Some(k) => last_slash(p@, end as int) == k as int && k < end,
            None => last_slash(p@, end as int) == -1,
        },
{
    let mut i: usize = end;
    while i > 0 && p[i - 1] != SLASH
        invariant
            0 <= i <= end <= p@.len(),
            last_slash(p@, end as int) == last_slash(p@, i as int),
        decreases i,
    {
        i = i - 1;
    }
    if i == 0 {
        None
    } else {
        Some(i - 1)
    }
}

/// The last component of a path.
pub fn file_name(p: &[u8]) -> (r: Vec<u8>)
    ensures
        r@ == base_name(p@),
{
    match last_slash_index(p, p.len()) {
        Some(k) => copy_range(p, k + 1, p.len()),
        None => {
            let r = copy_range(p, 0, p.len());
            assert(r@ =~= base_name(p@));
            r
        },
    }
}

fn join_into(out: &mut Vec<u8>, b: &[u8])
    ensures
        final(out)@ == join(old(out)@, b@),
{
    if b.len() > 0 {
        out.push(SLASH);
        append_bytes(out, b);
    }
}

/// The local directory for the remote file `path` of the remote directory
/// `root`; `None` when `path` does not lie under `root`.
pub fn dir_file_destination(dest: &[u8], root: &[u8], path: &[u8]) -> (r: Option<Vec<u8>>)
    ensures
        is_under(root@, path@) ==> r is Some && r->Some_0@ == file_destination(dest@, root@, path@),
        !is_under(root@, path@) ==> r is None,
{
    if path.len() <= root.len() || path.len() - root.len() < 2 {
        return None;
    }
    let mut i: usize = 0;
    while i < root.len()
        invariant
            0 <= i <= root@.len() < path@.len(),
            root@.subrange(0, i as int) == path@.subrange(0, i as int),
        decreases root@.len() - i,
    {
        if root[i] != path[i] {
            assert(root@[i as int] == root@.subrange(0, i + 1)[i as int]);
            assert(path@[i as int] == path@.subrange(0, i + 1)[i as int]);
            return None;
        }
        i = i + 1;
        assert(root@.subrange(0, i as int) =~= root@.subrange(0, i - 1).push(root@[i - 1]));
        assert(path@.subrange(0, i as int) =~= path@.subrange(0, i - 1).push(path@[i - 1]));
    }
    assert(root@.subrange(0, root@.len() as int) =~= root@);
    if path[root.len()] != SLASH {
        return None;
    }
    let rel = copy_range(path, root.len() + 1, path.len());
    let mut out = copy_range(dest, 0, dest.len());
    assert(out@ =~= dest@);
    let name = file_name(root);
    join_into(&mut out, name.as_slice());
    let parent = match last_slash_index(rel.as_slice(), rel.len()) {
        Some(k) => copy_range(rel.as_slice(), 0, k),
        None => Vec::new(),
    };
    assert(parent@ =~= parent_of(rel@));
    join_into(&mut out, parent.as_slice());
    Some(out)
}

} // verus!
