//! Mapping a path in one tree to its mirror in the other tree.
use vstd::prelude::*;
use vstd::string::*;

verus! {

/// The separators a root path may end with.
pub open spec fn is_sep(c: char) -> bool {
    c == '/' || c == '\\'
}

/// Whether a path string ends with a separator.
pub open spec fn ends_with_sep(s: Seq<char>) -> bool {
    s.len() > 0 && is_sep(s.last())
}

/// Where the relative part of a path under `root` starts: right after the
/// root, and after the one separator that follows it unless the root
/// already ends with one.
pub open spec fn rel_start(root: Seq<char>) -> int {
    if ends_with_sep(root) {
        root.len() as int
    } else {
        root.len() as int + 1
    }
}

/// `path` lies under `root`: it starts with `root`, followed by a separator
/// where `root` does not end with one.
pub open spec fn lies_under(path: Seq<char>, root: Seq<char>) -> bool {
    &&& root.len() <= path.len()
    &&& path.subrange(0, root.len() as int) == root
    &&& (ends_with_sep(root) || (root.len() < path.len() && is_sep(path[root.len() as int])))
}

/// The part of `path` below `root`.
pub open spec fn relative(path: Seq<char>, root: Seq<char>) -> Seq<char> {
    path.subrange(rel_start(root), path.len() as int)
}

/// `rel` appended to `base`, with one `/` between them where `base` is not
/// empty and does not already end with a separator.
pub open spec fn join(base: Seq<char>, rel: Seq<char>) -> Seq<char> {
    if base.len() == 0 || ends_with_sep(base) {
        base + rel
    } else {
        base + seq!['/'] + rel
    }
}

/// The mirror of `path` (under `from`) in the tree rooted at `to`.
pub open spec fn mirror(path: Seq<char>, from: Seq<char>, to: Seq<char>) -> Seq<char> {
    join(to, relative(path, from))
}

/// Why no mirror path could be computed.
#[derive(Debug, Clone, Copy, PartialEq, Eq)]
pub enum MirrorError {
    /// The path does not lie under the root it was said to be in.
    NotUnderRoot,
}

fn is_sep_char(c: char) -> (r: bool)
    ensures
        r == is_sep(c),
{
    c == '/' || c == '\\'
}

fn str_ends_with_sep(s: &str) -> (r: bool)
    ensures
        r == ends_with_sep(s@),
{
    let n = s.unicode_len();
    n > 0 && is_sep_char(s.get_char(n - 1))
}

/// Computes the mirror of `file`, which lies in the tree rooted at `src`,
/// in the tree rooted at `dest`.
pub(crate) fn get_mirror(file: &str, src: &str, dest: &str) -> (r: Result<String, MirrorError>)
    ensures
        r is Ok <==> lies_under(file@, src@),
        r matches Ok(m) ==> m@ == mirror(file@, src@, dest@),
{
    let flen = file.unicode_len();
    let slen = src.unicode_len();
    if slen > flen {
        return Err(MirrorError::NotUnderRoot);
    }
    let mut i: usize = 0;
    while i < slen
        invariant
            slen == src@.len(),
            flen == file@.len(),
            slen <= flen,
            i <= slen,
            forall|k: int| 0 <= k < i ==> file@[k] == src@[k],
        decreases slen - i,
    {
        if file.get_char(i) != src.get_char(i) {
            assert(file@.subrange(0, slen as int)[i as int] != src@[i as int]);
            return Err(MirrorError::NotUnderRoot);
        }
        i = i + 1;
    }
    assert(file@.subrange(0, slen as int) =~= src@);
    let start: usize = if str_ends_with_sep(src) {
        slen
    } else {
        if slen == flen || !is_sep_char(file.get_char(slen)) {
            return Err(MirrorError::NotUnderRoot);
        }
        slen + 1
    };
    let rel = file.substring_char(start, flen);
    let mut out = String::from_str(dest);
    if !dest.is_empty() && !str_ends_with_sep(dest) {
        out.append("/");
    }
    out.append(rel);
    proof {
        reveal_strlit("/");
        assert(out@ =~= mirror(file@, src@, dest@));
    }
    Ok(out)
}

/// Mapping a path to the other tree and back gives the path again, for a
/// path under `src` whose separator after the root, if the root does not
/// end with one, is `/`, and non-empty roots.
pub proof fn lemma_mirror_round_trip(p: Seq<char>, src: Seq<char>, dest: Seq<char>)
    requires
        lies_under(p, src),
        ends_with_sep(src) || p[src.len() as int] == '/',
        src.len() > 0,
        dest.len() > 0,
    ensures
        lies_under(mirror(p, src, dest), dest),
        mirror(mirror(p, src, dest), dest, src) == p,
{
    let rel = relative(p, src);
    let m = mirror(p, src, dest);
    if ends_with_sep(dest) {
        assert(m.subrange(0, dest.len() as int) =~= dest);
        assert(relative(m, dest) =~= rel);
    } else {
        assert(m.subrange(0, dest.len() as int) =~= dest);
        assert(m[dest.len() as int] == '/');
        assert(relative(m, dest) =~= rel);
    }
    if ends_with_sep(src) {
        assert(join(src, rel) =~= p);
    } else {
        assert(join(src, rel) =~= p);
    }
}

} // verus!
