use vstd::prelude::*;
use vstd::string::{StrSliceExecFns, StringExecFns};

verus! {

/// A path separator: `/`, or `\\` as Windows writes it.
pub open spec fn is_separator(c: char) -> bool {
    c == '/' || c == '\\'
}

/// The path with each separator written as `/`.
pub open spec fn with_slashes(p: Seq<char>) -> Seq<char> {
    p.map_values(|c: char| if is_separator(c) { '/' } else { c })
}

/// A path made relative to the watched root, prefix stripped at a separator
/// boundary; a path outside the root is left as it is.
pub open spec fn strip_root(root: Seq<char>, path: Seq<char>) -> Seq<char> {
    if root.len() <= path.len() && path.subrange(0, root.len() as int) == root {
        let rest = path.subrange(root.len() as int, path.len() as int);
        if rest.len() == 0 {
            rest
        } else if root.len() == 0 {
            path
        } else if is_separator(rest[0]) {
            rest.subrange(1, rest.len() as int)
        } else if is_separator(root.last()) {
            rest
        } else {
            path
        }
    } else {
        path
    }
}

fn starts_with(path: &str, root: &str, rl: usize) -> (r: bool)
    requires
        rl == root@.len(),
        rl <= path@.len(),
    ensures
        r == (path@.subrange(0, rl as int) == root@),
{
    let mut i: usize = 0;
    while i < rl
        invariant
            0 <= i <= rl,
            rl == root@.len(),
            rl <= path@.len(),
            forall|j: int| 0 <= j < i ==> path@[j] == root@[j],
        decreases rl - i,
    {
        if path.get_char(i) != root.get_char(i) {
            assert(path@.subrange(0, rl as int)[i as int] != root@[i as int]);
            return false;
        }
        i = i + 1;
    }
    assert(path@.subrange(0, rl as int) =~= root@);
    true
}

/// A path as the ignore globs see it: relative to the root, with `/`
/// separators.
pub open spec fn rel_to_root(root: Seq<char>, path: Seq<char>) -> Seq<char> {
    with_slashes(strip_root(root, path))
}

/// Writes each separator of a path as `/`.
pub fn to_slashes(p: &str) -> (r: String)
    ensures
        r@ == with_slashes(p@),
{
    let n = p.unicode_len();
    let mut out = String::new();
    let mut i: usize = 0;
    while i < n
        invariant
            0 <= i <= n,
            n == p@.len(),
            out@ == with_slashes(p@.take(i as int)),
        decreases n - i,
    {
        let c = p.get_char(i);
        if c == '/' || c == '\\' {
            out = out.concat("/");
        } else {
            out = out.concat(p.substring_char(i, i + 1));
        }
        proof {
            reveal_strlit("/");
        }
        assert(with_slashes(p@.take(i + 1)) =~= with_slashes(p@.take(i as int)).push(
            if is_separator(c) {
                '/'
            } else {
                c
            },
        ));
        assert(out@ =~= with_slashes(p@.take(i + 1)));
        i = i + 1;
    }
    assert(p@.take(n as int) =~= p@);
    out
}

fn is_sep_char(c: char) -> (r: bool)
    ensures
        r == is_separator(c),
{
    c == '/' || c == '\\'
}

fn strip_root_exec<'a>(root: &str, path: &'a str) -> (r: &'a str)
    ensures
        r@ == strip_root(root@, path@),
{
    let rl = root.unicode_len();
    let pl = path.unicode_len();
    if rl <= pl && starts_with(path, root, rl) {
        if rl == pl {
            return path.substring_char(pl, pl);
        }
        if rl == 0 {
            return path;
        }
        if is_sep_char(path.get_char(rl)) {
            let rest = path.substring_char(rl + 1, pl);
            assert(rest@ =~= path@.subrange(rl as int, pl as int).subrange(1, (pl - rl) as int));
            return rest;
        }
        if is_sep_char(root.get_char(rl - 1)) {
            return path.substring_char(rl, pl);
        }
    }
    path
}

/// The path relative to `root`, as the ignore globs see it: the root
/// stripped at a separator, and every separator written as `/`, so that
/// globs match alike on every platform.
pub fn relative_path(root: &str, path: &str) -> (r: String)
    ensures
        r@ == rel_to_root(root@, path@),
{
    to_slashes(strip_root_exec(root, path))
}

} // verus!
