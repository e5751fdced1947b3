//! Filesystem paths, modelled as `/`-separated strings (Unix `Path::join` rules).
use vstd::prelude::*;

use crate::text::{chars_of, copy_str, push_char};

verus! {

/// `Path::join` on Unix: an absolute component replaces the base; otherwise the two
/// are joined with one `/` (none is added after a base that already ends with `/`,
/// or to an empty base).
pub open spec fn path_join(base: Seq<char>, comp: Seq<char>) -> Seq<char> {
    if comp.len() > 0 && comp[0] == '/' {
        comp
    } else if base.len() == 0 {
        comp
    } else if base.last() == '/' {
        base + comp
    } else {
        base + seq!['/'] + comp
    }
}

/// A path is absolute on Unix when it starts with `/`.
pub open spec fn is_absolute_path(p: Seq<char>) -> bool {
    p.len() > 0 && p[0] == '/'
}

/// `Path::is_absolute` (Unix).
pub fn is_absolute(p: &str) -> (b: bool)
    ensures
        b == is_absolute_path(p@),
{
    let v = chars_of(p);
    v.len() > 0 && v[0] == '/'
}

/// `Path::join` (Unix).
pub fn join_path(base: &str, comp: &str) -> (r: String)
    ensures
        r@ == path_join(base@, comp@),
{
    let b = chars_of(base);
    let c = chars_of(comp);
    if c.len() > 0 && c[0] == '/' {
        return copy_str(comp);
    }
    if b.len() == 0 {
        return copy_str(comp);
    }
    let mut r = copy_str(base);
    if b[b.len() - 1] != '/' {
        push_char(&mut r, '/');
    }
    r.append(comp);
    r
}

} // verus!
