//! Paths, with `/` between their parts.

use crate::text::{chars_of, same_text, slices, split, split_text, string_of};
use vstd::prelude::*;
use vstd::string::*;

verus! {

/// `rel` below `base`. A path that begins with `/` stands for itself.
pub open spec fn path_join(base: Seq<char>, rel: Seq<char>) -> Seq<char> {
    if base.len() == 0 || (rel.len() > 0 && rel[0] == '/') {
        rel
    } else if base.last() == '/' {
        base + rel
    } else {
        base + "/"@ + rel
    }
}

/// `rel` below `base`.
pub fn join_path(base: &str, rel: &str) -> (r: String)
    ensures
        r@ == path_join(base@, rel@),
{
    let b = chars_of(base);
    let x = chars_of(rel);
    if b.len() == 0 || (x.len() > 0 && x[0] == '/') {
        return rel.to_owned();
    }
    let mut r = base.to_owned();
    if b[b.len() - 1] != '/' {
        r.append("/");
    }
    r.append(rel);
    r
}

/// The last of the parts that is neither empty nor `.`.
pub open spec fn last_part(parts: Seq<Seq<char>>) -> Option<Seq<char>>
    decreases parts.len(),
{
    if parts.len() == 0 {
        None
    } else if parts.last() == ""@ || parts.last() == "."@ {
        last_part(parts.drop_last())
    } else {
        Some(parts.last())
    }
}

/// The name of the file that a path leads to; none where it leads to a root or a parent.
pub open spec fn name_in(path: Seq<char>) -> Option<Seq<char>> {
    match last_part(split_text(path, "/"@)) {
        Some(p) if p != ".."@ => Some(p),
        _ => None,
    }
}

/// Where the last dot of a name stands, or -1.
pub open spec fn last_dot(name: Seq<char>) -> int
    decreases name.len(),
{
    if name.len() == 0 {
        -1
    } else if name.last() == '.' {
        name.len() - 1
    } else {
        last_dot(name.drop_last())
    }
}

/// What follows the last dot of a file's name. A dot at the front begins no extension.
pub open spec fn extension_in(path: Seq<char>) -> Option<Seq<char>> {
    match name_in(path) {
        Some(n) if last_dot(n) > 0 => Some(n.skip(last_dot(n) + 1)),
        _ => None,
    }
}

/// The name of the file that a path leads to.
pub fn file_name(path: &str) -> (r: Option<&str>)
    ensures
        match r {
            Some(n) => name_in(path@) == Some(n@),
            None => name_in(path@) is None,
        },
{
    proof {
        reveal_strlit("/");
    }
    let parts = split(path, "/");
    let mut n: usize = parts.len();
    assert(slices(parts@).take(n as int) =~= slices(parts@));
    while n > 0
        invariant
            n <= parts@.len(),
            slices(parts@) == split_text(path@, "/"@),
            last_part(slices(parts@)) == last_part(slices(parts@).take(n as int)),
        decreases n,
    {
        let part = parts[n - 1];
        let ghost all = slices(parts@);
        assert(all.take(n as int).last() == part@);
        assert(all.take(n as int).drop_last() =~= all.take(n - 1));
        if !same_text(part, "") && !same_text(part, ".") {
            return if same_text(part, "..") {
                None
            } else {
                Some(part)
            };
        }
        n = n - 1;
    }
    None
}

/// What follows the last dot of the name of the file that a path leads to.
pub fn extension(path: &str) -> (r: Option<String>)
    ensures
        match r {
            Some(e) => extension_in(path@) == Some(e@),
            None => extension_in(path@) is None,
        },
{
    match file_name(path) {
        None => None,
        Some(name) => {
            let x = chars_of(name);
            let mut n: usize = x.len();
            assert(x@.take(n as int) =~= x@);
            while n > 0
                invariant
                    n <= x@.len(),
                    x@ == name@,
                    name_in(path@) == Some(name@),
                    last_dot(x@) == last_dot(x@.take(n as int)),
                decreases n,
            {
                assert(x@.take(n as int).drop_last() =~= x@.take(n - 1));
                if x[n - 1] == '.' {
                    if n == 1 {
                        return None;
                    }
                    assert(x@.subrange(n as int, x@.len() as int) =~= name@.skip(n as int));
                    return Some(string_of(&x, n, x.len()));
                }
                n = n - 1;
            }
            None
        },
    }
}

} // verus!
