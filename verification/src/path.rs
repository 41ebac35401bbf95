//! The path model: paths are plain strings; resolution against a working
//! directory, the directory part of a path, and its extension.

use crate::text::{find_last, find_last_at, lemma_find_last};
use vstd::prelude::*;
use vstd::string::*;

verus! {

/// Resolution of `p` against the working directory `wdir`: an absolute
/// path passes through; otherwise the two join with a `/` separator.
pub open spec fn spec_join(wdir: Seq<char>, p: Seq<char>) -> Seq<char> {
    if p.len() > 0 && p[0] == '/' {
        p
    } else if wdir.len() == 0 {
        p
    } else if wdir.last() == '/' {
        wdir + p
    } else {
        wdir + seq!['/'] + p
    }
}

pub fn join_path(wdir: &str, p: &str) -> (r: String)
    ensures
        r@ == spec_join(wdir@, p@),
{
    if p.unicode_len() > 0 && p.get_char(0) == '/' {
        return p.to_owned();
    }
    let wl = wdir.unicode_len();
    if wl == 0 {
        return p.to_owned();
    }
    let mut out = wdir.to_owned();
    if wdir.get_char(wl - 1) == '/' {
        out.append(p);
    } else {
        out.append("/");
        out.append(p);
        proof {
            reveal_strlit("/");
            assert(out@ =~= wdir@ + seq!['/'] + p@);
        }
    }
    out
}

/// The directory part of a path: everything before the last `/`; `/` when
/// the last `/` is the first character; empty when there is none.
pub open spec fn spec_parent(p: Seq<char>) -> Seq<char> {
    let k = find_last(p, '/');
    if k < 0 {
        Seq::empty()
    } else if k == 0 {
        seq!['/']
    } else {
        p.take(k)
    }
}

pub fn parent_dir(p: &str) -> (r: String)
    ensures
        r@ == spec_parent(p@),
{
    proof {
        lemma_find_last(p@, '/');
    }
    match find_last_at(p, '/') {
        Option::None => String::new(),
        Option::Some(k) => {
            if k == 0 {
                let out = "/".to_owned();
                proof {
                    reveal_strlit("/");
                    assert(out@ =~= seq!['/']);
                }
                out
            } else {
                let r = p.substring_char(0, k).to_owned();
                proof {
                    assert(r@ =~= p@.take(k as int));
                }
                r
            }
        },
    }
}

/// The extension of a path: the part after the last `.` of its final
/// component, provided that `.` is not the component's first character.
pub open spec fn spec_extension(p: Seq<char>) -> Option<Seq<char>> {
    let base = find_last(p, '/') + 1;
    let d = find_last(p, '.');
    if d > base {
        Some(p.subrange(d + 1, p.len() as int))
    } else {
        None
    }
}

pub fn extension_of(p: &str) -> (r: Option<String>)
    ensures
        match r {
            Some(e) => spec_extension(p@) == Some(e@),
            None => spec_extension(p@) is None,
        },
{
    proof {
        lemma_find_last(p@, '/');
        lemma_find_last(p@, '.');
    }
    let n = p.unicode_len();
    let base: usize = match find_last_at(p, '/') {
        Option::Some(k) => k + 1,
        Option::None => 0,
    };
    match find_last_at(p, '.') {
        Option::None => Option::None,
        Option::Some(d) => {
            if d > base {
                Option::Some(p.substring_char(d + 1, n).to_owned())
            } else {
                Option::None
            }
        },
    }
}

} // verus!
