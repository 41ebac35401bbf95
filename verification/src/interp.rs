//! The interpolation engine: substitutes `${name}` placeholders in a
//! string using the current binding scope.  Substitution is not recursive:
//! a substituted value is never re-scanned for further markers.  Markers
//! are resolved left to right, each independently; a marker whose segment
//! (up to the next marker) holds no closing `}` is an error, and so is a
//! lookup miss.

use crate::error::EvalError;
use crate::strmap::StrMap;
use crate::text::{find_char, find_char_at, find_marker, find_marker_at, is_marker, lemma_find_char,
    lemma_find_marker};
use vstd::prelude::*;
use vstd::string::*;

verus! {

/// What interpolating a string yields.
pub enum InterpRes {
    /// The fully substituted text.
    Done(Seq<char>),
    /// A variable that is not bound in the scope.
    Unbound(Seq<char>),
    /// A `${` marker with no closing `}` in its segment.
    Unterminated,
}

/// Interpolation of `s` from index `i` on, under the bindings `m`.
pub open spec fn spec_interp(m: Map<Seq<char>, Seq<char>>, s: Seq<char>, i: int) -> InterpRes
    decreases s.len() - i,
    via spec_interp_dec
{
    if i < 0 || i >= s.len() {
        InterpRes::Done(Seq::empty())
    } else {
        let mk = find_marker(s, i);
        if mk == s.len() {
            InterpRes::Done(s.subrange(i, s.len() as int))
        } else {
            let nm = find_marker(s, mk + 2);
            let j = find_char(s, '}', mk + 2);
            if j >= nm {
                InterpRes::Unterminated
            } else {
                let name = s.subrange(mk + 2, j);
                if !m.contains_key(name) {
                    InterpRes::Unbound(name)
                } else {
                    match spec_interp(m, s, j + 1) {
                        InterpRes::Done(t) => InterpRes::Done(
                            s.subrange(i, mk) + m[name] + t,
                        ),
                        e => e,
                    }
                }
            }
        }
    }
}

#[via_fn]
proof fn spec_interp_dec(m: Map<Seq<char>, Seq<char>>, s: Seq<char>, i: int) {
    if 0 <= i < s.len() {
        lemma_find_marker(s, i);
        let mk = find_marker(s, i);
        if mk < s.len() {
            lemma_find_marker(s, mk + 2);
            lemma_find_char(s, '}', mk + 2);
        }
    }
}

fn interp_from(scope: &StrMap, s: &str, i: usize) -> (r: Result<String, EvalError>)
    requires
        i <= s@.len(),
    ensures
        match spec_interp(scope.as_map(), s@, i as int) {
            InterpRes::Done(t) => r matches Ok(v) && v@ == t,
            InterpRes::Unbound(n) => r matches Err(EvalError::UnboundVariable(v)) && v@ == n,
            InterpRes::Unterminated => r matches Err(EvalError::UnterminatedInterpolation),
        },
    decreases s@.len() - i,
{
    let n = s.unicode_len();
    proof {
        lemma_find_marker(s@, i as int);
    }
    let mk = find_marker_at(s, i);
    if mk == n {
        if i == n {
            return Ok(String::new());
        }
        let chunk = s.substring_char(i, n);
        return Ok(chunk.to_owned());
    }
    proof {
        lemma_find_marker(s@, mk as int + 2);
        lemma_find_char(s@, '}', mk as int + 2);
    }
    let nm = find_marker_at(s, mk + 2);
    let j = find_char_at(s, '}', mk + 2);
    if j >= nm {
        return Err(EvalError::UnterminatedInterpolation);
    }
    let name = s.substring_char(mk + 2, j);
    match scope.get(name) {
        Option::None => Err(EvalError::UnboundVariable(name.to_owned())),
        Option::Some(value) => {
            let value = value.clone();
            match interp_from(scope, s, j + 1) {
                Err(e) => Err(e),
                Ok(rest) => {
                    let ghost m = scope.as_map();
                    let ghost gname = name@;
                    let mut out = String::new();
                    out.append(s.substring_char(i, mk));
                    out.append(value.as_str());
                    out.append(rest.as_str());
                    proof {
                        assert(out@ =~= s@.subrange(i as int, mk as int) + m[gname] + rest@);
                    }
                    Ok(out)
                },
            }
        },
    }
}

/// Substitutes every `${name}` placeholder in `s` from the scope.
pub fn interpolate(scope: &StrMap, s: &str) -> (r: Result<String, EvalError>)
    ensures
        match spec_interp(scope.as_map(), s@, 0) {
            InterpRes::Done(t) => r matches Ok(v) && v@ == t,
            InterpRes::Unbound(n) => r matches Err(EvalError::UnboundVariable(v)) && v@ == n,
            InterpRes::Unterminated => r matches Err(EvalError::UnterminatedInterpolation),
        },
{
    interp_from(scope, s, 0)
}

/// A string without any `${` marker interpolates to itself, under every
/// scope: interpolation is the identity there.
pub proof fn lemma_interp_no_marker_identity(m: Map<Seq<char>, Seq<char>>, s: Seq<char>)
    requires
        forall|k: int| 0 <= k < s.len() ==> !is_marker(s, k),
    ensures
        spec_interp(m, s, 0) == InterpRes::Done(s),
{
    if s.len() == 0 {
        assert(Seq::<char>::empty() =~= s);
    } else {
        lemma_find_marker(s, 0);
        assert(find_marker(s, 0) == s.len());
        assert(s.subrange(0, s.len() as int) =~= s);
    }
}

/// Interpolating exactly `${name}` yields the bound value when the scope
/// binds `name`, and fails as an unbound variable when it does not.  The
/// name must hold no `}` and no `${` of its own, else the marker would be
/// read differently.
pub proof fn lemma_interp_single_var(m: Map<Seq<char>, Seq<char>>, name: Seq<char>, s: Seq<char>)
    requires
        s == seq!['$', '{'] + name + seq!['}'],
        forall|k: int| 0 <= k < name.len() ==> name[k] != '}',
        forall|k: int| 0 <= k < name.len() ==> !is_marker(name, k),
    ensures
        m.contains_key(name) ==> spec_interp(m, s, 0) == InterpRes::Done(m[name]),
        !m.contains_key(name) ==> spec_interp(m, s, 0) == InterpRes::Unbound(name),
{
    let len = s.len() as int;
    let nl = name.len() as int;
    assert(len == nl + 3);
    assert(s[0] == '$' && s[1] == '{');
    assert(forall|k: int| 0 <= k < nl ==> s[k + 2] == name[k]);
    assert(s[nl + 2] == '}');

    lemma_find_marker(s, 0);
    let mk = find_marker(s, 0);
    assert(is_marker(s, 0));
    assert(mk == 0);

    lemma_find_char(s, '}', 2);
    let j = find_char(s, '}', 2);
    assert(forall|k: int| 2 <= k < nl + 2 ==> s[k] != '}');
    assert(j == nl + 2) by {
        if j < nl + 2 {
            assert(s[j] != '}');
        }
        if j > nl + 2 {
            assert(s[nl + 2] == '}');
        }
    }

    lemma_find_marker(s, 2);
    let nm = find_marker(s, 2);
    assert(forall|k: int| 2 <= k < nl + 1 ==> !is_marker(s, k)) by {
        assert forall|k: int| 2 <= k < nl + 1 implies !is_marker(s, k) by {
            assert(s[k] == name[k - 2]);
            assert(s[k + 1] == name[k - 1]);
            assert(!is_marker(name, k - 2));
        }
    }
    assert(nm > j) by {
        if nm <= j {
            assert(is_marker(s, nm));
            if nm == nl + 1 {
                assert(s[nm + 1] == '}');
            }
            if nm == nl + 2 {
                assert(s[nm] == '}');
            }
        }
    }

    assert(s.subrange(2, j) =~= name);
    assert(spec_interp(m, s, j + 1) == InterpRes::Done(Seq::<char>::empty()));
    if m.contains_key(name) {
        assert(s.subrange(0, 0) + m[name] + Seq::<char>::empty() =~= m[name]);
    }
}

} // verus!
