//! Explicit `name=value` bindings: the form the command line and
//! environment files use.  A double-quoted value is unquoted, with `\"`
//! escapes resolved.

use crate::strmap::StrMap;
use crate::text::{find_char, find_char_at, lemma_find_char};
use vstd::prelude::*;
use vstd::string::*;

verus! {

/// `\"` pairs become `"`, scanned left to right.
pub open spec fn unescape_quotes(s: Seq<char>) -> Seq<char>
    decreases s.len(),
{
    if s.len() == 0 {
        Seq::empty()
    } else if s.len() >= 2 && s[0] == '\\' && s[1] == '"' {
        seq!['"'] + unescape_quotes(s.skip(2))
    } else {
        seq![s[0]] + unescape_quotes(s.skip(1))
    }
}

/// What a binding line denotes: the text before the first `=` names the
/// identifier; the rest is the value, unquoted and unescaped when it is
/// wrapped in double quotes.  A line without `=` is no binding.
pub open spec fn spec_binding(s: Seq<char>) -> Option<(Seq<char>, Seq<char>)> {
    let eq = find_char(s, '=', 0);
    if eq == s.len() {
        None
    } else {
        let ident = s.take(eq);
        let value = s.subrange(eq + 1, s.len() as int);
        if value.len() >= 2 && value[0] == '"' && value.last() == '"' {
            Some((ident, unescape_quotes(value.subrange(1, value.len() - 1))))
        } else {
            Some((ident, value))
        }
    }
}

fn unescape_from(s: &str, i: usize) -> (r: String)
    requires
        i <= s@.len(),
    ensures
        r@ == unescape_quotes(s@.skip(i as int)),
    decreases s@.len() - i,
{
    let n = s.unicode_len();
    if i == n {
        let r = String::new();
        proof {
            assert(s@.skip(i as int) =~= Seq::<char>::empty());
        }
        r
    } else if s.get_char(i) == '\\' && i + 1 < n && s.get_char(i + 1) == '"' {
        let rest = unescape_from(s, i + 2);
        let mut out = "\"".to_owned();
        out.append(rest.as_str());
        proof {
            reveal_strlit("\"");
            assert(s@.skip(i as int).skip(2) =~= s@.skip(i as int + 2));
            assert(out@ =~= seq!['"'] + unescape_quotes(s@.skip(i as int + 2)));
        }
        out
    } else {
        let rest = unescape_from(s, i + 1);
        let mut out = s.substring_char(i, i + 1).to_owned();
        out.append(rest.as_str());
        proof {
            assert(s@.skip(i as int).skip(1) =~= s@.skip(i as int + 1));
            assert(s@.subrange(i as int, i as int + 1) =~= seq![s@[i as int]]);
            assert(out@ =~= seq![s@[i as int]] + unescape_quotes(s@.skip(i as int + 1)));
        }
        out
    }
}

/// Parses one `name=value` binding line.
pub fn parse_binding(s: &str) -> (r: Option<(String, String)>)
    ensures
        match r {
            Some(p) => spec_binding(s@) == Some((p.0@, p.1@)),
            None => spec_binding(s@) is None,
        },
{
    proof {
        lemma_find_char(s@, '=', 0);
    }
    let n = s.unicode_len();
    let eq = find_char_at(s, '=', 0);
    if eq == n {
        return Option::None;
    }
    let ident = s.substring_char(0, eq).to_owned();
    let vstart = eq + 1;
    let ghost value = s@.subrange(vstart as int, n as int);
    if n - vstart >= 2 && s.get_char(vstart) == '"' && s.get_char(n - 1) == '"' {
        let inner = s.substring_char(vstart + 1, n - 1);
        let unq = unescape_from(inner, 0);
        proof {
            assert(inner@.skip(0) =~= inner@);
            assert(inner@ =~= value.subrange(1, value.len() - 1));
        }
        Option::Some((ident, unq))
    } else {
        Option::Some((ident, s.substring_char(vstart, n).to_owned()))
    }
}

/// One trailing carriage return removed, as line splitting does.
pub open spec fn chomp_cr(s: Seq<char>) -> Seq<char> {
    if s.len() > 0 && s.last() == '\r' {
        s.drop_last()
    } else {
        s
    }
}

/// The scope after declaring every `name=value` line of `text` from
/// position `i` on, in order; `None` when some line is no binding.
pub open spec fn spec_env_bind(
    scope: Map<Seq<char>, Seq<char>>,
    text: Seq<char>,
    i: int,
) -> Option<Map<Seq<char>, Seq<char>>>
    decreases text.len() - i,
    via spec_env_bind_dec
{
    if i < 0 || i >= text.len() {
        Some(scope)
    } else {
        let j = find_char(text, '\n', i);
        let line = chomp_cr(text.subrange(i, j));
        match spec_binding(line) {
            None => None,
            Some(p) => {
                if j == text.len() {
                    Some(scope.insert(p.0, p.1))
                } else {
                    spec_env_bind(scope.insert(p.0, p.1), text, j + 1)
                }
            },
        }
    }
}

#[via_fn]
proof fn spec_env_bind_dec(scope: Map<Seq<char>, Seq<char>>, text: Seq<char>, i: int) {
    if 0 <= i < text.len() {
        lemma_find_char(text, '\n', i);
    }
}

fn declare_env_from(scope: &mut StrMap, text: &str, i: usize) -> (r: bool)
    requires
        i <= text@.len(),
    ensures
        match spec_env_bind(old(scope).as_map(), text@, i as int) {
            Some(m) => r && final(scope).as_map() == m,
            None => !r,
        },
    decreases text@.len() - i,
{
    let n = text.unicode_len();
    if i == n {
        return true;
    }
    proof {
        lemma_find_char(text@, '\n', i as int);
    }
    let j = find_char_at(text, '\n', i);
    let end = if j > i && text.get_char(j - 1) == '\r' {
        j - 1
    } else {
        j
    };
    proof {
        if j > i && text@[j as int - 1] == '\r' {
            assert(text@.subrange(i as int, j as int).last() == '\r');
            assert(text@.subrange(i as int, j as int).drop_last() =~= text@.subrange(
                i as int,
                j as int - 1,
            ));
        }
        assert(chomp_cr(text@.subrange(i as int, j as int)) =~= text@.subrange(
            i as int,
            end as int,
        ));
    }
    let line = text.substring_char(i, end);
    match parse_binding(line) {
        Option::None => false,
        Option::Some(p) => {
            scope.set(p.0, p.1);
            if j == n {
                true
            } else {
                declare_env_from(scope, text, j + 1)
            }
        },
    }
}

/// Declares every `name=value` line of `text` in the scope, in order;
/// `false` (with the bindings up to the bad line declared) when some line
/// is no binding.
pub fn declare_env_text(scope: &mut StrMap, text: &str) -> (r: bool)
    ensures
        match spec_env_bind(old(scope).as_map(), text@, 0) {
            Some(m) => r && final(scope).as_map() == m,
            None => !r,
        },
{
    declare_env_from(scope, text, 0)
}

} // verus!
