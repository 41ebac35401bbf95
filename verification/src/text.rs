//! Character-level text utilities: scanning for characters and
//! interpolation markers, string equality, and tab indentation.

use vstd::prelude::*;
use vstd::string::*;

verus! {

/// Index of the first occurrence of `c` in `s` at or after `from`,
/// or `s.len()` if there is none.
pub open spec fn find_char(s: Seq<char>, c: char, from: int) -> int
    decreases s.len() - from,
{
    if from < 0 || from >= s.len() {
        s.len() as int
    } else if s[from] == c {
        from
    } else {
        find_char(s, c, from + 1)
    }
}

pub proof fn lemma_find_char(s: Seq<char>, c: char, from: int)
    requires
        0 <= from <= s.len(),
    ensures
        from <= find_char(s, c, from) <= s.len(),
        find_char(s, c, from) < s.len() ==> s[find_char(s, c, from)] == c,
        forall|k: int| from <= k < find_char(s, c, from) ==> s[k] != c,
    decreases s.len() - from,
{
    if from < s.len() && s[from] != c {
        lemma_find_char(s, c, from + 1);
    }
}

/// An interpolation marker `${` starts at index `i` of `s`.
pub open spec fn is_marker(s: Seq<char>, i: int) -> bool {
    0 <= i && i + 1 < s.len() && s[i] == '$' && s[i + 1] == '{'
}

/// Index of the first interpolation marker at or after `from`,
/// or `s.len()` if there is none.
pub open spec fn find_marker(s: Seq<char>, from: int) -> int
    decreases s.len() - from,
{
    if from < 0 || from + 1 >= s.len() {
        s.len() as int
    } else if s[from] == '$' && s[from + 1] == '{' {
        from
    } else {
        find_marker(s, from + 1)
    }
}

pub proof fn lemma_find_marker(s: Seq<char>, from: int)
    requires
        0 <= from <= s.len(),
    ensures
        from <= find_marker(s, from) <= s.len(),
        find_marker(s, from) < s.len() ==> is_marker(s, find_marker(s, from)),
        forall|k: int| from <= k < find_marker(s, from) ==> !is_marker(s, k),
    decreases s.len() - from,
{
    if from + 1 < s.len() && !(s[from] == '$' && s[from + 1] == '{') {
        lemma_find_marker(s, from + 1);
    }
}

/// Index of the last occurrence of `c` in `s`, or `-1` if there is none.
pub open spec fn find_last(s: Seq<char>, c: char) -> int
    decreases s.len(),
{
    if s.len() == 0 {
        -1
    } else if s[s.len() - 1] == c {
        s.len() - 1
    } else {
        find_last(s.take(s.len() - 1), c)
    }
}

pub proof fn lemma_find_last(s: Seq<char>, c: char)
    ensures
        -1 <= find_last(s, c) < s.len(),
        find_last(s, c) >= 0 ==> s[find_last(s, c)] == c,
        forall|k: int| find_last(s, c) < k < s.len() ==> s[k] != c,
    decreases s.len(),
{
    if s.len() > 0 && s[s.len() - 1] != c {
        lemma_find_last(s.take(s.len() - 1), c);
        assert(forall|k: int| 0 <= k < s.len() - 1 ==> s.take(s.len() - 1)[k] == s[k]);
    }
}

fn str_eq_from(a: &str, b: &str, i: usize) -> (r: bool)
    requires
        a@.len() == b@.len(),
        i <= a@.len(),
    ensures
        r ==> (forall|k: int| i <= k < a@.len() ==> a@[k] == b@[k]),
        !r ==> a@ != b@,
    decreases a@.len() - i,
{
    if i == a.unicode_len() {
        true
    } else if a.get_char(i) == b.get_char(i) {
        str_eq_from(a, b, i + 1)
    } else {
        proof {
            assert(a@[i as int] != b@[i as int]);
        }
        false
    }
}

/// Character-for-character equality of two strings.
pub fn str_eq(a: &str, b: &str) -> (r: bool)
    ensures
        r == (a@ == b@),
{
    if a.unicode_len() != b.unicode_len() {
        return false;
    }
    let r = str_eq_from(a, b, 0);
    proof {
        if r {
            assert(a@ =~= b@);
        }
    }
    r
}

/// Index of the first occurrence of `c` at or after `from`, or the length
/// of `s` if there is none.
pub fn find_char_at(s: &str, c: char, from: usize) -> (r: usize)
    requires
        from <= s@.len(),
    ensures
        r == find_char(s@, c, from as int),
    decreases s@.len() - from,
{
    if from == s.unicode_len() {
        from
    } else if s.get_char(from) == c {
        from
    } else {
        find_char_at(s, c, from + 1)
    }
}

/// Index of the first `${` marker at or after `from`, or the length of `s`
/// if there is none.
pub fn find_marker_at(s: &str, from: usize) -> (r: usize)
    requires
        from <= s@.len(),
    ensures
        r == find_marker(s@, from as int),
    decreases s@.len() - from,
{
    let n = s.unicode_len();
    if n == 0 || from >= n - 1 {
        n
    } else if s.get_char(from) == '$' && s.get_char(from + 1) == '{' {
        from
    } else {
        find_marker_at(s, from + 1)
    }
}

fn find_last_before(s: &str, c: char, n: usize) -> (r: Option<usize>)
    requires
        n <= s@.len(),
    ensures
        match r {
            Some(i) => i < n && find_last(s@.take(n as int), c) == i as int,
            None => find_last(s@.take(n as int), c) == -1,
        },
    decreases n,
{
    if n == 0 {
        None
    } else if s.get_char(n - 1) == c {
        Some(n - 1)
    } else {
        proof {
            assert(s@.take(n as int).take(n as int - 1) =~= s@.take(n as int - 1));
        }
        find_last_before(s, c, n - 1)
    }
}

/// Index of the last occurrence of `c` in `s`, if any.
pub fn find_last_at(s: &str, c: char) -> (r: Option<usize>)
    ensures
        match r {
            Some(i) => find_last(s@, c) == i as int,
            None => find_last(s@, c) == -1,
        },
{
    let n = s.unicode_len();
    proof {
        assert(s@.take(n as int) =~= s@);
    }
    find_last_before(s, c, n)
}

/// One tab character for each indentation level.
pub open spec fn indent_text(depth: int) -> Seq<char>
    decreases depth,
{
    if depth <= 0 {
        Seq::empty()
    } else {
        indent_text(depth - 1).push('\t')
    }
}

/// Appends `depth` tab characters to `out`.
pub fn emit_indent(out: &mut String, depth: usize)
    ensures
        final(out)@ == old(out)@ + indent_text(depth as int),
    decreases depth,
{
    if depth == 0 {
        proof {
            assert(old(out)@ + indent_text(0) =~= old(out)@);
        }
    } else {
        emit_indent(out, depth - 1);
        out.append("\t");
        proof {
            reveal_strlit("\t");
            assert(old(out)@ + indent_text(depth as int) =~= old(out)@ + indent_text(
                depth as int - 1,
            ) + "\t"@);
        }
    }
}

} // verus!
