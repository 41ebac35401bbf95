//! Indented block emission: text split into lines, each line indented to
//! the current depth and newline-terminated.

use crate::text::{emit_indent, find_char, find_char_at, indent_text, lemma_find_char};
use vstd::prelude::*;
use vstd::string::*;

verus! {

/// A line chunk with a trailing carriage return removed, as line splitting
/// does.
pub open spec fn strip_cr(s: Seq<char>) -> Seq<char> {
    if s.len() > 0 && s.last() == '\r' {
        s.drop_last()
    } else {
        s
    }
}

/// `text` from position `i` on, split into lines at `\n` (a preceding `\r`
/// dropped), each line rendered as `indent + line + '\n'`.  Empty text
/// renders as nothing; a final line without a terminator gets one.
pub open spec fn spec_block(text: Seq<char>, i: int, depth: int) -> Seq<char>
    decreases text.len() - i,
    via spec_block_dec
{
    if i < 0 || i >= text.len() {
        Seq::empty()
    } else {
        let j = find_char(text, '\n', i);
        if j == text.len() {
            indent_text(depth) + strip_cr(text.subrange(i, j)) + seq!['\n']
        } else {
            indent_text(depth) + strip_cr(text.subrange(i, j)) + seq!['\n'] + spec_block(
                text,
                j + 1,
                depth,
            )
        }
    }
}

#[via_fn]
proof fn spec_block_dec(text: Seq<char>, i: int, depth: int) {
    if 0 <= i < text.len() {
        lemma_find_char(text, '\n', i);
    }
}

/// Appends `text` to `out` as an indented block of lines.
pub fn emit_block(out: &mut String, text: &str, i: usize, depth: usize)
    requires
        i <= text@.len(),
    ensures
        final(out)@ == old(out)@ + spec_block(text@, i as int, depth as int),
    decreases text@.len() - i,
{
    let n = text.unicode_len();
    if i == n {
        proof {
            assert(old(out)@ + spec_block(text@, i as int, depth as int) =~= old(out)@);
        }
        return ;
    }
    proof {
        lemma_find_char(text@, '\n', i as int);
    }
    let j = find_char_at(text, '\n', i);
    emit_indent(out, depth);
    let end = if j > i && text.get_char(j - 1) == '\r' {
        j - 1
    } else {
        j
    };
    proof {
        if j > i && text@[j as int - 1] == '\r' {
            assert(text@.subrange(i as int, j as int).last() == '\r');
            assert(text@.subrange(i as int, j as int).drop_last() =~= text@.subrange(
                i as int,
                j as int - 1,
            ));
        }
        assert(strip_cr(text@.subrange(i as int, j as int)) =~= text@.subrange(
            i as int,
            end as int,
        ));
    }
    out.append(text.substring_char(i, end));
    out.append("\n");
    proof {
        reveal_strlit("\n");
    }
    if j == n {
        proof {
            assert(out@ =~= old(out)@ + spec_block(text@, i as int, depth as int));
        }
    } else {
        let ghost mid = out@;
        proof {
            assert(mid =~= old(out)@ + (indent_text(depth as int) + strip_cr(
                text@.subrange(i as int, j as int),
            ) + seq!['\n']));
        }
        emit_block(out, text, j + 1, depth);
        proof {
            assert(out@ =~= old(out)@ + spec_block(text@, i as int, depth as int));
        }
    }
}

/// The body of the Make-style dependency record, from path `i` on: one
/// tab-indented line per path read, each ending in a backslash.
pub open spec fn spec_depfile(deps: Seq<Seq<char>>, i: int) -> Seq<char>
    decreases deps.len() - i,
{
    if i < 0 || i >= deps.len() {
        Seq::empty()
    } else {
        seq!['\t'] + deps[i] + seq![' ', '\\', '\n'] + spec_depfile(deps, i + 1)
    }
}

fn depfile_append(out: &mut String, deps: &Vec<String>, i: usize)
    requires
        i <= deps@.len(),
    ensures
        final(out)@ == old(out)@ + spec_depfile(deps.deep_view(), i as int),
    decreases deps@.len() - i,
{
    if i == deps.len() {
        proof {
            assert(old(out)@ + spec_depfile(deps.deep_view(), i as int) =~= old(out)@);
        }
        return ;
    }
    out.append("\t");
    out.append(deps[i].as_str());
    out.append(" \\\n");
    let ghost mid = out@;
    proof {
        reveal_strlit("\t");
        reveal_strlit(" \\\n");
        assert(deps.deep_view()[i as int] == deps@[i as int]@);
        assert(mid =~= old(out)@ + (seq!['\t'] + deps.deep_view()[i as int] + seq![
            ' ',
            '\\',
            '\n',
        ]));
    }
    depfile_append(out, deps, i + 1);
    proof {
        assert(out@ =~= old(out)@ + spec_depfile(deps.deep_view(), i as int));
    }
}

/// The Make-style dependency record: a `stdout:` rule listing every file
/// read, in the order first encountered, duplicates kept.
pub fn depfile_text(deps: &Vec<String>) -> (r: String)
    ensures
        r@ == seq!['s', 't', 'd', 'o', 'u', 't', ':', ' ', '\\', '\n'] + spec_depfile(
            deps.deep_view(),
            0,
        ),
{
    let mut out = "stdout: \\\n".to_owned();
    proof {
        reveal_strlit("stdout: \\\n");
        assert(out@ =~= seq!['s', 't', 'd', 'o', 'u', 't', ':', ' ', '\\', '\n']);
    }
    depfile_append(&mut out, deps, 0);
    out
}

} // verus!
