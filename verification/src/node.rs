//! The document tree: nodes, their entries and values, and the
//! classification of a node name into one of the fixed node kinds.

use crate::text::str_eq;
use vstd::prelude::*;

verus! {

/// A value attached to a node: either a string value, or the textual
/// rendering of a non-string value (number, boolean, null).
pub enum Value {
    /// A string value.  Text arguments are taken from these only.
    Str(String),
    /// The textual form of a non-string value.
    Lit(String),
}

impl Value {
    /// The text a value contributes when stringified: a string value passes
    /// through verbatim, any other value its textual form.
    pub open spec fn spec_text(self) -> Seq<char> {
        match self {
            Value::Str(s) => s@,
            Value::Lit(s) => s@,
        }
    }

    pub fn text(&self) -> (r: &String)
        ensures
            r@ == self.spec_text(),
    {
        match self {
            Value::Str(s) => s,
            Value::Lit(s) => s,
        }
    }
}

/// One entry of a node: a named `key=value` pair, or a positional value.
pub struct Entry {
    pub name: Option<String>,
    pub value: Value,
}

/// One node of the parsed document tree.
pub struct Node {
    pub name: String,
    pub entries: Vec<Entry>,
    pub children: Option<Vec<Node>>,
}

/// The fixed set of node behaviours, selected by node name.
pub enum NodeKind {
    /// `-`: an interpolated text line.
    TextLine,
    /// `let`: declares every named entry in the current scope.
    Binding,
    /// `markdown`: a Markdown block rendered to HTML.
    MarkdownBlock,
    /// `@` followed by the word for pulling in a file: splices another file.
    Inclusion,
    /// `@sh`: captured output of a shell command.
    ShellCapture,
    /// `!doctype`: a document-type declaration, legal only at the root.
    Doctype,
    /// Any other name: a generic HTML element.
    Element,
}

/// The name that selects the file-splicing behaviour.
pub open spec fn inclusion_name() -> Seq<char> {
    seq!['@', 'i', 'n', 'c', 'l', 'u', 'd', 'e']
}

/// Classification is a pure, total function of the node's name; any
/// unrecognised name is a generic element.
pub open spec fn spec_classify(name: Seq<char>) -> NodeKind {
    if name == seq!['-'] {
        NodeKind::TextLine
    } else if name == seq!['l', 'e', 't'] {
        NodeKind::Binding
    } else if name == seq!['m', 'a', 'r', 'k', 'd', 'o', 'w', 'n'] {
        NodeKind::MarkdownBlock
    } else if name == inclusion_name() {
        NodeKind::Inclusion
    } else if name == seq!['@', 's', 'h'] {
        NodeKind::ShellCapture
    } else if name == seq!['!', 'd', 'o', 'c', 't', 'y', 'p', 'e'] {
        NodeKind::Doctype
    } else {
        NodeKind::Element
    }
}

fn is_inclusion_name(s: &str) -> (r: bool)
    ensures
        r == (s@ == inclusion_name()),
{
    if s.unicode_len() != 8 {
        return false;
    }
    let r = s.get_char(0) == '@' && s.get_char(1) == 'i' && s.get_char(2) == 'n' && s.get_char(3)
        == 'c' && s.get_char(4) == 'l' && s.get_char(5) == 'u' && s.get_char(6) == 'd'
        && s.get_char(7) == 'e';
    proof {
        if r {
            assert(s@ =~= inclusion_name());
        } else {
            if s@ == inclusion_name() {
                assert(s@[0] == '@' && s@[1] == 'i' && s@[2] == 'n' && s@[3] == 'c' && s@[4] == 'l'
                    && s@[5] == 'u' && s@[6] == 'd' && s@[7] == 'e');
            }
        }
    }
    r
}

pub fn classify(name: &str) -> (r: NodeKind)
    ensures
        r == spec_classify(name@),
{
    proof {
        reveal_strlit("-");
        reveal_strlit("let");
        reveal_strlit("markdown");
        reveal_strlit("@sh");
        reveal_strlit("!doctype");
        assert("-"@ =~= seq!['-']);
        assert("let"@ =~= seq!['l', 'e', 't']);
        assert("markdown"@ =~= seq!['m', 'a', 'r', 'k', 'd', 'o', 'w', 'n']);
        assert("@sh"@ =~= seq!['@', 's', 'h']);
        assert("!doctype"@ =~= seq!['!', 'd', 'o', 'c', 't', 'y', 'p', 'e']);
    }
    if str_eq(name, "-") {
        NodeKind::TextLine
    } else if str_eq(name, "let") {
        NodeKind::Binding
    } else if str_eq(name, "markdown") {
        NodeKind::MarkdownBlock
    } else if is_inclusion_name(name) {
        NodeKind::Inclusion
    } else if str_eq(name, "@sh") {
        NodeKind::ShellCapture
    } else if str_eq(name, "!doctype") {
        NodeKind::Doctype
    } else {
        NodeKind::Element
    }
}

/// The first positional entry that carries a string value, from index `i`
/// on, if any.
pub open spec fn spec_text_arg(entries: Seq<Entry>, i: int) -> Option<Seq<char>>
    decreases entries.len() - i,
{
    if i < 0 || i >= entries.len() {
        None
    } else if entries[i].name is None && entries[i].value is Str {
        Some(entries[i].value->Str_0@)
    } else {
        spec_text_arg(entries, i + 1)
    }
}

fn text_arg_from<'a>(entries: &'a Vec<Entry>, i: usize) -> (r: Option<&'a String>)
    requires
        i <= entries@.len(),
    ensures
        match r {
            Some(s) => spec_text_arg(entries@, i as int) == Some(s@),
            None => spec_text_arg(entries@, i as int) is None,
        },
    decreases entries@.len() - i,
{
    if i == entries.len() {
        None
    } else {
        let e = &entries[i];
        if e.name.is_none() {
            match &e.value {
                Value::Str(s) => {
                    return Some(s);
                },
                _ => {},
            }
        }
        text_arg_from(entries, i + 1)
    }
}

/// The node's text argument: its first positional string value.
pub fn text_arg<'a>(entries: &'a Vec<Entry>) -> (r: Option<&'a String>)
    ensures
        match r {
            Some(s) => spec_text_arg(entries@, 0) == Some(s@),
            None => spec_text_arg(entries@, 0) is None,
        },
{
    text_arg_from(entries, 0)
}

/// The HTML void elements: rendered ` />` when empty, since they cannot
/// hold children.
pub open spec fn spec_is_void(name: Seq<char>) -> bool {
    ||| name == seq!['a', 'r', 'e', 'a']
    ||| name == seq!['b', 'a', 's', 'e']
    ||| name == seq!['b', 'r']
    ||| name == seq!['c', 'o', 'l']
    ||| name == seq!['e', 'm', 'b', 'e', 'd']
    ||| name == seq!['h', 'r']
    ||| name == seq!['i', 'm', 'g']
    ||| name == seq!['i', 'n', 'p', 'u', 't']
    ||| name == seq!['l', 'i', 'n', 'k']
    ||| name == seq!['m', 'e', 't', 'a']
    ||| name == seq!['p', 'a', 'r', 'a', 'm']
    ||| name == seq!['s', 'o', 'u', 'r', 'c', 'e']
    ||| name == seq!['t', 'r', 'a', 'c', 'k']
    ||| name == seq!['w', 'b', 'r']
}

pub fn is_void(name: &str) -> (r: bool)
    ensures
        r == spec_is_void(name@),
{
    proof {
        reveal_strlit("area");
        reveal_strlit("base");
        reveal_strlit("br");
        reveal_strlit("col");
        reveal_strlit("embed");
        reveal_strlit("hr");
        reveal_strlit("img");
        reveal_strlit("input");
        reveal_strlit("link");
        reveal_strlit("meta");
        reveal_strlit("param");
        reveal_strlit("source");
        reveal_strlit("track");
        reveal_strlit("wbr");
        assert("area"@ =~= seq!['a', 'r', 'e', 'a']);
        assert("base"@ =~= seq!['b', 'a', 's', 'e']);
        assert("br"@ =~= seq!['b', 'r']);
        assert("col"@ =~= seq!['c', 'o', 'l']);
        assert("embed"@ =~= seq!['e', 'm', 'b', 'e', 'd']);
        assert("hr"@ =~= seq!['h', 'r']);
        assert("img"@ =~= seq!['i', 'm', 'g']);
        assert("input"@ =~= seq!['i', 'n', 'p', 'u', 't']);
        assert("link"@ =~= seq!['l', 'i', 'n', 'k']);
        assert("meta"@ =~= seq!['m', 'e', 't', 'a']);
        assert("param"@ =~= seq!['p', 'a', 'r', 'a', 'm']);
        assert("source"@ =~= seq!['s', 'o', 'u', 'r', 'c', 'e']);
        assert("track"@ =~= seq!['t', 'r', 'a', 'c', 'k']);
        assert("wbr"@ =~= seq!['w', 'b', 'r']);
    }
    str_eq(name, "area") || str_eq(name, "base") || str_eq(name, "br") || str_eq(name, "col")
        || str_eq(name, "embed") || str_eq(name, "hr") || str_eq(name, "img") || str_eq(
        name,
        "input",
    ) || str_eq(name, "link") || str_eq(name, "meta") || str_eq(name, "param") || str_eq(
        name,
        "source",
    ) || str_eq(name, "track") || str_eq(name, "wbr")
}

} // verus!
