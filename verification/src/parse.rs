//! The parser collaborator: KDL source text becomes the library's node
//! tree.  The kdl crate does the parsing; the tree walk that copies its
//! result into plain values is verified code over opaque handles.

use crate::error::EvalError;
use crate::node::{Entry, Node, Value};
use vstd::prelude::*;
use vstd::slice::slice_index_get;

verus! {

#[verifier::external_type_specification]
#[verifier::external_body]
pub struct ExKdlDocument(kdl::KdlDocument);

#[verifier::external_type_specification]
#[verifier::external_body]
pub struct ExKdlNode(kdl::KdlNode);

#[verifier::external_type_specification]
#[verifier::external_body]
pub struct ExKdlEntry(kdl::KdlEntry);

#[verifier::external_type_specification]
#[verifier::external_body]
pub struct ExKdlError(kdl::KdlError);

/// Relies on kdl's `FromStr` for `KdlDocument`: parses KDL source into a
/// document tree, or reports a parse error.
#[verifier::external_body]
fn parse_kdl(src: &str) -> Result<kdl::KdlDocument, kdl::KdlError> {
    src.parse::<kdl::KdlDocument>()
}

/// Relies on `kdl::KdlError`'s `Display` impl: the parser's message.
#[verifier::external_body]
fn kdl_error_message(e: &kdl::KdlError) -> String {
    e.to_string()
}

/// Relies on `kdl::KdlDocument::nodes`: the top-level nodes in document
/// order.
#[verifier::external_body]
fn doc_nodes(d: &kdl::KdlDocument) -> &[kdl::KdlNode] {
    d.nodes()
}

/// Relies on `kdl::KdlNode::name` and `kdl::KdlIdentifier::value`: the
/// node's name string.
#[verifier::external_body]
fn node_name(n: &kdl::KdlNode) -> String {
    n.name().value().to_owned()
}

/// Relies on `kdl::KdlNode::entries`: the node's entries in document order.
#[verifier::external_body]
fn node_entries(n: &kdl::KdlNode) -> &[kdl::KdlEntry] {
    n.entries()
}

/// Relies on `kdl::KdlNode::children` and `kdl::KdlDocument::nodes`: the
/// child nodes, when the node has a children block.
#[verifier::external_body]
fn node_children(n: &kdl::KdlNode) -> Option<&[kdl::KdlNode]> {
    n.children().map(|d| d.nodes())
}

/// Relies on `kdl::KdlEntry::name` and `kdl::KdlIdentifier::value`: the
/// entry's name, when it is a named entry.
#[verifier::external_body]
fn entry_name(e: &kdl::KdlEntry) -> Option<String> {
    e.name().map(|i| i.value().to_owned())
}

/// Relies on `kdl::KdlValue::as_string` and `KdlValue`'s `Display` impl: a
/// string value passes through verbatim, any other value becomes its
/// textual form.
#[verifier::external_body]
fn entry_value(e: &kdl::KdlEntry) -> Value {
    match e.value().as_string() {
        Some(s) => Value::Str(s.to_owned()),
        None => Value::Lit(e.value().to_string()),
    }
}

fn conv_nodes(ns: &[kdl::KdlNode], fuel: u64) -> (r: Result<Vec<Node>, EvalError>)
    decreases fuel, 1int,
{
    let mut out: Vec<Node> = Vec::new();
    let mut i: usize = 0;
    while i < ns.len()
        invariant
            i <= ns@.len(),
        decreases ns@.len() - i,
    {
        match conv_node(slice_index_get(ns, i), fuel) {
            Ok(n) => out.push(n),
            Err(e) => {
                return Err(e);
            },
        }
        i = i + 1;
    }
    Ok(out)
}

fn conv_node(n: &kdl::KdlNode, fuel: u64) -> (r: Result<Node, EvalError>)
    decreases fuel, 0int,
{
    if fuel == 0 {
        return Err(EvalError::RecursionLimit);
    }
    let name = node_name(n);
    let es = node_entries(n);
    let mut entries: Vec<Entry> = Vec::new();
    let mut i: usize = 0;
    while i < es.len()
        invariant
            i <= es@.len(),
        decreases es@.len() - i,
    {
        let e = slice_index_get(es, i);
        entries.push(Entry { name: entry_name(e), value: entry_value(e) });
        i = i + 1;
    }
    let children = match node_children(n) {
        Option::None => Option::None,
        Option::Some(cs) => {
            match conv_nodes(cs, fuel - 1) {
                Ok(v) => Option::Some(v),
                Err(e) => {
                    return Err(e);
                },
            }
        },
    };
    Ok(Node { name, entries, children })
}

/// Parses KDL source into the library's node tree: the top-level nodes in
/// document order, or the parser's message.  The tree walk runs on a
/// nesting budget of the source's byte length, which no well-formed source
/// can exceed, since each nesting level costs at least one byte.
pub fn parse_document(src: &str) -> Result<Vec<Node>, EvalError> {
    match parse_kdl(src) {
        Err(e) => Err(EvalError::ParseError(kdl_error_message(&e))),
        Ok(doc) => {
            let n = src.len() as u64;
            let fuel = if n == u64::MAX {
                n
            } else {
                n + 1
            };
            conv_nodes(doc_nodes(&doc), fuel)
        },
    }
}

} // verus!
