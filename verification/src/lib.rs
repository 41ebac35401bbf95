//! A declarative KDL-to-HTML template renderer.
//!
//! A document is a tree of nodes; each node is classified by its name into
//! one of a fixed set of kinds (text line, binding declaration, doctype,
//! file inclusion, Markdown block, shell capture, or a generic HTML
//! element).  The evaluator walks the tree depth-first, threading a
//! variable-binding scope, resolving `${name}` interpolation, and appending
//! rendered HTML to an output buffer.  All file contents, shell-command
//! output and parsed documents are supplied to the evaluator as plain
//! values; when one is missing, evaluation stops with a request that the
//! caller satisfies before running again.

pub mod bindings;
pub mod error;
pub mod eval;
pub mod laws;
pub mod interp;
pub mod markdown;
pub mod node;
pub mod output;
pub mod parse;
pub mod path;
pub mod strmap;
pub mod text;
