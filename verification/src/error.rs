//! The error taxonomy of an evaluation run.  Every error is fatal to the
//! whole run: the first one encountered aborts the traversal.

use vstd::prelude::*;

verus! {

/// Why an evaluation failed, over mathematical values.
pub enum EvalErr {
    UnboundVar(Seq<char>),
    Unterminated,
    MissingArgument,
    MisplacedDoctype,
    UnsupportedExtension(Seq<char>),
    MissingExtension,
    Parse(Seq<char>),
    Io(Seq<char>),
    Spawn(Seq<char>),
    Decode(Seq<char>),
    RecursionLimit,
}

/// Why an evaluation failed.
#[derive(Debug)]
pub enum EvalError {
    /// `${name}` was interpolated but `name` is not bound in the scope.
    UnboundVariable(String),
    /// A `${` marker with no closing `}` in its segment.
    UnterminatedInterpolation,
    /// A node that needs one positional string argument has none.
    MissingArgument,
    /// A doctype node below the document root.
    MisplacedDoctype,
    /// An included file whose extension is none of `html`, `md`,
    /// `markdown`, `kdl`; holds the extension.
    UnsupportedExtension(String),
    /// An included file with no extension; holds the path.
    MissingExtension,
    /// A document that does not parse; holds the parser's message.
    ParseError(String),
    /// A file that could not be read; holds the path.
    IoError(String),
    /// A shell command that could not be spawned; holds the command.
    SpawnError(String),
    /// Shell output that is not valid UTF-8; holds the command.
    DecodeError(String),
    /// The nesting budget ran out: an inclusion cycle, or a tree deeper
    /// than the budget the caller supplied.
    RecursionLimit,
}

impl View for EvalError {
    type V = EvalErr;

    open spec fn view(&self) -> EvalErr {
        match self {
            EvalError::UnboundVariable(s) => EvalErr::UnboundVar(s@),
            EvalError::UnterminatedInterpolation => EvalErr::Unterminated,
            EvalError::MissingArgument => EvalErr::MissingArgument,
            EvalError::MisplacedDoctype => EvalErr::MisplacedDoctype,
            EvalError::UnsupportedExtension(s) => EvalErr::UnsupportedExtension(s@),
            EvalError::MissingExtension => EvalErr::MissingExtension,
            EvalError::ParseError(s) => EvalErr::Parse(s@),
            EvalError::IoError(s) => EvalErr::Io(s@),
            EvalError::SpawnError(s) => EvalErr::Spawn(s@),
            EvalError::DecodeError(s) => EvalErr::Decode(s@),
            EvalError::RecursionLimit => EvalErr::RecursionLimit,
        }
    }
}

} // verus!
