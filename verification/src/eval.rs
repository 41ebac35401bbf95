//! The document evaluator: a recursive, depth-aware tree walk.  Each node
//! is classified by name and handled by its kind; a mutable binding scope
//! threads through the recursion; output text and dependency paths are
//! appended in traversal order.
//!
//! The evaluator performs no I/O.  File contents, shell-command output and
//! parsed documents come in as snapshots; when one is missing, evaluation
//! stops with a request (`Halt::NeedFile`, `NeedCmd`, `NeedDoc`) that the
//! caller satisfies before evaluating again with fresh buffers.

use crate::error::{EvalErr, EvalError};
use crate::interp::{interpolate, spec_interp, InterpRes};
use crate::markdown::{md_html_of, render_markdown};
use crate::node::{classify, is_void, spec_classify, spec_is_void, spec_text_arg, text_arg, Entry,
    Node, NodeKind};
use crate::output::{emit_block, spec_block};
use crate::path::{extension_of, join_path, parent_dir, spec_extension, spec_join, spec_parent};
use crate::strmap::StrMap;
use crate::text::{emit_indent, indent_text, str_eq};
use vstd::prelude::*;
use vstd::string::*;

verus! {

/// A parsed document, or the parse failure it produced.
pub enum DocEntry {
    Parsed(Vec<Node>),
    Bad(String),
}

/// The mapping that a path/document pair list denotes.
pub open spec fn docs_of(ps: Seq<(String, DocEntry)>) -> Map<Seq<char>, DocEntry>
    decreases ps.len(),
{
    if ps.len() == 0 {
        Map::empty()
    } else {
        docs_of(ps.drop_last()).insert(ps.last().0@, ps.last().1)
    }
}

/// Parsed documents keyed by resolved path.
pub struct DocMap {
    pub pairs: Vec<(String, DocEntry)>,
}

impl DocMap {
    pub open spec fn as_map(self) -> Map<Seq<char>, DocEntry> {
        docs_of(self.pairs@)
    }

    pub fn new() -> (r: DocMap)
        ensures
            r.as_map() == Map::<Seq<char>, DocEntry>::empty(),
    {
        DocMap { pairs: Vec::new() }
    }

    pub fn set(&mut self, path: String, doc: DocEntry)
        ensures
            final(self).as_map() == old(self).as_map().insert(path@, doc),
    {
        let ghost gpath = path@;
        let ghost gdoc = doc;
        self.pairs.push((path, doc));
        proof {
            assert(self.pairs@.drop_last() =~= old(self).pairs@);
            assert(self.pairs@.last().0@ == gpath && self.pairs@.last().1 == gdoc);
        }
    }

    pub fn get<'a>(&'a self, path: &str) -> (r: Option<&'a DocEntry>)
        ensures
            match r {
                Some(d) => self.as_map().contains_key(path@) && *d == self.as_map()[path@],
                None => !self.as_map().contains_key(path@),
            },
    {
        proof {
            assert(self.pairs@.take(self.pairs@.len() as int) =~= self.pairs@);
        }
        Self::get_in(&self.pairs, path, self.pairs.len())
    }

    fn get_in<'a>(pairs: &'a Vec<(String, DocEntry)>, path: &str, n: usize) -> (r: Option<
        &'a DocEntry,
    >)
        requires
            n <= pairs@.len(),
        ensures
            match r {
                Some(d) => docs_of(pairs@.take(n as int)).contains_key(path@) && *d == docs_of(
                    pairs@.take(n as int),
                )[path@],
                None => !docs_of(pairs@.take(n as int)).contains_key(path@),
            },
        decreases n,
    {
        if n == 0 {
            None
        } else {
            proof {
                assert(pairs@.take(n as int).drop_last() =~= pairs@.take(n as int - 1));
                assert(pairs@.take(n as int).last() == pairs@[n as int - 1]);
            }
            let p = &pairs[n - 1];
            if str_eq(p.0.as_str(), path) {
                Some(&p.1)
            } else {
                Self::get_in(pairs, path, n - 1)
            }
        }
    }
}

/// The evaluation context: the live bindings and the directory against
/// which relative inclusion paths resolve.
pub struct Ctx {
    pub scope: StrMap,
    pub wdir: String,
}

/// The snapshots an evaluation runs against: file contents by resolved
/// path, shell output by command, and parsed documents by resolved path.
pub struct Env {
    pub fs: StrMap,
    pub cmds: StrMap,
    pub docs: DocMap,
}

/// The snapshots, as mathematical maps.
pub struct SpecEnv {
    pub fs: Map<Seq<char>, Seq<char>>,
    pub cmds: Map<Seq<char>, Seq<char>>,
    pub docs: Map<Seq<char>, DocEntry>,
}

impl View for Env {
    type V = SpecEnv;

    open spec fn view(&self) -> SpecEnv {
        SpecEnv { fs: self.fs.as_map(), cmds: self.cmds.as_map(), docs: self.docs.as_map() }
    }
}

/// Why an evaluation stopped, over mathematical values.
pub enum SpecHalt {
    Failed(EvalErr),
    NeedFile(Seq<char>),
    NeedCmd(Seq<char>),
    NeedDoc(Seq<char>),
}

/// Why an evaluation stopped before completing.
#[derive(Debug)]
pub enum Halt {
    /// A fatal error: the run is over.
    Failed(EvalError),
    /// The file at this resolved path is not in the file snapshot: read
    /// it, add it, and evaluate again.
    NeedFile(String),
    /// This command's output is not in the command snapshot: run it, add
    /// it, and evaluate again.
    NeedCmd(String),
    /// The document at this resolved path is not in the document snapshot:
    /// parse the file's content, add it, and evaluate again.
    NeedDoc(String),
}

impl View for Halt {
    type V = SpecHalt;

    open spec fn view(&self) -> SpecHalt {
        match self {
            Halt::Failed(e) => SpecHalt::Failed(e@),
            Halt::NeedFile(p) => SpecHalt::NeedFile(p@),
            Halt::NeedCmd(c) => SpecHalt::NeedCmd(c@),
            Halt::NeedDoc(p) => SpecHalt::NeedDoc(p@),
        }
    }
}

/// What evaluating yields: the output text and dependency paths appended,
/// the scope afterwards, and whether (and why) evaluation stopped.
pub struct EvalRes {
    pub txt: Seq<char>,
    pub deps: Seq<Seq<char>>,
    pub scope: Map<Seq<char>, Seq<char>>,
    pub halt: Option<SpecHalt>,
}

/// The error that a failed interpolation reports.
pub open spec fn interp_err(r: InterpRes) -> EvalErr {
    match r {
        InterpRes::Unbound(n) => EvalErr::UnboundVar(n),
        _ => EvalErr::Unterminated,
    }
}

/// The scope after a binding node: every named entry declared in order,
/// its value stringified; positional entries are ignored.
pub open spec fn spec_bind(
    scope: Map<Seq<char>, Seq<char>>,
    entries: Seq<Entry>,
    i: int,
) -> Map<Seq<char>, Seq<char>>
    decreases entries.len() - i,
{
    if i < 0 || i >= entries.len() {
        scope
    } else {
        let e = entries[i];
        let scope2 = if e.name is Some {
            scope.insert(e.name->Some_0@, e.value.spec_text())
        } else {
            scope
        };
        spec_bind(scope2, entries, i + 1)
    }
}

/// The attribute text of an element from entry `i` on, and the first
/// interpolation failure in it, if any: every named entry contributes
/// ` name="value"` with its stringified value interpolated; positional
/// entries contribute nothing.  On a failure, the text holds the
/// attributes already rendered.
pub open spec fn spec_attrs(
    m: Map<Seq<char>, Seq<char>>,
    entries: Seq<Entry>,
    i: int,
) -> (Seq<char>, Option<EvalErr>)
    decreases entries.len() - i,
{
    if i < 0 || i >= entries.len() {
        (Seq::<char>::empty(), None::<EvalErr>)
    } else {
        let e = entries[i];
        if e.name is Some {
            match spec_interp(m, e.value.spec_text(), 0) {
                InterpRes::Done(v) => {
                    let rest = spec_attrs(m, entries, i + 1);
                    (
                        seq![' '] + e.name->Some_0@ + seq!['=', '"'] + v + seq!['"'] + rest.0,
                        rest.1,
                    )
                },
                e2 => (Seq::<char>::empty(), Some(interp_err(e2))),
            }
        } else {
            spec_attrs(m, entries, i + 1)
        }
    }
}

/// The Markdown source composed from child nodes: each child's name, one
/// per line, newline-terminated.
pub open spec fn spec_md_children(children: Seq<Node>, i: int) -> Seq<char>
    decreases children.len() - i,
{
    if i < 0 || i >= children.len() {
        Seq::<char>::empty()
    } else {
        children[i].name@ + seq!['\n'] + spec_md_children(children, i + 1)
    }
}

/// Evaluation of one node at `depth` under `scope` and `wdir`, against the
/// snapshots in `env`.  `fuel` bounds the nesting (child blocks and
/// inclusions); when it runs out, evaluation fails rather than recurse
/// further.
pub open spec fn spec_eval_node(
    env: SpecEnv,
    node: Node,
    depth: int,
    scope: Map<Seq<char>, Seq<char>>,
    wdir: Seq<char>,
    fuel: nat,
) -> EvalRes
    decreases fuel, 0int, 2int,
{
    if fuel == 0 {
        EvalRes {
            txt: Seq::empty(),
            deps: Seq::empty(),
            scope,
            halt: Some(SpecHalt::Failed(EvalErr::RecursionLimit)),
        }
    } else {
        match spec_classify(node.name@) {
            NodeKind::TextLine => match spec_text_arg(node.entries@, 0) {
                None => EvalRes {
                    txt: Seq::empty(),
                    deps: Seq::empty(),
                    scope,
                    halt: Some(SpecHalt::Failed(EvalErr::MissingArgument)),
                },
                Some(t) => match spec_interp(scope, t, 0) {
                    InterpRes::Done(v) => EvalRes {
                        txt: indent_text(depth) + v + seq!['\n'],
                        deps: Seq::empty(),
                        scope,
                        halt: None,
                    },
                    e => EvalRes {
                        txt: Seq::empty(),
                        deps: Seq::empty(),
                        scope,
                        halt: Some(SpecHalt::Failed(interp_err(e))),
                    },
                },
            },
            NodeKind::Binding => EvalRes {
                txt: Seq::empty(),
                deps: Seq::empty(),
                scope: spec_bind(scope, node.entries@, 0),
                halt: None,
            },
            NodeKind::Doctype => {
                if depth != 0 {
                    EvalRes {
                        txt: Seq::empty(),
                        deps: Seq::empty(),
                        scope,
                        halt: Some(SpecHalt::Failed(EvalErr::MisplacedDoctype)),
                    }
                } else {
                    match spec_text_arg(node.entries@, 0) {
                        None => EvalRes {
                            txt: Seq::empty(),
                            deps: Seq::empty(),
                            scope,
                            halt: Some(SpecHalt::Failed(EvalErr::MissingArgument)),
                        },
                        Some(t) => EvalRes {
                            txt: seq!['<', '!', 'D', 'O', 'C', 'T', 'Y', 'P', 'E', ' '] + t
                                + seq!['>', '\n'],
                            deps: Seq::empty(),
                            scope,
                            halt: None,
                        },
                    }
                }
            },
            NodeKind::ShellCapture => match spec_text_arg(node.entries@, 0) {
                None => EvalRes {
                    txt: Seq::empty(),
                    deps: Seq::empty(),
                    scope,
                    halt: Some(SpecHalt::Failed(EvalErr::MissingArgument)),
                },
                Some(c) => match spec_interp(scope, c, 0) {
                    InterpRes::Done(cmd) => {
                        if env.cmds.contains_key(cmd) {
                            EvalRes {
                                txt: spec_block(env.cmds[cmd], 0, depth),
                                deps: Seq::empty(),
                                scope,
                                halt: None,
                            }
                        } else {
                            EvalRes {
                                txt: Seq::empty(),
                                deps: Seq::empty(),
                                scope,
                                halt: Some(SpecHalt::NeedCmd(cmd)),
                            }
                        }
                    },
                    e => EvalRes {
                        txt: Seq::empty(),
                        deps: Seq::empty(),
                        scope,
                        halt: Some(SpecHalt::Failed(interp_err(e))),
                    },
                },
            },
            NodeKind::MarkdownBlock => {
                let src = if node.entries@.len() > 0 {
                    spec_text_arg(node.entries@, 0)
                } else {
                    Some(
                        spec_md_children(
                            match node.children {
                                Some(cs) => cs@,
                                None => Seq::empty(),
                            },
                            0,
                        ),
                    )
                };
                match src {
                    None => EvalRes {
                        txt: Seq::empty(),
                        deps: Seq::empty(),
                        scope,
                        halt: Some(SpecHalt::Failed(EvalErr::MissingArgument)),
                    },
                    Some(s) => match spec_interp(scope, s, 0) {
                        InterpRes::Done(t) => EvalRes {
                            txt: spec_block(md_html_of(t), 0, depth),
                            deps: Seq::empty(),
                            scope,
                            halt: None,
                        },
                        e => EvalRes {
                            txt: Seq::empty(),
                            deps: Seq::empty(),
                            scope,
                            halt: Some(SpecHalt::Failed(interp_err(e))),
                        },
                    },
                }
            },
            NodeKind::Inclusion => spec_eval_inclusion(env, node, depth, scope, wdir, fuel),
            NodeKind::Element => spec_eval_element(env, node, depth, scope, wdir, fuel),
        }
    }
}

/// The inclusion behaviour: resolve the path, record the dependency, then
/// splice the file by extension — `html` verbatim, `md`/`markdown` through
/// the Markdown converter, `kdl` evaluated at the same depth under a
/// forked scope overlaid with the node's named entries and the included
/// file's directory.
pub open spec fn spec_eval_inclusion(
    env: SpecEnv,
    node: Node,
    depth: int,
    scope: Map<Seq<char>, Seq<char>>,
    wdir: Seq<char>,
    fuel: nat,
) -> EvalRes
    decreases fuel, 0int, 1int,
        when fuel > 0
{
    match spec_text_arg(node.entries@, 0) {
        None => EvalRes {
            txt: Seq::empty(),
            deps: Seq::empty(),
            scope,
            halt: Some(SpecHalt::Failed(EvalErr::MissingArgument)),
        },
        Some(p0) => match spec_interp(scope, p0, 0) {
            InterpRes::Done(p1) => {
                let path = spec_join(wdir, p1);
                let deps1 = seq![path];
                if !env.fs.contains_key(path) {
                    EvalRes {
                        txt: Seq::empty(),
                        deps: deps1,
                        scope,
                        halt: Some(SpecHalt::NeedFile(path)),
                    }
                } else {
                    let content = env.fs[path];
                    match spec_extension(path) {
                        None => EvalRes {
                            txt: Seq::empty(),
                            deps: deps1,
                            scope,
                            halt: Some(SpecHalt::Failed(EvalErr::MissingExtension)),
                        },
                        Some(ext) => {
                            if ext == seq!['h', 't', 'm', 'l'] {
                                EvalRes {
                                    txt: spec_block(content, 0, depth),
                                    deps: deps1,
                                    scope,
                                    halt: None,
                                }
                            } else if ext == seq!['m', 'd'] || ext == seq![
                                'm',
                                'a',
                                'r',
                                'k',
                                'd',
                                'o',
                                'w',
                                'n',
                            ] {
                                EvalRes {
                                    txt: spec_block(md_html_of(content), 0, depth),
                                    deps: deps1,
                                    scope,
                                    halt: None,
                                }
                            } else if ext == seq!['k', 'd', 'l'] {
                                if !env.docs.contains_key(path) {
                                    EvalRes {
                                        txt: Seq::empty(),
                                        deps: deps1,
                                        scope,
                                        halt: Some(SpecHalt::NeedDoc(path)),
                                    }
                                } else {
                                    match env.docs[path] {
                                        DocEntry::Bad(msg) => EvalRes {
                                            txt: Seq::empty(),
                                            deps: deps1,
                                            scope,
                                            halt: Some(SpecHalt::Failed(EvalErr::Parse(msg@))),
                                        },
                                        DocEntry::Parsed(nodes) => {
                                            let inner = spec_eval_nodes(
                                                env,
                                                nodes@,
                                                0,
                                                depth,
                                                spec_bind(scope, node.entries@, 0),
                                                spec_parent(path),
                                                (fuel - 1) as nat,
                                            );
                                            EvalRes {
                                                txt: inner.txt,
                                                deps: deps1 + inner.deps,
                                                scope,
                                                halt: inner.halt,
                                            }
                                        },
                                    }
                                }
                            } else {
                                EvalRes {
                                    txt: Seq::empty(),
                                    deps: deps1,
                                    scope,
                                    halt: Some(SpecHalt::Failed(EvalErr::UnsupportedExtension(ext))),
                                }
                            }
                        },
                    }
                }
            },
            e => EvalRes {
                txt: Seq::empty(),
                deps: Seq::empty(),
                scope,
                halt: Some(SpecHalt::Failed(interp_err(e))),
            },
        },
    }
}

/// The generic-element behaviour: open tag with interpolated attributes;
/// then a single interpolated text argument, or children at `depth + 1`,
/// or an empty element — ` />` for a void element, `></name>` otherwise.
/// Bindings declared inside a children block stay in the scope afterwards.
pub open spec fn spec_eval_element(
    env: SpecEnv,
    node: Node,
    depth: int,
    scope: Map<Seq<char>, Seq<char>>,
    wdir: Seq<char>,
    fuel: nat,
) -> EvalRes
    decreases fuel, 0int, 1int,
        when fuel > 0
{
    let open_txt = indent_text(depth) + seq!['<'] + node.name@;
    let at = spec_attrs(scope, node.entries@, 0);
    if at.1 is Some {
        EvalRes {
            txt: open_txt + at.0,
            deps: Seq::empty(),
            scope,
            halt: Some(SpecHalt::Failed(at.1->Some_0)),
        }
    } else {
        let head = open_txt + at.0;
        match spec_text_arg(node.entries@, 0) {
            Some(t) => match spec_interp(scope, t, 0) {
                InterpRes::Done(v) => EvalRes {
                    txt: head + seq!['>'] + v + seq!['<', '/'] + node.name@ + seq!['>', '\n'],
                    deps: Seq::empty(),
                    scope,
                    halt: None,
                },
                e => EvalRes {
                    txt: head,
                    deps: Seq::empty(),
                    scope,
                    halt: Some(SpecHalt::Failed(interp_err(e))),
                },
            },
            None => match node.children {
                Some(cs) => {
                    let inner = spec_eval_nodes(
                        env,
                        cs@,
                        0,
                        depth + 1,
                        scope,
                        wdir,
                        (fuel - 1) as nat,
                    );
                    if inner.halt is Some {
                        EvalRes {
                            txt: head + seq!['>', '\n'] + inner.txt,
                            deps: inner.deps,
                            scope: inner.scope,
                            halt: inner.halt,
                        }
                    } else {
                        EvalRes {
                            txt: head + seq!['>', '\n'] + inner.txt + indent_text(depth) + seq![
                                '<',
                                '/',
                            ] + node.name@ + seq!['>', '\n'],
                            deps: inner.deps,
                            scope: inner.scope,
                            halt: None,
                        }
                    }
                },
                None => {
                    if spec_is_void(node.name@) {
                        EvalRes {
                            txt: head + seq![' ', '/', '>', '\n'],
                            deps: Seq::empty(),
                            scope,
                            halt: None,
                        }
                    } else {
                        EvalRes {
                            txt: head + seq!['>', '<', '/'] + node.name@ + seq!['>', '\n'],
                            deps: Seq::empty(),
                            scope,
                            halt: None,
                        }
                    }
                },
            },
        }
    }
}

/// Evaluation of the nodes from index `i` on, in document order; the first
/// halt stops the walk, and each node starts in the scope its predecessor
/// left behind.
pub open spec fn spec_eval_nodes(
    env: SpecEnv,
    nodes: Seq<Node>,
    i: int,
    depth: int,
    scope: Map<Seq<char>, Seq<char>>,
    wdir: Seq<char>,
    fuel: nat,
) -> EvalRes
    decreases fuel, nodes.len() - i, 3int,
{
    if i < 0 || i >= nodes.len() {
        EvalRes { txt: Seq::empty(), deps: Seq::empty(), scope, halt: None }
    } else {
        let r1 = spec_eval_node(env, nodes[i], depth, scope, wdir, fuel);
        if r1.halt is Some {
            r1
        } else {
            let r2 = spec_eval_nodes(env, nodes, i + 1, depth, r1.scope, wdir, fuel);
            EvalRes {
                txt: r1.txt + r2.txt,
                deps: r1.deps + r2.deps,
                scope: r2.scope,
                halt: r2.halt,
            }
        }
    }
}

/// Declares every named entry of `entries` from index `i` on.
fn bind_entries(scope: &mut StrMap, entries: &Vec<Entry>, i: usize)
    requires
        i <= entries@.len(),
    ensures
        final(scope).as_map() == spec_bind(old(scope).as_map(), entries@, i as int),
    decreases entries@.len() - i,
{
    if i == entries.len() {
        return ;
    }
    let e = &entries[i];
    match &e.name {
        Option::Some(name) => {
            let v = e.value.text().clone();
            scope.set(name.clone(), v);
        },
        Option::None => {},
    }
    bind_entries(scope, entries, i + 1);
}

/// The Markdown source composed from child nodes, from index `i` on.
fn md_children_text(children: &Vec<Node>, i: usize) -> (r: String)
    requires
        i <= children@.len(),
    ensures
        r@ == spec_md_children(children@, i as int),
    decreases children@.len() - i,
{
    if i == children.len() {
        String::new()
    } else {
        let mut s = children[i].name.clone();
        s.append("\n");
        let rest = md_children_text(children, i + 1);
        s.append(rest.as_str());
        proof {
            reveal_strlit("\n");
            assert(s@ =~= children@[i as int].name@ + seq!['\n'] + spec_md_children(
                children@,
                i as int + 1,
            ));
        }
        s
    }
}

/// Emits the interpolated attributes of an element, from entry `i` on.
fn emit_attrs(out: &mut String, scope: &StrMap, entries: &Vec<Entry>, i: usize) -> (r: Result<
    (),
    EvalError,
>)
    requires
        i <= entries@.len(),
    ensures
        ({
            let at = spec_attrs(scope.as_map(), entries@, i as int);
            &&& final(out)@ == old(out)@ + at.0
            &&& (match r {
                Ok(u) => at.1 is None,
                Err(e) => at.1 == Some(e@),
            })
        }),
    decreases entries@.len() - i,
{
    let ghost at = spec_attrs(scope.as_map(), entries@, i as int);
    if i == entries.len() {
        proof {
            assert(out@ =~= old(out)@ + at.0);
        }
        return Ok(());
    }
    let e = &entries[i];
    match &e.name {
        Option::None => emit_attrs(out, scope, entries, i + 1),
        Option::Some(name) => {
            match interpolate(scope, e.value.text().as_str()) {
                Err(err) => {
                    proof {
                        assert(out@ =~= old(out)@ + at.0);
                    }
                    Err(err)
                },
                Ok(v) => {
                    out.append(" ");
                    out.append(name.as_str());
                    out.append("=\"");
                    out.append(v.as_str());
                    out.append("\"");
                    let ghost mid = out@;
                    let r2 = emit_attrs(out, scope, entries, i + 1);
                    proof {
                        reveal_strlit(" ");
                        reveal_strlit("=\"");
                        reveal_strlit("\"");
                        let rest = spec_attrs(scope.as_map(), entries@, i as int + 1);
                        assert(mid =~= old(out)@ + (seq![' '] + name@ + seq!['=', '"'] + v@ + seq![
                            '"',
                        ]));
                        assert(out@ =~= old(out)@ + at.0);
                    }
                    r2
                },
            }
        },
    }
}

/// Evaluates one node.  `fuel` bounds the nesting; the caller keeps
/// `depth + fuel` within the machine's index range.
pub fn eval_node(
    node: &Node,
    depth: usize,
    ctx: &mut Ctx,
    out: &mut String,
    deps: &mut Vec<String>,
    env: &Env,
    fuel: u64,
) -> (r: Result<(), Halt>)
    requires
        depth as int + fuel as int <= usize::MAX as int,
    ensures
        ({
            let res = spec_eval_node(
                env@,
                *node,
                depth as int,
                old(ctx).scope.as_map(),
                old(ctx).wdir@,
                fuel as nat,
            );
            &&& final(out)@ == old(out)@ + res.txt
            &&& final(deps).deep_view() == old(deps).deep_view() + res.deps
            &&& final(ctx).scope.as_map() == res.scope
            &&& final(ctx).wdir@ == old(ctx).wdir@
            &&& (match r {
                Ok(u) => res.halt is None,
                Err(h) => res.halt == Some(h@),
            })
        }),
    decreases fuel, 0int, 2int,
{
    let ghost res = spec_eval_node(
        env@,
        *node,
        depth as int,
        old(ctx).scope.as_map(),
        old(ctx).wdir@,
        fuel as nat,
    );
    if fuel == 0 {
        proof {
            assert(out@ =~= old(out)@ + res.txt);
            assert(deps.deep_view() =~= old(deps).deep_view() + res.deps);
        }
        return Err(Halt::Failed(EvalError::RecursionLimit));
    }
    match classify(node.name.as_str()) {
        NodeKind::TextLine => {
            match text_arg(&node.entries) {
                Option::None => {
                    proof {
                        assert(out@ =~= old(out)@ + res.txt);
                        assert(deps.deep_view() =~= old(deps).deep_view() + res.deps);
                    }
                    Err(Halt::Failed(EvalError::MissingArgument))
                },
                Option::Some(t) => {
                    match interpolate(&ctx.scope, t.as_str()) {
                        Err(e) => {
                            proof {
                                assert(out@ =~= old(out)@ + res.txt);
                                assert(deps.deep_view() =~= old(deps).deep_view() + res.deps);
                            }
                            Err(Halt::Failed(e))
                        },
                        Ok(v) => {
                            emit_indent(out, depth);
                            out.append(v.as_str());
                            out.append("\n");
                            proof {
                                reveal_strlit("\n");
                                assert(out@ =~= old(out)@ + res.txt);
                                assert(deps.deep_view() =~= old(deps).deep_view() + res.deps);
                            }
                            Ok(())
                        },
                    }
                },
            }
        },
        NodeKind::Binding => {
            bind_entries(&mut ctx.scope, &node.entries, 0);
            proof {
                assert(out@ =~= old(out)@ + res.txt);
                assert(deps.deep_view() =~= old(deps).deep_view() + res.deps);
            }
            Ok(())
        },
        NodeKind::Doctype => {
            if depth != 0 {
                proof {
                    assert(out@ =~= old(out)@ + res.txt);
                    assert(deps.deep_view() =~= old(deps).deep_view() + res.deps);
                }
                Err(Halt::Failed(EvalError::MisplacedDoctype))
            } else {
                match text_arg(&node.entries) {
                    Option::None => {
                        proof {
                            assert(out@ =~= old(out)@ + res.txt);
                            assert(deps.deep_view() =~= old(deps).deep_view() + res.deps);
                        }
                        Err(Halt::Failed(EvalError::MissingArgument))
                    },
                    Option::Some(t) => {
                        out.append("<!DOCTYPE ");
                        out.append(t.as_str());
                        out.append(">\n");
                        proof {
                            reveal_strlit("<!DOCTYPE ");
                            reveal_strlit(">\n");
                            assert(out@ =~= old(out)@ + res.txt);
                            assert(deps.deep_view() =~= old(deps).deep_view() + res.deps);
                        }
                        Ok(())
                    },
                }
            }
        },
        NodeKind::ShellCapture => {
            match text_arg(&node.entries) {
                Option::None => {
                    proof {
                        assert(out@ =~= old(out)@ + res.txt);
                        assert(deps.deep_view() =~= old(deps).deep_view() + res.deps);
                    }
                    Err(Halt::Failed(EvalError::MissingArgument))
                },
                Option::Some(c) => {
                    match interpolate(&ctx.scope, c.as_str()) {
                        Err(e) => {
                            proof {
                                assert(out@ =~= old(out)@ + res.txt);
                                assert(deps.deep_view() =~= old(deps).deep_view() + res.deps);
                            }
                            Err(Halt::Failed(e))
                        },
                        Ok(cmd) => {
                            match env.cmds.get(cmd.as_str()) {
                                Option::None => {
                                    proof {
                                        assert(out@ =~= old(out)@ + res.txt);
                                        assert(deps.deep_view() =~= old(deps).deep_view()
                                            + res.deps);
                                    }
                                    Err(Halt::NeedCmd(cmd))
                                },
                                Option::Some(output) => {
                                    let output = output.clone();
                                    emit_block(out, output.as_str(), 0, depth);
                                    proof {
                                        assert(out@ =~= old(out)@ + res.txt);
                                        assert(deps.deep_view() =~= old(deps).deep_view()
                                            + res.deps);
                                    }
                                    Ok(())
                                },
                            }
                        },
                    }
                },
            }
        },
        NodeKind::MarkdownBlock => {
            let src: String = if node.entries.len() > 0 {
                match text_arg(&node.entries) {
                    Option::None => {
                        proof {
                            assert(out@ =~= old(out)@ + res.txt);
                            assert(deps.deep_view() =~= old(deps).deep_view() + res.deps);
                        }
                        return Err(Halt::Failed(EvalError::MissingArgument));
                    },
                    Option::Some(t) => t.clone(),
                }
            } else {
                match &node.children {
                    Option::Some(cs) => md_children_text(cs, 0),
                    Option::None => {
                        let s = String::new();
                        proof {
                            assert(s@ =~= spec_md_children(Seq::<Node>::empty(), 0));
                        }
                        s
                    },
                }
            };
            match interpolate(&ctx.scope, src.as_str()) {
                Err(e) => {
                    proof {
                        assert(out@ =~= old(out)@ + res.txt);
                        assert(deps.deep_view() =~= old(deps).deep_view() + res.deps);
                    }
                    Err(Halt::Failed(e))
                },
                Ok(t) => {
                    let html = render_markdown(t.as_str());
                    emit_block(out, html.as_str(), 0, depth);
                    proof {
                        assert(out@ =~= old(out)@ + res.txt);
                        assert(deps.deep_view() =~= old(deps).deep_view() + res.deps);
                    }
                    Ok(())
                },
            }
        },
        NodeKind::Inclusion => eval_inclusion(node, depth, ctx, out, deps, env, fuel),
        NodeKind::Element => eval_element(node, depth, ctx, out, deps, env, fuel),
    }
}

fn eval_inclusion(
    node: &Node,
    depth: usize,
    ctx: &mut Ctx,
    out: &mut String,
    deps: &mut Vec<String>,
    env: &Env,
    fuel: u64,
) -> (r: Result<(), Halt>)
    requires
        fuel >= 1,
        depth as int + fuel as int <= usize::MAX as int,
    ensures
        ({
            let res = spec_eval_inclusion(
                env@,
                *node,
                depth as int,
                old(ctx).scope.as_map(),
                old(ctx).wdir@,
                fuel as nat,
            );
            &&& final(out)@ == old(out)@ + res.txt
            &&& final(deps).deep_view() == old(deps).deep_view() + res.deps
            &&& final(ctx).scope.as_map() == res.scope
            &&& final(ctx).wdir@ == old(ctx).wdir@
            &&& (match r {
                Ok(u) => res.halt is None,
                Err(h) => res.halt == Some(h@),
            })
        }),
    decreases fuel, 0int, 1int,
{
    let ghost res = spec_eval_inclusion(
        env@,
        *node,
        depth as int,
        old(ctx).scope.as_map(),
        old(ctx).wdir@,
        fuel as nat,
    );
    let p0 = match text_arg(&node.entries) {
        Option::None => {
            proof {
                assert(out@ =~= old(out)@ + res.txt);
                assert(deps.deep_view() =~= old(deps).deep_view() + res.deps);
            }
            return Err(Halt::Failed(EvalError::MissingArgument));
        },
        Option::Some(t) => t,
    };
    let p1 = match interpolate(&ctx.scope, p0.as_str()) {
        Err(e) => {
            proof {
                assert(out@ =~= old(out)@ + res.txt);
                assert(deps.deep_view() =~= old(deps).deep_view() + res.deps);
            }
            return Err(Halt::Failed(e));
        },
        Ok(v) => v,
    };
    let path = join_path(ctx.wdir.as_str(), p1.as_str());
    deps.push(path.clone());
    proof {
        assert(deps.deep_view() =~= old(deps).deep_view() + seq![path@]);
    }
    let content = match env.fs.get(path.as_str()) {
        Option::None => {
            proof {
                assert(out@ =~= old(out)@ + res.txt);
            }
            return Err(Halt::NeedFile(path));
        },
        Option::Some(c) => c.clone(),
    };
    proof {
        reveal_strlit("html");
        reveal_strlit("md");
        reveal_strlit("markdown");
        reveal_strlit("kdl");
        assert("html"@ =~= seq!['h', 't', 'm', 'l']);
        assert("md"@ =~= seq!['m', 'd']);
        assert("markdown"@ =~= seq!['m', 'a', 'r', 'k', 'd', 'o', 'w', 'n']);
        assert("kdl"@ =~= seq!['k', 'd', 'l']);
    }
    match extension_of(path.as_str()) {
        Option::None => {
            proof {
                assert(out@ =~= old(out)@ + res.txt);
            }
            Err(Halt::Failed(EvalError::MissingExtension))
        },
        Option::Some(ext) => {
            if str_eq(ext.as_str(), "html") {
                emit_block(out, content.as_str(), 0, depth);
                proof {
                    assert(out@ =~= old(out)@ + res.txt);
                }
                Ok(())
            } else if str_eq(ext.as_str(), "md") || str_eq(ext.as_str(), "markdown") {
                let html = render_markdown(content.as_str());
                emit_block(out, html.as_str(), 0, depth);
                proof {
                    assert(out@ =~= old(out)@ + res.txt);
                }
                Ok(())
            } else if str_eq(ext.as_str(), "kdl") {
                match env.docs.get(path.as_str()) {
                    Option::None => {
                        proof {
                            assert(out@ =~= old(out)@ + res.txt);
                        }
                        Err(Halt::NeedDoc(path))
                    },
                    Option::Some(de) => {
                        match de {
                            DocEntry::Bad(msg) => {
                                proof {
                                    assert(out@ =~= old(out)@ + res.txt);
                                }
                                Err(Halt::Failed(EvalError::ParseError(msg.clone())))
                            },
                            DocEntry::Parsed(nodes) => {
                                let mut ctx2 = Ctx {
                                    scope: ctx.scope.fork(),
                                    wdir: parent_dir(path.as_str()),
                                };
                                bind_entries(&mut ctx2.scope, &node.entries, 0);
                                let rr = eval_nodes(nodes, 0, depth, &mut ctx2, out, deps, env, fuel
                                    - 1);
                                proof {
                                    let inner = spec_eval_nodes(
                                        env@,
                                        nodes@,
                                        0,
                                        depth as int,
                                        spec_bind(
                                            old(ctx).scope.as_map(),
                                            node.entries@,
                                            0,
                                        ),
                                        spec_parent(path@),
                                        (fuel - 1) as nat,
                                    );
                                    assert(out@ =~= old(out)@ + res.txt);
                                    assert(deps.deep_view() =~= old(deps).deep_view() + (seq![
                                        path@,
                                    ] + inner.deps));
                                }
                                match rr {
                                    Ok(u) => Ok(()),
                                    Err(h) => Err(h),
                                }
                            },
                        }
                    },
                }
            } else {
                proof {
                    assert(out@ =~= old(out)@ + res.txt);
                }
                Err(Halt::Failed(EvalError::UnsupportedExtension(ext)))
            }
        },
    }
}

fn eval_element(
    node: &Node,
    depth: usize,
    ctx: &mut Ctx,
    out: &mut String,
    deps: &mut Vec<String>,
    env: &Env,
    fuel: u64,
) -> (r: Result<(), Halt>)
    requires
        fuel >= 1,
        depth as int + fuel as int <= usize::MAX as int,
    ensures
        ({
            let res = spec_eval_element(
                env@,
                *node,
                depth as int,
                old(ctx).scope.as_map(),
                old(ctx).wdir@,
                fuel as nat,
            );
            &&& final(out)@ == old(out)@ + res.txt
            &&& final(deps).deep_view() == old(deps).deep_view() + res.deps
            &&& final(ctx).scope.as_map() == res.scope
            &&& final(ctx).wdir@ == old(ctx).wdir@
            &&& (match r {
                Ok(u) => res.halt is None,
                Err(h) => res.halt == Some(h@),
            })
        }),
    decreases fuel, 0int, 1int,
{
    let ghost res = spec_eval_element(
        env@,
        *node,
        depth as int,
        old(ctx).scope.as_map(),
        old(ctx).wdir@,
        fuel as nat,
    );
    emit_indent(out, depth);
    out.append("<");
    out.append(node.name.as_str());
    proof {
        reveal_strlit("<");
        assert(out@ =~= old(out)@ + (indent_text(depth as int) + seq!['<'] + node.name@));
    }
    match emit_attrs(out, &ctx.scope, &node.entries, 0) {
        Err(e) => {
            proof {
                assert(out@ =~= old(out)@ + res.txt);
                assert(deps.deep_view() =~= old(deps).deep_view() + res.deps);
            }
            Err(Halt::Failed(e))
        },
        Ok(u) => {
            match text_arg(&node.entries) {
                Option::Some(t) => {
                    match interpolate(&ctx.scope, t.as_str()) {
                        Err(e) => {
                            proof {
                                assert(out@ =~= old(out)@ + res.txt);
                                assert(deps.deep_view() =~= old(deps).deep_view() + res.deps);
                            }
                            Err(Halt::Failed(e))
                        },
                        Ok(v) => {
                            out.append(">");
                            out.append(v.as_str());
                            out.append("</");
                            out.append(node.name.as_str());
                            out.append(">\n");
                            proof {
                                reveal_strlit(">");
                                reveal_strlit("</");
                                reveal_strlit(">\n");
                                assert(out@ =~= old(out)@ + res.txt);
                                assert(deps.deep_view() =~= old(deps).deep_view() + res.deps);
                            }
                            Ok(())
                        },
                    }
                },
                Option::None => {
                    match &node.children {
                        Option::Some(cs) => {
                            out.append(">\n");
                            proof {
                                reveal_strlit(">\n");
                            }
                            let rr = eval_nodes(cs, 0, depth + 1, ctx, out, deps, env, fuel - 1);
                            match rr {
                                Err(h) => {
                                    proof {
                                        assert(out@ =~= old(out)@ + res.txt);
                                        assert(deps.deep_view() =~= old(deps).deep_view()
                                            + res.deps);
                                    }
                                    Err(h)
                                },
                                Ok(u2) => {
                                    emit_indent(out, depth);
                                    out.append("</");
                                    out.append(node.name.as_str());
                                    out.append(">\n");
                                    proof {
                                        reveal_strlit("</");
                                        reveal_strlit(">\n");
                                        assert(out@ =~= old(out)@ + res.txt);
                                        assert(deps.deep_view() =~= old(deps).deep_view()
                                            + res.deps);
                                    }
                                    Ok(())
                                },
                            }
                        },
                        Option::None => {
                            if is_void(node.name.as_str()) {
                                out.append(" />\n");
                                proof {
                                    reveal_strlit(" />\n");
                                    assert(out@ =~= old(out)@ + res.txt);
                                    assert(deps.deep_view() =~= old(deps).deep_view() + res.deps);
                                }
                            } else {
                                out.append("></");
                                out.append(node.name.as_str());
                                out.append(">\n");
                                proof {
                                    reveal_strlit("></");
                                    reveal_strlit(">\n");
                                    assert(out@ =~= old(out)@ + res.txt);
                                    assert(deps.deep_view() =~= old(deps).deep_view() + res.deps);
                                }
                            }
                            Ok(())
                        },
                    }
                },
            }
        },
    }
}

/// Evaluates the nodes from index `i` on, in document order.
pub fn eval_nodes(
    nodes: &Vec<Node>,
    i: usize,
    depth: usize,
    ctx: &mut Ctx,
    out: &mut String,
    deps: &mut Vec<String>,
    env: &Env,
    fuel: u64,
) -> (r: Result<(), Halt>)
    requires
        i <= nodes@.len(),
        depth as int + fuel as int <= usize::MAX as int,
    ensures
        ({
            let res = spec_eval_nodes(
                env@,
                nodes@,
                i as int,
                depth as int,
                old(ctx).scope.as_map(),
                old(ctx).wdir@,
                fuel as nat,
            );
            &&& final(out)@ == old(out)@ + res.txt
            &&& final(deps).deep_view() == old(deps).deep_view() + res.deps
            &&& final(ctx).scope.as_map() == res.scope
            &&& final(ctx).wdir@ == old(ctx).wdir@
            &&& (match r {
                Ok(u) => res.halt is None,
                Err(h) => res.halt == Some(h@),
            })
        }),
    decreases fuel, nodes@.len() - i, 3int,
{
    let ghost res = spec_eval_nodes(
        env@,
        nodes@,
        i as int,
        depth as int,
        old(ctx).scope.as_map(),
        old(ctx).wdir@,
        fuel as nat,
    );
    if i == nodes.len() {
        proof {
            assert(out@ =~= old(out)@ + res.txt);
            assert(deps.deep_view() =~= old(deps).deep_view() + res.deps);
        }
        return Ok(());
    }
    match eval_node(&nodes[i], depth, ctx, out, deps, env, fuel) {
        Err(h) => {
            proof {
                assert(out@ =~= old(out)@ + res.txt);
                assert(deps.deep_view() =~= old(deps).deep_view() + res.deps);
            }
            Err(h)
        },
        Ok(u) => {
            let r2 = eval_nodes(nodes, i + 1, depth, ctx, out, deps, env, fuel);
            proof {
                assert(out@ =~= old(out)@ + res.txt);
                assert(deps.deep_view() =~= old(deps).deep_view() + res.deps);
            }
            r2
        },
    }
}

/// The evaluator's entry point: evaluates a node sequence at `depth` and
/// appends rendered output and dependency paths.  `fuel` bounds the
/// nesting of child blocks and inclusions; an inclusion cycle exhausts it
/// and fails rather than loop forever.
pub fn evaluate(
    nodes: &Vec<Node>,
    depth: usize,
    ctx: &mut Ctx,
    out: &mut String,
    deps: &mut Vec<String>,
    env: &Env,
    fuel: u64,
) -> (r: Result<(), Halt>)
    requires
        depth as int + fuel as int <= usize::MAX as int,
    ensures
        ({
            let res = spec_eval_nodes(
                env@,
                nodes@,
                0,
                depth as int,
                old(ctx).scope.as_map(),
                old(ctx).wdir@,
                fuel as nat,
            );
            &&& final(out)@ == old(out)@ + res.txt
            &&& final(deps).deep_view() == old(deps).deep_view() + res.deps
            &&& final(ctx).scope.as_map() == res.scope
            &&& final(ctx).wdir@ == old(ctx).wdir@
            &&& (match r {
                Ok(u) => res.halt is None,
                Err(h) => res.halt == Some(h@),
            })
        }),
{
    eval_nodes(nodes, 0, depth, ctx, out, deps, env, fuel)
}

} // verus!
