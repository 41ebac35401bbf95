//! The laws of the evaluator: evaluation order, what binding nodes do to
//! the scope, the scope-isolation of inclusions, and where a doctype may
//! stand.

use crate::error::EvalErr;
use crate::eval::{spec_bind, spec_eval_node, spec_eval_nodes, EvalRes, SpecEnv, SpecHalt};
use crate::node::{spec_classify, Node, NodeKind};
use vstd::prelude::*;

verus! {

/// Evaluation is sequential: a node list evaluates as its node at `i`,
/// then the rest under the scope that node left behind.  A binding
/// declared by a later node is therefore invisible to an earlier sibling:
/// the earlier sibling's output and scope are fixed before the later node
/// runs, and an inclusion snapshots exactly the scope at its own position.
pub proof fn lemma_eval_sequential(
    env: SpecEnv,
    nodes: Seq<Node>,
    i: int,
    depth: int,
    scope: Map<Seq<char>, Seq<char>>,
    wdir: Seq<char>,
    fuel: nat,
)
    requires
        0 <= i < nodes.len(),
    ensures
        ({
            let first = spec_eval_node(env, nodes[i], depth, scope, wdir, fuel);
            let whole = spec_eval_nodes(env, nodes, i, depth, scope, wdir, fuel);
            let rest = spec_eval_nodes(env, nodes, i + 1, depth, first.scope, wdir, fuel);
            &&& (first.halt is Some ==> whole == first)
            &&& (first.halt is None ==> whole.txt == first.txt + rest.txt)
            &&& (first.halt is None ==> whole.deps == first.deps + rest.deps)
            &&& (first.halt is None ==> whole.scope == rest.scope)
            &&& (first.halt is None ==> whole.halt == rest.halt)
        }),
{
}

/// A binding node declares every named entry of the node, in entry order,
/// and emits nothing; with two distinct names both are bound afterwards,
/// each to its own value, and a repeated name inside one node keeps the
/// later value.
pub proof fn lemma_let_declares_two(
    env: SpecEnv,
    node: Node,
    depth: int,
    scope: Map<Seq<char>, Seq<char>>,
    wdir: Seq<char>,
    fuel: nat,
    n1: Seq<char>,
    v1: Seq<char>,
    n2: Seq<char>,
    v2: Seq<char>,
)
    requires
        fuel > 0,
        spec_classify(node.name@) == NodeKind::Binding,
        node.entries@.len() == 2,
        node.entries@[0].name is Some,
        node.entries@[0].name->Some_0@ == n1,
        node.entries@[0].value.spec_text() == v1,
        node.entries@[1].name is Some,
        node.entries@[1].name->Some_0@ == n2,
        node.entries@[1].value.spec_text() == v2,
    ensures
        ({
            let r = spec_eval_node(env, node, depth, scope, wdir, fuel);
            &&& r.halt is None
            &&& r.txt == Seq::<char>::empty()
            &&& r.deps == Seq::<Seq<char>>::empty()
            &&& r.scope == scope.insert(n1, v1).insert(n2, v2)
            &&& r.scope.contains_key(n1) && r.scope.contains_key(n2)
            &&& (n1 != n2 ==> r.scope[n1] == v1)
            &&& r.scope[n2] == v2
        }),
{
    let e = node.entries@;
    assert(spec_bind(scope, e, 0) == spec_bind(scope.insert(n1, v1), e, 1));
    assert(spec_bind(scope.insert(n1, v1), e, 1) == spec_bind(
        scope.insert(n1, v1).insert(n2, v2),
        e,
        2,
    ));
}

/// In a list of two binding nodes that bind the same name, the later node
/// wins: the scope afterwards holds the second value, while the first
/// node's result — the scope every node between the two would see — holds
/// the first.
pub proof fn lemma_later_let_wins(
    env: SpecEnv,
    nodes: Seq<Node>,
    depth: int,
    scope: Map<Seq<char>, Seq<char>>,
    wdir: Seq<char>,
    fuel: nat,
    name: Seq<char>,
    v1: Seq<char>,
    v2: Seq<char>,
)
    requires
        fuel > 0,
        nodes.len() == 2,
        spec_classify(nodes[0].name@) == NodeKind::Binding,
        spec_classify(nodes[1].name@) == NodeKind::Binding,
        nodes[0].entries@.len() == 1,
        nodes[0].entries@[0].name is Some,
        nodes[0].entries@[0].name->Some_0@ == name,
        nodes[0].entries@[0].value.spec_text() == v1,
        nodes[1].entries@.len() == 1,
        nodes[1].entries@[0].name is Some,
        nodes[1].entries@[0].name->Some_0@ == name,
        nodes[1].entries@[0].value.spec_text() == v2,
    ensures
        ({
            let first = spec_eval_node(env, nodes[0], depth, scope, wdir, fuel);
            let whole = spec_eval_nodes(env, nodes, 0, depth, scope, wdir, fuel);
            &&& first.scope[name] == v1
            &&& whole.halt is None
            &&& whole.txt == Seq::<char>::empty()
            &&& whole.scope[name] == v2
        }),
{
    let first = spec_eval_node(env, nodes[0], depth, scope, wdir, fuel);
    assert(spec_bind(scope, nodes[0].entries@, 0) == spec_bind(
        scope.insert(name, v1),
        nodes[0].entries@,
        1,
    ));
    assert(first.scope == scope.insert(name, v1));
    assert(first.halt is None && first.txt == Seq::<char>::empty());
    let second = spec_eval_node(env, nodes[1], depth, first.scope, wdir, fuel);
    assert(spec_bind(first.scope, nodes[1].entries@, 0) == spec_bind(
        first.scope.insert(name, v2),
        nodes[1].entries@,
        1,
    ));
    assert(second.scope == first.scope.insert(name, v2));
    assert(second.halt is None && second.txt == Seq::<char>::empty());
    let tail = spec_eval_nodes(env, nodes, 2, depth, second.scope, wdir, fuel);
    assert(tail.halt is None && tail.txt == Seq::<char>::empty() && tail.scope == second.scope);
    let r2 = spec_eval_nodes(env, nodes, 1, depth, first.scope, wdir, fuel);
    assert(r2.scope == second.scope && r2.halt is None);
    assert(r2.txt =~= Seq::<char>::empty());
    let whole = spec_eval_nodes(env, nodes, 0, depth, scope, wdir, fuel);
    assert(whole.scope == second.scope && whole.halt is None);
    assert(whole.txt =~= Seq::<char>::empty());
}

/// An inclusion never changes the including document's scope: whatever the
/// included document declares stays inside it, whether the inclusion
/// succeeds, fails, or stops for a missing snapshot.  Together with
/// `lemma_eval_sequential`, the included document also evaluates under the
/// scope as it stood at the inclusion point (overlaid with the node's own
/// named entries), never under bindings declared after that point.
pub proof fn lemma_inclusion_no_leak(
    env: SpecEnv,
    node: Node,
    depth: int,
    scope: Map<Seq<char>, Seq<char>>,
    wdir: Seq<char>,
    fuel: nat,
)
    requires
        spec_classify(node.name@) == NodeKind::Inclusion,
    ensures
        spec_eval_node(env, node, depth, scope, wdir, fuel).scope == scope,
{
}

/// A doctype node below the document root fails as misplaced and emits
/// nothing, whatever its entries hold.
pub proof fn lemma_doctype_misplaced(
    env: SpecEnv,
    node: Node,
    depth: int,
    scope: Map<Seq<char>, Seq<char>>,
    wdir: Seq<char>,
    fuel: nat,
)
    requires
        fuel > 0,
        spec_classify(node.name@) == NodeKind::Doctype,
        depth != 0,
    ensures
        ({
            let r = spec_eval_node(env, node, depth, scope, wdir, fuel);
            &&& r.halt == Some(SpecHalt::Failed(EvalErr::MisplacedDoctype))
            &&& r.txt == Seq::<char>::empty()
            &&& r.scope == scope
        }),
{
}

} // verus!
