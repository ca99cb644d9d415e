use vstd::prelude::*;
use crate::ast::Node;
use crate::ast::NodeView;
use crate::ast::Place;
use crate::ast::PlaceView;
use crate::ast::node_views;
use crate::ast::place_views;
use crate::error::CheckErrorKind;


pub mod clean;
pub mod fixed;
pub mod stray;
pub mod twice;

verus! {

/// `node` with `new_else` as the `else` of the last `if` of its chain; a node that is
/// no `if` stays as it is.
pub open spec fn insert_else(node: NodeView, new_else: NodeView) -> NodeView
    decreases node,
{
    match node {
        NodeView::If { cond, body, els } => match els {
            None => NodeView::If { cond, body, els: Some(Box::new(new_else)) },
            Some(e) => NodeView::If {
                cond,
                body,
                els: Some(Box::new(insert_else(*e, new_else))),
            },
        },
        _ => node,
    }
}

/// Whether a statement starts a chain: whether it is an `if` without an `else`.
pub open spec fn starts_chain(node: NodeView) -> bool {
    node is If && node->If_els is None
}

/// The statements from index `i` on, each `else if` and `else` attached to the chain of
/// the `if` before it; `out` holds what was put out so far, `live` says whether the
/// last statement put out is the head of a chain that is open. An `if` without an `else`
/// starts a chain, an `else if` leaves it open, an `else` closes it, and so does any
/// other statement. Fails where an `else if` or `else` finds no open chain.
pub open spec fn fold_ifs(stmts: Seq<NodeView>, i: nat, out: Seq<NodeView>, live: bool) -> Result<
    Seq<NodeView>,
    CheckErrorKind,
>
    decreases stmts.len() - i,
{
    if i >= stmts.len() {
        Ok(out)
    } else {
        match stmts[i as int] {
            NodeView::If { .. } => fold_ifs(
                stmts,
                i + 1,
                out.push(stmts[i as int]),
                starts_chain(stmts[i as int]),
            ),
            NodeView::ElseIf { cond, body } => if !live || out.len() == 0 {
                Err(CheckErrorKind::MissingIf)
            } else {
                fold_ifs(
                    stmts,
                    i + 1,
                    out.drop_last().push(
                        insert_else(out.last(), NodeView::If { cond, body, els: None }),
                    ),
                    true,
                )
            },
            NodeView::Else { body } => if !live || out.len() == 0 {
                Err(CheckErrorKind::MissingIf)
            } else {
                fold_ifs(stmts, i + 1, out.drop_last().push(insert_else(out.last(), *body)), false)
            },
            _ => fold_ifs(stmts, i + 1, out.push(stmts[i as int]), false),
        }
    }
}

/// A block's statements with every chain folded.
pub open spec fn folded(stmts: Seq<NodeView>) -> Result<Seq<NodeView>, CheckErrorKind> {
    fold_ifs(stmts, 0, seq![], false)
}

/// Whether a node can be assigned to: a name, an index or a super reference.
pub open spec fn is_place(node: NodeView) -> bool {
    node is Name || node is Index || node is Super
}

/// Whether every leaf of an assignment target can be assigned to.
pub open spec fn places_ok(place: PlaceView) -> bool
    decreases place,
{
    match place {
        PlaceView::Single(node) => is_place(*node),
        PlaceView::Multi(places) => forall|i: int|
            0 <= i < places.len() ==> places_ok(#[trigger] places[i]),
    }
}

/// The nodes from index `i` on, each rewritten, or the first error; `stmt` says whether
/// they are the statements of a block.
pub open spec fn rewrite_all(nodes: Seq<NodeView>, i: nat, in_loop: bool, stmt: bool) -> Result<
    Seq<NodeView>,
    CheckErrorKind,
>
    decreases nodes, nodes.len() - i,
{
    if i >= nodes.len() {
        Ok(seq![])
    } else {
        match rewrite_at(nodes[i as int], in_loop, stmt) {
            Ok(head) => match rewrite_all(nodes, i + 1, in_loop, stmt) {
                Ok(tail) => Ok(seq![head] + tail),
                Err(e) => Err(e),
            },
            Err(e) => Err(e),
        }
    }
}

/// The targets from index `i` on, each rewritten, or the first error.
pub open spec fn rewrite_places(places: Seq<PlaceView>, i: nat, in_loop: bool) -> Result<
    Seq<PlaceView>,
    CheckErrorKind,
>
    decreases places, places.len() - i,
{
    if i >= places.len() {
        Ok(seq![])
    } else {
        match rewrite_place(places[i as int], in_loop) {
            Ok(head) => match rewrite_places(places, i + 1, in_loop) {
                Ok(tail) => Ok(seq![head] + tail),
                Err(e) => Err(e),
            },
            Err(e) => Err(e),
        }
    }
}

/// An assignment target with the expressions inside it rewritten.
pub open spec fn rewrite_place(place: PlaceView, in_loop: bool) -> Result<
    PlaceView,
    CheckErrorKind,
>
    decreases place, 0nat,
{
    match place {
        PlaceView::Single(node) => match rewrite_at(*node, in_loop, false) {
            Ok(n) => Ok(PlaceView::Single(Box::new(n))),
            Err(e) => Err(e),
        },
        PlaceView::Multi(places) => match rewrite_places(places, 0, in_loop) {
            Ok(ps) => Ok(PlaceView::Multi(ps)),
            Err(e) => Err(e),
        },
    }
}

/// The tree with every chain of `if`, `else if` and `else` folded into nested `if`s,
/// or the error of the first rule that it breaks. `in_loop` says whether the node
/// stands inside a loop's body; a function's body never does. `stmt` says whether the
/// node stands as a statement of a block: only there may an `else if` or `else` stand,
/// with its parts rewritten, for the fold of the block to attach it. Anywhere else it
/// has no `if` to attach to, and is rejected.
///
/// A block that holds an `else` or `else if` without an open chain to attach to fails
/// before its statements are looked at.
pub open spec fn rewrite_at(n: NodeView, in_loop: bool, stmt: bool) -> Result<
    NodeView,
    CheckErrorKind,
>
    decreases n, 0nat,
{
    match n {
        NodeView::Expr(x) => match rewrite_at(*x, in_loop, false) {
            Ok(a) => Ok(NodeView::Expr(Box::new(a))),
            Err(e) => Err(e),
        },
        NodeView::Block(stmts) => if folded(stmts) is Err {
            Err(CheckErrorKind::MissingIf)
        } else {
            match rewrite_all(stmts, 0, in_loop, true) {
                Ok(done) => match folded(done) {
                    Ok(out) => Ok(NodeView::Block(out)),
                    Err(e) => Err(e),
                },
                Err(e) => Err(e),
            }
        },
        NodeView::Return(val) => match val {
            Some(x) => match rewrite_at(*x, in_loop, false) {
                Ok(a) => Ok(NodeView::Return(Some(Box::new(a)))),
                Err(e) => Err(e),
            },
            None => Ok(n),
        },
        NodeView::Break => if in_loop {
            Ok(n)
        } else {
            Err(CheckErrorKind::NotInLoop)
        },
        NodeView::Continue => if in_loop {
            Ok(n)
        } else {
            Err(CheckErrorKind::NotInLoop)
        },
        NodeView::Assn { lhs, rhs } => if !places_ok(lhs) {
            Err(CheckErrorKind::NotPlace)
        } else {
            match rewrite_place(lhs, in_loop) {
                Ok(l) => match rewrite_at(*rhs, in_loop, false) {
                    Ok(r) => Ok(NodeView::Assn { lhs: l, rhs: Box::new(r) }),
                    Err(e) => Err(e),
                },
                Err(e) => Err(e),
            }
        },
        NodeView::Catch { body } => match rewrite_at(*body, in_loop, false) {
            Ok(b) => Ok(NodeView::Catch { body: Box::new(b) }),
            Err(e) => Err(e),
        },
        NodeView::If { cond, body, els } => match rewrite_at(*cond, in_loop, false) {
            Ok(c) => match rewrite_at(*body, in_loop, false) {
                Ok(b) => match els {
                    Some(x) => match rewrite_at(*x, in_loop, false) {
                        Ok(a) => Ok(
                            NodeView::If {
                                cond: Box::new(c),
                                body: Box::new(b),
                                els: Some(Box::new(a)),
                            },
                        ),
                        Err(e) => Err(e),
                    },
                    None => Ok(NodeView::If { cond: Box::new(c), body: Box::new(b), els: None }),
                },
                Err(e) => Err(e),
            },
            Err(e) => Err(e),
        },
        NodeView::ElseIf { cond, body } => if !stmt {
            Err(CheckErrorKind::MissingIf)
        } else {
            match rewrite_at(*cond, in_loop, false) {
                Ok(c) => match rewrite_at(*body, in_loop, false) {
                    Ok(b) => Ok(NodeView::ElseIf { cond: Box::new(c), body: Box::new(b) }),
                    Err(e) => Err(e),
                },
                Err(e) => Err(e),
            }
        },
        NodeView::Else { body } => if !stmt {
            Err(CheckErrorKind::MissingIf)
        } else {
            match rewrite_at(*body, in_loop, false) {
                Ok(b) => Ok(NodeView::Else { body: Box::new(b) }),
                Err(e) => Err(e),
            }
        },
        NodeView::For { decl, expr, body } => match rewrite_at(*expr, in_loop, false) {
            Ok(x) => match rewrite_at(*body, true, false) {
                Ok(b) => Ok(NodeView::For { decl, expr: Box::new(x), body: Box::new(b) }),
                Err(e) => Err(e),
            },
            Err(e) => Err(e),
        },
        NodeView::While { expr, body } => match rewrite_at(*expr, in_loop, false) {
            Ok(x) => match rewrite_at(*body, true, false) {
                Ok(b) => Ok(NodeView::While { expr: Box::new(x), body: Box::new(b) }),
                Err(e) => Err(e),
            },
            Err(e) => Err(e),
        },
        NodeView::Loop { body } => match rewrite_at(*body, true, false) {
            Ok(b) => Ok(NodeView::Loop { body: Box::new(b) }),
            Err(e) => Err(e),
        },
        NodeView::FuncDef { params, body } => match rewrite_at(*body, false, false) {
            Ok(b) => Ok(NodeView::FuncDef { params, body: Box::new(b) }),
            Err(e) => Err(e),
        },
        NodeView::Index { lhs, rhs } => match rewrite_at(*lhs, in_loop, false) {
            Ok(l) => match rewrite_at(*rhs, in_loop, false) {
                Ok(r) => Ok(NodeView::Index { lhs: Box::new(l), rhs: Box::new(r) }),
                Err(e) => Err(e),
            },
            Err(e) => Err(e),
        },
        NodeView::MethodCall { owner, method, args } => match rewrite_at(*owner, in_loop, false) {
            Ok(o) => match rewrite_at(*method, in_loop, false) {
                Ok(m) => match rewrite_all(args, 0, in_loop, false) {
                    Ok(a) => Ok(
                        NodeView::MethodCall { owner: Box::new(o), method: Box::new(m), args: a },
                    ),
                    Err(e) => Err(e),
                },
                Err(e) => Err(e),
            },
            Err(e) => Err(e),
        },
        NodeView::FuncCall { func, args } => match rewrite_at(*func, in_loop, false) {
            Ok(f) => match rewrite_all(args, 0, in_loop, false) {
                Ok(a) => Ok(NodeView::FuncCall { func: Box::new(f), args: a }),
                Err(e) => Err(e),
            },
            Err(e) => Err(e),
        },
        NodeView::BinExpr { lhs, op, rhs } => match rewrite_at(*lhs, in_loop, false) {
            Ok(l) => match rewrite_at(*rhs, in_loop, false) {
                Ok(r) => Ok(NodeView::BinExpr { lhs: Box::new(l), op, rhs: Box::new(r) }),
                Err(e) => Err(e),
            },
            Err(e) => Err(e),
        },
        NodeView::CmpExpr { nodes, ops } => match rewrite_all(nodes, 0, in_loop, false) {
            Ok(ns) => Ok(NodeView::CmpExpr { nodes: ns, ops }),
            Err(e) => Err(e),
        },
        NodeView::LogicExpr { nodes, ops } => match rewrite_all(nodes, 0, in_loop, false) {
            Ok(ns) => Ok(NodeView::LogicExpr { nodes: ns, ops }),
            Err(e) => Err(e),
        },
        NodeView::UnExpr { val, op } => match rewrite_at(*val, in_loop, false) {
            Ok(v) => Ok(NodeView::UnExpr { val: Box::new(v), op }),
            Err(e) => Err(e),
        },
        NodeView::Super(count, x) => match rewrite_at(*x, in_loop, false) {
            Ok(a) => Ok(NodeView::Super(count, Box::new(a))),
            Err(e) => Err(e),
        },
        _ => Ok(n),
    }
}

/// The tree with every chain of `if`, `else if` and `else` folded into nested `if`s,
/// or the error of the first rule that it breaks: no `else if` and no `else` is left
/// anywhere in the tree. `in_loop` says whether the tree stands inside a loop's body.
pub open spec fn rewrite(n: NodeView, in_loop: bool) -> Result<NodeView, CheckErrorKind> {
    rewrite_at(n, in_loop, false)
}

/// The elements of a vector in reverse order.
pub fn reversed<T>(v: Vec<T>) -> (r: Vec<T>)
    ensures
        r@.len() == v@.len(),
        forall|i: int| 0 <= i < v@.len() ==> r@[i] == v@[v@.len() - 1 - i],
{
    let ghost orig = v@;
    let mut v = v;
    let mut r: Vec<T> = Vec::new();
    while v.len() > 0
        invariant
            v@.len() + r@.len() == orig.len(),
            v@ == orig.take(v@.len() as int),
            forall|i: int| 0 <= i < r@.len() ==> r@[i] == orig[orig.len() - 1 - i],
        decreases v.len(),
    {
        let x = v.pop().unwrap();
        r.push(x);
        assert(v@ =~= orig.take(v@.len() as int));
    }
    r
}

/// Checks a syntax tree against the rules of context and folds its `if` chains.
#[derive(Debug, Clone)]
pub struct SemChecker {
    in_loop: bool,
}

impl SemChecker {
    /// Whether the checker stands inside a loop's body.
    pub closed spec fn inside_loop(&self) -> bool {
        self.in_loop
    }

    /// A checker that stands outside every loop.
    pub fn new() -> (r: SemChecker)
        ensures
            !r.inside_loop(),
    {
        SemChecker { in_loop: false }
    }

    /// Rewrites the tree in place: every chain of `if`, `else if` and `else` becomes
    /// nested `if`s, and no `else if` or `else` is left anywhere in the tree. Fails on
    /// `break` or `continue` outside a loop, on `else` or `else if` without an `if` with
    /// an open chain just before it in a block, and on an assignment to what is no name,
    /// index or super reference; the tree is then left as a lone `pass`.
    pub fn check(&mut self, node: &mut Node) -> (r: Result<(), CheckErrorKind>)
        ensures
            final(self).inside_loop() == old(self).inside_loop(),
            match rewrite(old(node)@, old(self).inside_loop()) {
                Ok(n) => r is Ok && final(node)@ == n,
                Err(e) => r == Err::<(), CheckErrorKind>(e) && final(node)@ == NodeView::Pass,
            },
    {
        let mut taken = Node::Pass;
        core::mem::swap(node, &mut taken);
        match self.rewrite_node(taken, self.in_loop, false) {
            Ok(n) => {
                *node = n;
                Ok(())
            },
            Err(e) => Err(e),
        }
    }

    /// `node` with `new_else` as the `else` of the last `if` of its chain.
    pub fn insert_else(&self, node: Node, new_else: Node) -> (r: Node)
        ensures
            r@ == insert_else(node@, new_else@),
        decreases node,
    {
        match node {
            Node::If { cond, body, els } => match els {
                None => Node::If { cond, body, els: Some(Box::new(new_else)) },
                Some(e) => Node::If {
                    cond,
                    body,
                    els: Some(Box::new(self.insert_else(*e, new_else))),
                },
            },
            other => other,
        }
    }

    /// Whether every `else` and `else if` of a block has an open chain to attach to.
    pub fn can_fold(&self, block: &Vec<Node>) -> (r: bool)
        ensures
            r == folded(node_views(*block)) is Ok,
    {
        let ghost views = node_views(*block);
        let ghost mut out: Seq<NodeView> = seq![];
        let mut live = false;
        let mut i: usize = 0;
        while i < block.len()
            invariant
                i <= block.len(),
                views == node_views(*block),
                live ==> out.len() > 0,
                folded(views) is Ok == fold_ifs(views, i as nat, out, live) is Ok,
            decreases block.len() - i,
        {
            match &block[i] {
                Node::If { els, .. } => {
                    live = els.is_none();
                    proof {
                        out = out.push(views[i as int]);
                    }
                },
                Node::ElseIf { .. } => {
                    if !live {
                        return false;
                    }
                    proof {
                        let link = NodeView::If {
                            cond: views[i as int]->ElseIf_cond,
                            body: views[i as int]->ElseIf_body,
                            els: None,
                        };
                        out = out.drop_last().push(insert_else(out.last(), link));
                    }
                },
                Node::Else { .. } => {
                    if !live {
                        return false;
                    }
                    live = false;
                    proof {
                        out = out.drop_last().push(
                            insert_else(out.last(), *views[i as int]->Else_body),
                        );
                    }
                },
                _ => {
                    live = false;
                    proof {
                        out = out.push(views[i as int]);
                    }
                },
            }
            i = i + 1;
        }
        true
    }

    /// Folds the chains of a block's statements.
    #[verifier::loop_isolation(false)]
    pub fn check_ifs(&self, block: Vec<Node>) -> (r: Result<Vec<Node>, CheckErrorKind>)
        ensures
            match folded(node_views(block)) {
                Ok(out) => r is Ok && node_views(r->Ok_0) == out,
                Err(e) => r == Err::<Vec<Node>, CheckErrorKind>(e),
            },
    {
        let ghost views = node_views(block);
        let n = block.len();
        let ghost orig = block;
        let mut rest = reversed(block);
        let mut out: Vec<Node> = Vec::new();
        let mut live = false;
        assert(node_views(out) =~= seq![]);
        while rest.len() > 0
            invariant
                rest@.len() <= n,
                n == orig@.len(),
                views == node_views(orig),
                forall|k: int| 0 <= k < rest@.len() ==> rest@[k] == orig@[n - 1 - k],
                folded(views) == fold_ifs(
                    views,
                    (n - rest@.len()) as nat,
                    node_views(out),
                    live,
                ),
            decreases rest.len(),
        {
            let ghost i = n - rest@.len();
            let ghost before = node_views(out);
            let stmt = rest.pop().unwrap();
            assert(stmt == orig@[i]);
            assert(stmt@ == views[i]);
            match stmt {
                Node::If { cond, body, els } => {
                    live = els.is_none();
                    out.push(Node::If { cond, body, els });
                    assert(node_views(out) =~= before.push(views[i]));
                },
                Node::ElseIf { cond, body } => {
                    if !live {
                        return Err(CheckErrorKind::MissingIf);
                    }
                    match out.pop() {
                        Some(last) => {
                            assert(last@ == before.last());
                            assert(node_views(out) =~= before.drop_last());
                            let joined = self.insert_else(
                                last,
                                Node::If { cond, body, els: None },
                            );
                            let ghost shorter = node_views(out);
                            out.push(joined);
                            assert(node_views(out) =~= shorter.push(joined@));
                        },
                        None => {
                            return Err(CheckErrorKind::MissingIf);
                        },
                    }
                },
                Node::Else { body } => {
                    if !live {
                        return Err(CheckErrorKind::MissingIf);
                    }
                    live = false;
                    match out.pop() {
                        Some(last) => {
                            assert(last@ == before.last());
                            assert(node_views(out) =~= before.drop_last());
                            let joined = self.insert_else(last, *body);
                            let ghost shorter = node_views(out);
                            out.push(joined);
                            assert(node_views(out) =~= shorter.push(joined@));
                        },
                        None => {
                            return Err(CheckErrorKind::MissingIf);
                        },
                    }
                },
                other => {
                    live = false;
                    out.push(other);
                    assert(node_views(out) =~= before.push(views[i]));
                },
            }
        }
        Ok(out)
    }

    /// Whether a node can be assigned to.
    pub fn is_place(&self, node: &Node) -> (r: Result<(), CheckErrorKind>)
        ensures
            r == (if is_place(node@) {
                Ok::<(), CheckErrorKind>(())
            } else {
                Err::<(), CheckErrorKind>(CheckErrorKind::NotPlace)
            }),
    {
        match node {
            Node::Name(_) => Ok(()),
            Node::Index { .. } => Ok(()),
            Node::Super(_, _) => Ok(()),
            _ => Err(CheckErrorKind::NotPlace),
        }
    }

    /// Whether every leaf of an assignment target can be assigned to.
    #[verifier::loop_isolation(false)]
    pub fn check_place(&self, place: &Place) -> (r: Result<(), CheckErrorKind>)
        ensures
            r == (if places_ok(place@) {
                Ok::<(), CheckErrorKind>(())
            } else {
                Err::<(), CheckErrorKind>(CheckErrorKind::NotPlace)
            }),
        decreases place,
    {
        match place {
            Place::Single(node) => self.is_place(node),
            Place::Multi(places) => {
                let ghost views = place@->Multi_0;
                let mut i: usize = 0;
                while i < places.len()
                    invariant
                        i <= places.len(),
                        forall|k: int| 0 <= k < i ==> places_ok(#[trigger] views[k]),
                    decreases places.len() - i,
                {
                    assert(views[i as int] == places@[i as int]@);
                    match self.check_place(&places[i]) {
                        Ok(()) => {},
                        Err(e) => {
                            return Err(e);
                        },
                    }
                    i = i + 1;
                }
                Ok(())
            },
        }
    }

    /// Rewrites each node of a list.
    #[verifier::loop_isolation(false)]
    fn rewrite_nodes(&self, nodes: Vec<Node>, in_loop: bool, stmt: bool) -> (r: Result<
        Vec<Node>,
        CheckErrorKind,
    >)
        ensures
            match rewrite_all(node_views(nodes), 0, in_loop, stmt) {
                Ok(out) => r is Ok && node_views(r->Ok_0) == out,
                Err(e) => r == Err::<Vec<Node>, CheckErrorKind>(e),
            },
        decreases nodes, 2nat,
    {
        let ghost views = node_views(nodes);
        let n = nodes.len();
        let ghost orig = nodes;
        let mut rest = reversed(nodes);
        let mut out: Vec<Node> = Vec::new();
        assert(node_views(out) =~= seq![]);
        while rest.len() > 0
            invariant
                rest@.len() <= n,
                n == orig@.len(),
                views == node_views(orig),
                forall|k: int| 0 <= k < rest@.len() ==> rest@[k] == orig@[n - 1 - k],
                match rewrite_all(views, (n - rest@.len()) as nat, in_loop, stmt) {
                    Ok(tail) => rewrite_all(views, 0, in_loop, stmt) == Ok::<
                        Seq<NodeView>,
                        CheckErrorKind,
                    >(node_views(out) + tail),
                    Err(e) => rewrite_all(views, 0, in_loop, stmt) == Err::<
                        Seq<NodeView>,
                        CheckErrorKind,
                    >(e),
                },
            decreases rest.len(),
        {
            let ghost i = n - rest@.len();
            let ghost before = node_views(out);
            let node = rest.pop().unwrap();
            assert(node == orig@[i]);
            assert(node@ == views[i]);
            let done = self.rewrite_node(node, in_loop, stmt)?;
            out.push(done);
            proof {
                assert(node_views(out) =~= before.push(done@));
                match rewrite_all(views, (i + 1) as nat, in_loop, stmt) {
                    Ok(tail) => {
                        assert(before + (seq![done@] + tail) =~= before.push(done@) + tail);
                    },
                    Err(_) => {},
                }
            }
        }
        proof {
            assert(node_views(out) + Seq::<NodeView>::empty() =~= node_views(out));
        }
        Ok(out)
    }

    /// Rewrites each target of a list.
    #[verifier::loop_isolation(false)]
    fn rewrite_places(&self, places: Vec<Place>, in_loop: bool) -> (r: Result<
        Vec<Place>,
        CheckErrorKind,
    >)
        ensures
            match rewrite_places(place_views(places), 0, in_loop) {
                Ok(out) => r is Ok && place_views(r->Ok_0) == out,
                Err(e) => r == Err::<Vec<Place>, CheckErrorKind>(e),
            },
        decreases places, 2nat,
    {
        let ghost views = place_views(places);
        let n = places.len();
        let ghost orig = places;
        let mut rest = reversed(places);
        let mut out: Vec<Place> = Vec::new();
        assert(place_views(out) =~= seq![]);
        while rest.len() > 0
            invariant
                rest@.len() <= n,
                n == orig@.len(),
                views == place_views(orig),
                forall|k: int| 0 <= k < rest@.len() ==> rest@[k] == orig@[n - 1 - k],
                match rewrite_places(views, (n - rest@.len()) as nat, in_loop) {
                    Ok(tail) => rewrite_places(views, 0, in_loop) == Ok::<
                        Seq<PlaceView>,
                        CheckErrorKind,
                    >(place_views(out) + tail),
                    Err(e) => rewrite_places(views, 0, in_loop) == Err::<
                        Seq<PlaceView>,
                        CheckErrorKind,
                    >(e),
                },
            decreases rest.len(),
        {
            let ghost i = n - rest@.len();
            let ghost before = place_views(out);
            let place = rest.pop().unwrap();
            assert(place == orig@[i]);
            assert(place@ == views[i]);
            let done = self.rewrite_place(place, in_loop)?;
            out.push(done);
            proof {
                assert(place_views(out) =~= before.push(done@));
                match rewrite_places(views, (i + 1) as nat, in_loop) {
                    Ok(tail) => {
                        assert(before + (seq![done@] + tail) =~= before.push(done@) + tail);
                    },
                    Err(_) => {},
                }
            }
        }
        proof {
            assert(place_views(out) + Seq::<PlaceView>::empty() =~= place_views(out));
        }
        Ok(out)
    }

    /// Rewrites the expressions inside an assignment target.
    fn rewrite_place(&self, place: Place, in_loop: bool) -> (r: Result<Place, CheckErrorKind>)
        ensures
            match rewrite_place(place@, in_loop) {
                Ok(out) => r is Ok && r->Ok_0@ == out,
                Err(e) => r == Err::<Place, CheckErrorKind>(e),
            },
        decreases place, 2nat,
    {
        match place {
            Place::Single(node) => Ok(Place::Single(Box::new(self.rewrite_node(*node, in_loop, false)?))),
            Place::Multi(places) => {
                assert(place@->Multi_0 == place_views(places));
                Ok(Place::Multi(self.rewrite_places(places, in_loop)?))
            },
        }
    }

    /// Rewrites one node.
    fn rewrite_node(&self, node: Node, in_loop: bool, stmt: bool) -> (r: Result<Node, CheckErrorKind>)
        ensures
            match rewrite_at(node@, in_loop, stmt) {
                Ok(out) => r is Ok && r->Ok_0@ == out,
                Err(e) => r == Err::<Node, CheckErrorKind>(e),
            },
        decreases node, 1nat,
    {
        match node {
            Node::Expr(_) | Node::Return(_) | Node::Catch { .. } | Node::Loop { .. }
            | Node::FuncDef { .. } | Node::UnExpr { .. } | Node::Super(_, _) => self.rewrite_single(
                node,
                in_loop,
                Ghost(stmt),
            ),
            Node::If { .. } => self.rewrite_branch(node, in_loop, Ghost(stmt)),
            Node::ElseIf { .. } | Node::Else { .. } => if stmt {
                self.rewrite_else(node, in_loop)
            } else {
                Err(CheckErrorKind::MissingIf)
            },
            Node::For { .. } | Node::While { .. } | Node::Index { .. } | Node::BinExpr {
                ..
            } => self.rewrite_pair(node, in_loop, Ghost(stmt)),
            Node::MethodCall { .. } | Node::FuncCall { .. } | Node::CmpExpr { .. }
            | Node::LogicExpr { .. } => self.rewrite_list(node, in_loop, Ghost(stmt)),
            Node::Block(_) | Node::Assn { .. } => self.rewrite_block(node, in_loop, Ghost(stmt)),
            Node::Break | Node::Continue => if in_loop {
                Ok(node)
            } else {
                Err(CheckErrorKind::NotInLoop)
            },
            other => Ok(other),
        }
    }

    /// Rewrites a node with one part.
    fn rewrite_single(&self, node: Node, in_loop: bool, Ghost(stmt): Ghost<bool>) -> (r: Result<Node, CheckErrorKind>)
        requires
            node is Expr || node is Return || node is Catch || node is Loop || node is FuncDef
                || node is UnExpr || node is Super,
        ensures
            match rewrite_at(node@, in_loop, stmt) {
                Ok(out) => r is Ok && r->Ok_0@ == out,
                Err(e) => r == Err::<Node, CheckErrorKind>(e),
            },
        decreases node, 0nat,
    {
        match node {
            Node::Expr(x) => Ok(Node::Expr(Box::new(self.rewrite_node(*x, in_loop, false)?))),
            Node::Return(val) => match val {
                Some(x) => Ok(Node::Return(Some(Box::new(self.rewrite_node(*x, in_loop, false)?)))),
                None => Ok(Node::Return(None)),
            },
            Node::Catch { body } => Ok(
                Node::Catch { body: Box::new(self.rewrite_node(*body, in_loop, false)?) },
            ),
            Node::Loop { body } => Ok(
                Node::Loop { body: Box::new(self.rewrite_node(*body, true, false)?) },
            ),
            Node::FuncDef { params, body } => Ok(
                Node::FuncDef { params, body: Box::new(self.rewrite_node(*body, false, false)?) },
            ),
            Node::UnExpr { val, op } => Ok(
                Node::UnExpr { val: Box::new(self.rewrite_node(*val, in_loop, false)?), op },
            ),
            Node::Super(count, x) => Ok(
                Node::Super(count, Box::new(self.rewrite_node(*x, in_loop, false)?)),
            ),
            other => Ok(other),
        }
    }

    /// Rewrites a conditional.
    fn rewrite_branch(&self, node: Node, in_loop: bool, Ghost(stmt): Ghost<bool>) -> (r: Result<Node, CheckErrorKind>)
        requires
            node is If,
        ensures
            match rewrite_at(node@, in_loop, stmt) {
                Ok(out) => r is Ok && r->Ok_0@ == out,
                Err(e) => r == Err::<Node, CheckErrorKind>(e),
            },
        decreases node, 0nat,
    {
        match node {
            Node::If { cond, body, els } => {
                let c = self.rewrite_node(*cond, in_loop, false)?;
                let b = self.rewrite_node(*body, in_loop, false)?;
                match els {
                    Some(x) => {
                        let a = self.rewrite_node(*x, in_loop, false)?;
                        Ok(
                            Node::If {
                                cond: Box::new(c),
                                body: Box::new(b),
                                els: Some(Box::new(a)),
                            },
                        )
                    },
                    None => Ok(Node::If { cond: Box::new(c), body: Box::new(b), els: None }),
                }
            },
            other => Ok(other),
        }
    }

    /// Rewrites the parts of an `else if` or `else` that stands as a statement of a block.
    fn rewrite_else(&self, node: Node, in_loop: bool) -> (r: Result<Node, CheckErrorKind>)
        requires
            node is ElseIf || node is Else,
        ensures
            match rewrite_at(node@, in_loop, true) {
                Ok(out) => r is Ok && r->Ok_0@ == out,
                Err(e) => r == Err::<Node, CheckErrorKind>(e),
            },
        decreases node, 0nat,
    {
        match node {
            Node::ElseIf { cond, body } => {
                let c = self.rewrite_node(*cond, in_loop, false)?;
                let b = self.rewrite_node(*body, in_loop, false)?;
                Ok(Node::ElseIf { cond: Box::new(c), body: Box::new(b) })
            },
            Node::Else { body } => Ok(
                Node::Else { body: Box::new(self.rewrite_node(*body, in_loop, false)?) },
            ),
            other => Ok(other),
        }
    }

    /// Rewrites a node with two parts.
    fn rewrite_pair(&self, node: Node, in_loop: bool, Ghost(stmt): Ghost<bool>) -> (r: Result<Node, CheckErrorKind>)
        requires
            node is For || node is While || node is Index || node is BinExpr,
        ensures
            match rewrite_at(node@, in_loop, stmt) {
                Ok(out) => r is Ok && r->Ok_0@ == out,
                Err(e) => r == Err::<Node, CheckErrorKind>(e),
            },
        decreases node, 0nat,
    {
        match node {
            Node::For { decl, expr, body } => {
                let x = self.rewrite_node(*expr, in_loop, false)?;
                let b = self.rewrite_node(*body, true, false)?;
                Ok(Node::For { decl, expr: Box::new(x), body: Box::new(b) })
            },
            Node::While { expr, body } => {
                let x = self.rewrite_node(*expr, in_loop, false)?;
                let b = self.rewrite_node(*body, true, false)?;
                Ok(Node::While { expr: Box::new(x), body: Box::new(b) })
            },
            Node::Index { lhs, rhs } => {
                let l = self.rewrite_node(*lhs, in_loop, false)?;
                let r = self.rewrite_node(*rhs, in_loop, false)?;
                Ok(Node::Index { lhs: Box::new(l), rhs: Box::new(r) })
            },
            Node::BinExpr { lhs, op, rhs } => {
                let l = self.rewrite_node(*lhs, in_loop, false)?;
                let r = self.rewrite_node(*rhs, in_loop, false)?;
                Ok(Node::BinExpr { lhs: Box::new(l), op, rhs: Box::new(r) })
            },
            other => Ok(other),
        }
    }

    /// Rewrites a node with a list of parts.
    fn rewrite_list(&self, node: Node, in_loop: bool, Ghost(stmt): Ghost<bool>) -> (r: Result<Node, CheckErrorKind>)
        requires
            node is MethodCall || node is FuncCall || node is CmpExpr || node is LogicExpr,
        ensures
            match rewrite_at(node@, in_loop, stmt) {
                Ok(out) => r is Ok && r->Ok_0@ == out,
                Err(e) => r == Err::<Node, CheckErrorKind>(e),
            },
        decreases node, 0nat,
    {
        match node {
            Node::MethodCall { owner, method, args } => {
                let o = self.rewrite_node(*owner, in_loop, false)?;
                let m = self.rewrite_node(*method, in_loop, false)?;
                let a = self.rewrite_nodes(args, in_loop, false)?;
                Ok(Node::MethodCall { owner: Box::new(o), method: Box::new(m), args: a })
            },
            Node::FuncCall { func, args } => {
                let f = self.rewrite_node(*func, in_loop, false)?;
                let a = self.rewrite_nodes(args, in_loop, false)?;
                Ok(Node::FuncCall { func: Box::new(f), args: a })
            },
            Node::CmpExpr { nodes, ops } => Ok(
                Node::CmpExpr { nodes: self.rewrite_nodes(nodes, in_loop, false)?, ops },
            ),
            Node::LogicExpr { nodes, ops } => Ok(
                Node::LogicExpr { nodes: self.rewrite_nodes(nodes, in_loop, false)?, ops },
            ),
            other => Ok(other),
        }
    }

    /// Rewrites a block or an assignment.
    fn rewrite_block(&self, node: Node, in_loop: bool, Ghost(stmt): Ghost<bool>) -> (r: Result<Node, CheckErrorKind>)
        requires
            node is Block || node is Assn,
        ensures
            match rewrite_at(node@, in_loop, stmt) {
                Ok(out) => r is Ok && r->Ok_0@ == out,
                Err(e) => r == Err::<Node, CheckErrorKind>(e),
            },
        decreases node, 0nat,
    {
        match node {
            Node::Block(stmts) => {
                if !self.can_fold(&stmts) {
                    return Err(CheckErrorKind::MissingIf);
                }
                let done = self.rewrite_nodes(stmts, in_loop, true)?;
                Ok(Node::Block(self.check_ifs(done)?))
            },
            Node::Assn { lhs, rhs } => {
                self.check_place(&lhs)?;
                let l = self.rewrite_place(lhs, in_loop)?;
                let r = self.rewrite_node(*rhs, in_loop, false)?;
                Ok(Node::Assn { lhs: l, rhs: Box::new(r) })
            },
            other => Ok(other),
        }
    }

}

} // verus!
