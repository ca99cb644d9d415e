use vstd::prelude::*;
use crate::ast::NodeView;
use crate::ast::PlaceView;
use crate::error::CheckErrorKind;
use crate::semck::fixed::lemma_rewrite_all_elements;
use crate::semck::fixed::lemma_rewrite_places_elements;
use crate::semck::fold_ifs;
use crate::semck::folded;
use crate::semck::insert_else;
use crate::semck::starts_chain;
use crate::semck::rewrite;
use crate::semck::rewrite_all;
use crate::semck::rewrite_at;
use crate::semck::rewrite_place;
use crate::semck::rewrite_places;

verus! {

/// Whether an assignment target holds no `else if` and no `else`, at any depth.
pub open spec fn no_else_place(p: PlaceView) -> bool
    decreases p,
{
    match p {
        PlaceView::Single(node) => no_else(*node),
        PlaceView::Multi(places) => forall|k: int|
            0 <= k < places.len() ==> no_else_place(#[trigger] places[k]),
    }
}

/// Whether every node of a list holds no `else if` and no `else`, at any depth.
pub open spec fn no_else_list(ns: Seq<NodeView>) -> bool
    decreases ns,
{
    forall|k: int| 0 <= k < ns.len() ==> no_else(#[trigger] ns[k])
}

/// Whether the tree holds no `else if` and no `else`, at any depth: in no block, no
/// branch, no body of a loop or function, no operand and no assignment target.
pub open spec fn no_else(n: NodeView) -> bool
    decreases n,
{
    match n {
        NodeView::ElseIf { .. } => false,
        NodeView::Else { .. } => false,
        NodeView::Expr(x) => no_else(*x),
        NodeView::Block(stmts) => no_else_list(stmts),
        NodeView::Return(val) => match val {
            Some(x) => no_else(*x),
            None => true,
        },
        NodeView::Assn { lhs, rhs } => no_else_place(lhs) && no_else(*rhs),
        NodeView::Catch { body } => no_else(*body),
        NodeView::If { cond, body, els } => no_else(*cond) && no_else(*body) && match els {
            Some(x) => no_else(*x),
            None => true,
        },
        NodeView::For { decl, expr, body } => no_else(*expr) && no_else(*body),
        NodeView::While { expr, body } => no_else(*expr) && no_else(*body),
        NodeView::Loop { body } => no_else(*body),
        NodeView::FuncDef { params, body } => no_else(*body),
        NodeView::Index { lhs, rhs } => no_else(*lhs) && no_else(*rhs),
        NodeView::MethodCall { owner, method, args } => no_else(*owner) && no_else(*method)
            && no_else_list(args),
        NodeView::FuncCall { func, args } => no_else(*func) && no_else_list(args),
        NodeView::BinExpr { lhs, op, rhs } => no_else(*lhs) && no_else(*rhs),
        NodeView::CmpExpr { nodes, ops } => no_else_list(nodes),
        NodeView::LogicExpr { nodes, ops } => no_else_list(nodes),
        NodeView::UnExpr { val, op } => no_else(*val),
        NodeView::Super(count, x) => no_else(*x),
        _ => true,
    }
}

/// Whether a statement that waits for the fold of its block holds no `else if` and no
/// `else` but, at most, itself.
pub open spec fn no_else_within(n: NodeView) -> bool {
    match n {
        NodeView::ElseIf { cond, body } => no_else(*cond) && no_else(*body),
        NodeView::Else { body } => no_else(*body),
        _ => no_else(n),
    }
}

/// Attaching a tree without `else` to a tree without `else` gives a tree without.
pub proof fn lemma_insert_else_clean(node: NodeView, new_else: NodeView)
    requires
        no_else(node),
        no_else(new_else),
    ensures
        no_else(insert_else(node, new_else)),
    decreases node,
{
    match node {
        NodeView::If { cond, body, els } => {
            match els {
                Some(e) => {
                    lemma_insert_else_clean(*e, new_else);
                },
                None => {},
            }
        },
        _ => {},
    }
}

/// The fold of a block leaves no `else if` and no `else` among its statements, nor
/// inside them, if there was none inside the statements before.
pub proof fn lemma_fold_clean(xs: Seq<NodeView>, i: nat, out: Seq<NodeView>, live: bool)
    requires
        i <= xs.len(),
        forall|k: int| 0 <= k < xs.len() ==> no_else_within(#[trigger] xs[k]),
        no_else_list(out),
        fold_ifs(xs, i, out, live) is Ok,
    ensures
        no_else_list(fold_ifs(xs, i, out, live)->Ok_0),
    decreases xs.len() - i,
{
    if i < xs.len() {
        let x = xs[i as int];
        assert(no_else_within(x));
        match x {
            NodeView::ElseIf { cond, body } => {
                let link = NodeView::If { cond, body, els: None };
                assert(no_else(link));
                assert(no_else(out.last()));
                lemma_insert_else_clean(out.last(), link);
                let next = out.drop_last().push(insert_else(out.last(), link));
                assert forall|k: int| 0 <= k < next.len() implies no_else(#[trigger] next[k]) by {
                    if k < out.len() - 1 {
                        assert(next[k] == out[k]);
                    }
                }
                lemma_fold_clean(xs, i + 1, next, true);
            },
            NodeView::Else { body } => {
                assert(no_else(out.last()));
                lemma_insert_else_clean(out.last(), *body);
                let next = out.drop_last().push(insert_else(out.last(), *body));
                assert forall|k: int| 0 <= k < next.len() implies no_else(#[trigger] next[k]) by {
                    if k < out.len() - 1 {
                        assert(next[k] == out[k]);
                    }
                }
                lemma_fold_clean(xs, i + 1, next, false);
            },
            _ => {
                let next = out.push(x);
                assert forall|k: int| 0 <= k < next.len() implies no_else(#[trigger] next[k]) by {
                    if k < out.len() {
                        assert(next[k] == out[k]);
                    }
                }
                if x is If {
                    lemma_fold_clean(xs, i + 1, next, starts_chain(x));
                } else {
                    lemma_fold_clean(xs, i + 1, next, false);
                }
            },
        }
    }
}

/// A rewritten list holds no `else if` and no `else` but, among the statements of a
/// block, the statements themselves.
pub proof fn lemma_list_clean(ns: Seq<NodeView>, in_loop: bool, stmt: bool)
    requires
        rewrite_all(ns, 0, in_loop, stmt) is Ok,
    ensures
        forall|k: int|
            0 <= k < rewrite_all(ns, 0, in_loop, stmt)->Ok_0.len() ==> no_else_within(
                #[trigger] rewrite_all(ns, 0, in_loop, stmt)->Ok_0[k],
            ),
        !stmt ==> no_else_list(rewrite_all(ns, 0, in_loop, stmt)->Ok_0),
    decreases ns, 1nat,
{
    let rs = rewrite_all(ns, 0, in_loop, stmt)->Ok_0;
    lemma_rewrite_all_elements(ns, 0, in_loop, stmt);
    assert forall|k: int| 0 <= k < rs.len() implies no_else_within(#[trigger] rs[k]) && (!stmt
        ==> no_else(rs[k])) by {
        assert(ns[0 + k] == ns[k]);
        lemma_clean_at(ns[k], in_loop, stmt);
    }
}

/// A rewritten list of targets holds no `else if` and no `else`.
pub proof fn lemma_places_clean(ps: Seq<PlaceView>, in_loop: bool)
    requires
        rewrite_places(ps, 0, in_loop) is Ok,
    ensures
        forall|k: int|
            0 <= k < rewrite_places(ps, 0, in_loop)->Ok_0.len() ==> no_else_place(
                #[trigger] rewrite_places(ps, 0, in_loop)->Ok_0[k],
            ),
    decreases ps, 1nat,
{
    let rs = rewrite_places(ps, 0, in_loop)->Ok_0;
    lemma_rewrite_places_elements(ps, 0, in_loop);
    assert forall|k: int| 0 <= k < rs.len() implies no_else_place(#[trigger] rs[k]) by {
        assert(ps[0 + k] == ps[k]);
        lemma_place_clean(ps[k], in_loop);
    }
}

/// A rewritten target holds no `else if` and no `else`.
pub proof fn lemma_place_clean(p: PlaceView, in_loop: bool)
    requires
        rewrite_place(p, in_loop) is Ok,
    ensures
        no_else_place(rewrite_place(p, in_loop)->Ok_0),
    decreases p, 0nat,
{
    match p {
        PlaceView::Single(node) => {
            lemma_clean_at(*node, in_loop, false);
        },
        PlaceView::Multi(places) => {
            lemma_places_clean(places, in_loop);
        },
    }
}

/// A rewritten block holds no `else if` and no `else`.
proof fn lemma_block_clean(stmts: Seq<NodeView>, in_loop: bool, stmt: bool)
    requires
        rewrite_at(NodeView::Block(stmts), in_loop, stmt) is Ok,
    ensures
        no_else(rewrite_at(NodeView::Block(stmts), in_loop, stmt)->Ok_0),
    decreases stmts, 2nat,
{
    let rs = rewrite_all(stmts, 0, in_loop, true)->Ok_0;
    lemma_list_clean(stmts, in_loop, true);
    assert(no_else_list(Seq::<NodeView>::empty()));
    lemma_fold_clean(rs, 0, seq![], false);
    assert(rewrite_at(NodeView::Block(stmts), in_loop, stmt)->Ok_0 == NodeView::Block(
        folded(rs)->Ok_0,
    ));
}

/// What the rewriter gives holds no `else if` and no `else` but, for a statement of a
/// block, the statement itself.
pub proof fn lemma_clean_at(n: NodeView, in_loop: bool, stmt: bool)
    requires
        rewrite_at(n, in_loop, stmt) is Ok,
    ensures
        no_else_within(rewrite_at(n, in_loop, stmt)->Ok_0),
        !stmt ==> no_else(rewrite_at(n, in_loop, stmt)->Ok_0),
    decreases n, 3nat,
{
    match n {
        NodeView::Expr(x) => {
            lemma_clean_at(*x, in_loop, false);
        },
        NodeView::Block(stmts) => {
            lemma_block_clean(stmts, in_loop, stmt);
        },
        NodeView::Return(val) => {
            match val {
                Some(x) => {
                    lemma_clean_at(*x, in_loop, false);
                },
                None => {},
            }
        },
        NodeView::Assn { lhs, rhs } => {
            lemma_place_clean(lhs, in_loop);
            lemma_clean_at(*rhs, in_loop, false);
        },
        NodeView::Catch { body } => {
            lemma_clean_at(*body, in_loop, false);
        },
        NodeView::If { cond, body, els } => {
            lemma_clean_at(*cond, in_loop, false);
            lemma_clean_at(*body, in_loop, false);
            match els {
                Some(x) => {
                    lemma_clean_at(*x, in_loop, false);
                },
                None => {},
            }
        },
        NodeView::ElseIf { cond, body } => {
            lemma_clean_at(*cond, in_loop, false);
            lemma_clean_at(*body, in_loop, false);
        },
        NodeView::Else { body } => {
            lemma_clean_at(*body, in_loop, false);
        },
        NodeView::For { decl, expr, body } => {
            lemma_clean_at(*expr, in_loop, false);
            lemma_clean_at(*body, true, false);
        },
        NodeView::While { expr, body } => {
            lemma_clean_at(*expr, in_loop, false);
            lemma_clean_at(*body, true, false);
        },
        NodeView::Loop { body } => {
            lemma_clean_at(*body, true, false);
        },
        NodeView::FuncDef { params, body } => {
            lemma_clean_at(*body, false, false);
        },
        NodeView::Index { lhs, rhs } => {
            lemma_clean_at(*lhs, in_loop, false);
            lemma_clean_at(*rhs, in_loop, false);
        },
        NodeView::MethodCall { owner, method, args } => {
            lemma_clean_at(*owner, in_loop, false);
            lemma_clean_at(*method, in_loop, false);
            lemma_list_clean(args, in_loop, false);
        },
        NodeView::FuncCall { func, args } => {
            lemma_clean_at(*func, in_loop, false);
            lemma_list_clean(args, in_loop, false);
        },
        NodeView::BinExpr { lhs, op, rhs } => {
            lemma_clean_at(*lhs, in_loop, false);
            lemma_clean_at(*rhs, in_loop, false);
        },
        NodeView::CmpExpr { nodes, ops } => {
            lemma_list_clean(nodes, in_loop, false);
        },
        NodeView::LogicExpr { nodes, ops } => {
            lemma_list_clean(nodes, in_loop, false);
        },
        NodeView::UnExpr { val, op } => {
            lemma_clean_at(*val, in_loop, false);
        },
        NodeView::Super(count, x) => {
            lemma_clean_at(*x, in_loop, false);
        },
        _ => {},
    }
}

/// After a pass that succeeds no `else if` and no `else` is left anywhere in the tree:
/// each was attached to its `if`, or the tree was rejected.
pub proof fn lemma_no_else_left(n: NodeView, in_loop: bool)
    requires
        rewrite(n, in_loop) is Ok,
    ensures
        no_else(rewrite(n, in_loop)->Ok_0),
{
    lemma_clean_at(n, in_loop, false);
}

/// An `else if` or `else` that is no statement of a block is rejected, whatever it
/// holds.
pub proof fn lemma_lone_else_rejected(n: NodeView, in_loop: bool)
    requires
        n is ElseIf || n is Else,
    ensures
        rewrite(n, in_loop) == Err::<NodeView, CheckErrorKind>(CheckErrorKind::MissingIf),
{
}

/// Whether the chain of an `if` is open: whether the last `if` of the chain has no
/// `else` yet. A node that is no `if` has no chain.
pub open spec fn open_chain(node: NodeView) -> bool
    decreases node,
{
    match node {
        NodeView::If { cond, body, els } => match els {
            None => true,
            Some(e) => open_chain(*e),
        },
        _ => false,
    }
}

/// What is attached to an open chain is not lost: an `if` without an `else` becomes the
/// last `if` of a chain that is still open, and anything else closes the chain.
pub proof fn lemma_attached_stays(node: NodeView, new_else: NodeView)
    requires
        open_chain(node),
    ensures
        insert_else(node, new_else) is If,
        insert_else(node, new_else) != node,
        open_chain(insert_else(node, new_else)) == open_chain(new_else),
    decreases node,
{
    match node {
        NodeView::If { cond, body, els } => {
            match els {
                Some(e) => {
                    lemma_attached_stays(*e, new_else);
                },
                None => {},
            }
        },
        _ => {},
    }
}

/// An `else if` or `else` that follows a statement which starts no chain is rejected:
/// one that follows an `if` that has an `else`, as one that follows any other statement.
pub proof fn lemma_closed_chain_rejected(before: NodeView, x: NodeView)
    requires
        x is ElseIf || x is Else,
        !starts_chain(before),
    ensures
        folded(seq![before, x]) == Err::<Seq<NodeView>, CheckErrorKind>(
            CheckErrorKind::MissingIf,
        ),
{
    reveal_with_fuel(fold_ifs, 3);
}

/// An `else if` that follows an `if` without an `else` becomes the `else` of that `if`,
/// as an `if` of its own, and the body of an `else` becomes the `else` itself.
pub proof fn lemma_open_chain_takes(cond: NodeView, body: NodeView, x: NodeView)
    requires
        x is ElseIf || x is Else,
    ensures
        ({
            let head = NodeView::If { cond: Box::new(cond), body: Box::new(body), els: None };
            let link = NodeView::If { cond: x->ElseIf_cond, body: x->ElseIf_body, els: None };
            &&& x is ElseIf ==> folded(seq![head, x]) == Ok::<Seq<NodeView>, CheckErrorKind>(
                seq![
                    NodeView::If {
                        cond: Box::new(cond),
                        body: Box::new(body),
                        els: Some(Box::new(link)),
                    },
                ],
            )
            &&& x is Else ==> folded(seq![head, x]) == Ok::<Seq<NodeView>, CheckErrorKind>(
                seq![
                    NodeView::If {
                        cond: Box::new(cond),
                        body: Box::new(body),
                        els: Some(x->Else_body),
                    },
                ],
            )
        }),
{
    reveal_with_fuel(fold_ifs, 3);
    let head = NodeView::If { cond: Box::new(cond), body: Box::new(body), els: None };
    let first = Seq::<NodeView>::empty().push(head);
    assert(first.drop_last() =~= Seq::<NodeView>::empty());
    if x is ElseIf {
        let link = NodeView::If { cond: x->ElseIf_cond, body: x->ElseIf_body, els: None };
        assert(first.drop_last().push(insert_else(first.last(), link)) =~= seq![
            insert_else(head, link),
        ]);
    } else {
        assert(first.drop_last().push(insert_else(first.last(), *x->Else_body)) =~= seq![
            insert_else(head, *x->Else_body),
        ]);
    }
}

} // verus!
