use vstd::prelude::*;
use crate::ast::NodeView;
use crate::ast::PlaceView;
use crate::error::CheckErrorKind;
use crate::semck::fold_ifs;
use crate::semck::folded;
use crate::semck::insert_else;
use crate::semck::starts_chain;
use crate::semck::rewrite;
use crate::semck::rewrite_at;
use crate::semck::rewrite_all;
use crate::semck::rewrite_place;
use crate::semck::rewrite_places;

verus! {

/// Whether one of the nodes from index `i` on holds a stray jump.
pub open spec fn strays(nodes: Seq<NodeView>, i: nat, in_loop: bool) -> bool
    decreases nodes, nodes.len() - i,
{
    i < nodes.len() && (stray(nodes[i as int], in_loop) || strays(nodes, i + 1, in_loop))
}

/// Whether one of the targets from index `i` on holds a stray jump.
pub open spec fn stray_places(places: Seq<PlaceView>, i: nat, in_loop: bool) -> bool
    decreases places, places.len() - i,
{
    i < places.len() && (stray_place(places[i as int], in_loop) || stray_places(
        places,
        i + 1,
        in_loop,
    ))
}

/// Whether an assignment target holds a stray jump.
pub open spec fn stray_place(place: PlaceView, in_loop: bool) -> bool
    decreases place, 0nat,
{
    match place {
        PlaceView::Single(node) => stray(*node, in_loop),
        PlaceView::Multi(places) => stray_places(places, 0, in_loop),
    }
}

/// Whether the tree holds a stray jump: a `break` or `continue` that stands in the body
/// of no loop. The body of a function stands in no loop, wherever the function does.
pub open spec fn stray(n: NodeView, in_loop: bool) -> bool
    decreases n, 0nat,
{
    match n {
        NodeView::Break => !in_loop,
        NodeView::Continue => !in_loop,
        NodeView::Expr(x) => stray(*x, in_loop),
        NodeView::Block(stmts) => strays(stmts, 0, in_loop),
        NodeView::Return(val) => match val {
            Some(x) => stray(*x, in_loop),
            None => false,
        },
        NodeView::Assn { lhs, rhs } => stray_place(lhs, in_loop) || stray(*rhs, in_loop),
        NodeView::Catch { body } => stray(*body, in_loop),
        NodeView::If { cond, body, els } => stray(*cond, in_loop) || stray(*body, in_loop)
            || match els {
            Some(x) => stray(*x, in_loop),
            None => false,
        },
        NodeView::ElseIf { cond, body } => stray(*cond, in_loop) || stray(*body, in_loop),
        NodeView::Else { body } => stray(*body, in_loop),
        NodeView::For { decl, expr, body } => stray(*expr, in_loop) || stray(*body, true),
        NodeView::While { expr, body } => stray(*expr, in_loop) || stray(*body, true),
        NodeView::Loop { body } => stray(*body, true),
        NodeView::FuncDef { params, body } => stray(*body, false),
        NodeView::Index { lhs, rhs } => stray(*lhs, in_loop) || stray(*rhs, in_loop),
        NodeView::MethodCall { owner, method, args } => stray(*owner, in_loop) || stray(
            *method,
            in_loop,
        ) || strays(args, 0, in_loop),
        NodeView::FuncCall { func, args } => stray(*func, in_loop) || strays(args, 0, in_loop),
        NodeView::BinExpr { lhs, op, rhs } => stray(*lhs, in_loop) || stray(*rhs, in_loop),
        NodeView::CmpExpr { nodes, ops } => strays(nodes, 0, in_loop),
        NodeView::LogicExpr { nodes, ops } => strays(nodes, 0, in_loop),
        NodeView::UnExpr { val, op } => stray(*val, in_loop),
        NodeView::Super(count, x) => stray(*x, in_loop),
        _ => false,
    }
}

/// A list with a stray jump is rejected.
pub proof fn lemma_strays_rejected(nodes: Seq<NodeView>, i: nat, in_loop: bool, stmt: bool)
    requires
        strays(nodes, i, in_loop),
    ensures
        rewrite_all(nodes, i, in_loop, stmt) is Err,
    decreases nodes, nodes.len() - i,
{
    if stray(nodes[i as int], in_loop) {
        lemma_stray_rejected_at(nodes[i as int], in_loop, stmt);
    } else {
        lemma_strays_rejected(nodes, i + 1, in_loop, stmt);
    }
}

/// A list of targets with a stray jump is rejected.
pub proof fn lemma_stray_places_rejected(places: Seq<PlaceView>, i: nat, in_loop: bool)
    requires
        stray_places(places, i, in_loop),
    ensures
        rewrite_places(places, i, in_loop) is Err,
    decreases places, places.len() - i,
{
    if stray_place(places[i as int], in_loop) {
        lemma_stray_place_rejected(places[i as int], in_loop);
    } else {
        lemma_stray_places_rejected(places, i + 1, in_loop);
    }
}

/// A target with a stray jump is rejected.
pub proof fn lemma_stray_place_rejected(place: PlaceView, in_loop: bool)
    requires
        stray_place(place, in_loop),
    ensures
        rewrite_place(place, in_loop) is Err,
    decreases place, 0nat,
{
    match place {
        PlaceView::Single(node) => {
            lemma_stray_rejected_at(*node, in_loop, false);
        },
        PlaceView::Multi(places) => {
            lemma_stray_places_rejected(places, 0, in_loop);
        },
    }
}

/// A tree with a stray jump is rejected, wherever it stands.
pub proof fn lemma_stray_rejected_at(n: NodeView, in_loop: bool, stmt: bool)
    requires
        stray(n, in_loop),
    ensures
        rewrite_at(n, in_loop, stmt) is Err,
    decreases n, 0nat,
{
    match n {
        NodeView::Expr(x) => {
            lemma_stray_rejected_at(*x, in_loop, false);
        },
        NodeView::Block(stmts) => {
            lemma_strays_rejected(stmts, 0, in_loop, true);
        },
        NodeView::Return(val) => {
            lemma_stray_rejected_at(*val->Some_0, in_loop, false);
        },
        NodeView::Assn { lhs, rhs } => {
            if stray_place(lhs, in_loop) {
                lemma_stray_place_rejected(lhs, in_loop);
            } else {
                lemma_stray_rejected_at(*rhs, in_loop, false);
            }
        },
        NodeView::Catch { body } => {
            lemma_stray_rejected_at(*body, in_loop, false);
        },
        NodeView::If { cond, body, els } => {
            if stray(*cond, in_loop) {
                lemma_stray_rejected_at(*cond, in_loop, false);
            } else if stray(*body, in_loop) {
                lemma_stray_rejected_at(*body, in_loop, false);
            } else {
                lemma_stray_rejected_at(*els->Some_0, in_loop, false);
            }
        },
        NodeView::ElseIf { cond, body } => {
            if stray(*cond, in_loop) {
                lemma_stray_rejected_at(*cond, in_loop, false);
            } else {
                lemma_stray_rejected_at(*body, in_loop, false);
            }
        },
        NodeView::Else { body } => {
            lemma_stray_rejected_at(*body, in_loop, false);
        },
        NodeView::For { decl, expr, body } => {
            if stray(*expr, in_loop) {
                lemma_stray_rejected_at(*expr, in_loop, false);
            } else {
                lemma_stray_rejected_at(*body, true, false);
            }
        },
        NodeView::While { expr, body } => {
            if stray(*expr, in_loop) {
                lemma_stray_rejected_at(*expr, in_loop, false);
            } else {
                lemma_stray_rejected_at(*body, true, false);
            }
        },
        NodeView::Loop { body } => {
            lemma_stray_rejected_at(*body, true, false);
        },
        NodeView::FuncDef { params, body } => {
            lemma_stray_rejected_at(*body, false, false);
        },
        NodeView::Index { lhs, rhs } => {
            if stray(*lhs, in_loop) {
                lemma_stray_rejected_at(*lhs, in_loop, false);
            } else {
                lemma_stray_rejected_at(*rhs, in_loop, false);
            }
        },
        NodeView::MethodCall { owner, method, args } => {
            if stray(*owner, in_loop) {
                lemma_stray_rejected_at(*owner, in_loop, false);
            } else if stray(*method, in_loop) {
                lemma_stray_rejected_at(*method, in_loop, false);
            } else {
                lemma_strays_rejected(args, 0, in_loop, false);
            }
        },
        NodeView::FuncCall { func, args } => {
            if stray(*func, in_loop) {
                lemma_stray_rejected_at(*func, in_loop, false);
            } else {
                lemma_strays_rejected(args, 0, in_loop, false);
            }
        },
        NodeView::BinExpr { lhs, op, rhs } => {
            if stray(*lhs, in_loop) {
                lemma_stray_rejected_at(*lhs, in_loop, false);
            } else {
                lemma_stray_rejected_at(*rhs, in_loop, false);
            }
        },
        NodeView::CmpExpr { nodes, ops } => {
            lemma_strays_rejected(nodes, 0, in_loop, false);
        },
        NodeView::LogicExpr { nodes, ops } => {
            lemma_strays_rejected(nodes, 0, in_loop, false);
        },
        NodeView::UnExpr { val, op } => {
            lemma_stray_rejected_at(*val, in_loop, false);
        },
        NodeView::Super(count, x) => {
            lemma_stray_rejected_at(*x, in_loop, false);
        },
        _ => {},
    }
}

/// The rewriter rejects every tree with a `break` or `continue` outside a loop, also
/// where the jump stands in a function's body and the function in a loop.
pub proof fn lemma_stray_rejected(n: NodeView, in_loop: bool)
    requires
        stray(n, in_loop),
    ensures
        rewrite(n, in_loop) is Err,
{
    lemma_stray_rejected_at(n, in_loop, false);
}

/// The error of a stray jump, as the result of a node.
pub open spec fn not_in_loop() -> Result<NodeView, CheckErrorKind> {
    Err(CheckErrorKind::NotInLoop)
}

/// The error of a stray jump, as the result of a list.
pub open spec fn not_in_loop_list() -> Result<Seq<NodeView>, CheckErrorKind> {
    Err(CheckErrorKind::NotInLoop)
}

/// The error of a stray jump, as the result of a target.
pub open spec fn not_in_loop_place() -> Result<PlaceView, CheckErrorKind> {
    Err(CheckErrorKind::NotInLoop)
}

/// The error of a stray jump, as the result of a list of targets.
pub open spec fn not_in_loop_place_list() -> Result<Seq<PlaceView>, CheckErrorKind> {
    Err(CheckErrorKind::NotInLoop)
}

/// Whether the statements of a block can be folded as they stand.
pub open spec fn folded_ok(stmts: Seq<NodeView>) -> bool {
    folded(stmts) is Ok
}

/// The fold of a block fails with no error but that of an `else` without an `if`.
pub proof fn lemma_fold_error(xs: Seq<NodeView>, i: nat, out: Seq<NodeView>, live: bool)
    ensures
        fold_ifs(xs, i, out, live) is Err ==> fold_ifs(xs, i, out, live)->Err_0
            == CheckErrorKind::MissingIf,
    decreases xs.len() - i,
{
    if i < xs.len() {
        let x = xs[i as int];
        match x {
            NodeView::If { .. } => {
                lemma_fold_error(xs, i + 1, out.push(x), starts_chain(x));
            },
            NodeView::ElseIf { cond, body } => {
                if live && out.len() > 0 {
                    lemma_fold_error(
                        xs,
                        i + 1,
                        out.drop_last().push(
                            insert_else(
                                out.last(),
                                NodeView::If { cond, body, els: None },
                            ),
                        ),
                        true,
                    );
                }
            },
            NodeView::Else { body } => {
                if live && out.len() > 0 {
                    lemma_fold_error(
                        xs,
                        i + 1,
                        out.drop_last().push(insert_else(out.last(), *body)),
                        false,
                    );
                }
            },
            _ => {
                lemma_fold_error(xs, i + 1, out.push(x), false);
            },
        }
    }
}

/// A list that is rejected for a stray jump holds one.
pub proof fn lemma_jump_found_among(nodes: Seq<NodeView>, i: nat, in_loop: bool, stmt: bool)
    requires
        rewrite_all(nodes, i, in_loop, stmt) == not_in_loop_list(),
    ensures
        strays(nodes, i, in_loop),
    decreases nodes, nodes.len() - i,
{
    if rewrite_at(nodes[i as int], in_loop, stmt) == not_in_loop() {
        lemma_jump_found_at(nodes[i as int], in_loop, stmt);
    } else {
        lemma_jump_found_among(nodes, i + 1, in_loop, stmt);
    }
}

/// A list of targets that is rejected for a stray jump holds one.
pub proof fn lemma_jump_found_in_places(places: Seq<PlaceView>, i: nat, in_loop: bool)
    requires
        rewrite_places(places, i, in_loop) == not_in_loop_place_list(),
    ensures
        stray_places(places, i, in_loop),
    decreases places, places.len() - i,
{
    if rewrite_place(places[i as int], in_loop) == not_in_loop_place() {
        lemma_jump_found_in_place(places[i as int], in_loop);
    } else {
        lemma_jump_found_in_places(places, i + 1, in_loop);
    }
}

/// A target that is rejected for a stray jump holds one.
pub proof fn lemma_jump_found_in_place(place: PlaceView, in_loop: bool)
    requires
        rewrite_place(place, in_loop) == not_in_loop_place(),
    ensures
        stray_place(place, in_loop),
    decreases place, 0nat,
{
    match place {
        PlaceView::Single(node) => {
            lemma_jump_found_at(*node, in_loop, false);
        },
        PlaceView::Multi(places) => {
            lemma_jump_found_in_places(places, 0, in_loop);
        },
    }
}

/// A tree that is rejected for a stray jump holds one, wherever it stands.
pub proof fn lemma_jump_found_at(n: NodeView, in_loop: bool, stmt: bool)
    requires
        rewrite_at(n, in_loop, stmt) == not_in_loop(),
    ensures
        stray(n, in_loop),
    decreases n, 0nat,
{
    match n {
        NodeView::Expr(x) => {
            if rewrite_at(*x, in_loop, false) == not_in_loop() {
                lemma_jump_found_at(*x, in_loop, false);
            }
        },
        NodeView::Block(stmts) => {
            if folded_ok(stmts) {
                lemma_fold_error(rewrite_all(stmts, 0, in_loop, true)->Ok_0, 0, seq![], false);
            }
            if rewrite_all(stmts, 0, in_loop, true) == not_in_loop_list() {
                lemma_jump_found_among(stmts, 0, in_loop, true);
            }
        },
        NodeView::Return(val) => {
            if val is Some {
                lemma_jump_found_at(*val->Some_0, in_loop, false);
            }
        },
        NodeView::Assn { lhs, rhs } => {
            if rewrite_place(lhs, in_loop) == not_in_loop_place() {
                lemma_jump_found_in_place(lhs, in_loop);
            }
            if rewrite_at(*rhs, in_loop, false) == not_in_loop() {
                lemma_jump_found_at(*rhs, in_loop, false);
            }
        },
        NodeView::Catch { body } => {
            if rewrite_at(*body, in_loop, false) == not_in_loop() {
                lemma_jump_found_at(*body, in_loop, false);
            }
        },
        NodeView::If { cond, body, els } => {
            if rewrite_at(*cond, in_loop, false) == not_in_loop() {
                lemma_jump_found_at(*cond, in_loop, false);
            }
            if rewrite_at(*body, in_loop, false) == not_in_loop() {
                lemma_jump_found_at(*body, in_loop, false);
            }
            if els is Some && rewrite_at(*els->Some_0, in_loop, false) == not_in_loop() {
                lemma_jump_found_at(*els->Some_0, in_loop, false);
            }
        },
        NodeView::ElseIf { cond, body } => {
            if rewrite_at(*cond, in_loop, false) == not_in_loop() {
                lemma_jump_found_at(*cond, in_loop, false);
            }
            if rewrite_at(*body, in_loop, false) == not_in_loop() {
                lemma_jump_found_at(*body, in_loop, false);
            }
        },
        NodeView::Else { body } => {
            if rewrite_at(*body, in_loop, false) == not_in_loop() {
                lemma_jump_found_at(*body, in_loop, false);
            }
        },
        NodeView::For { decl, expr, body } => {
            if rewrite_at(*expr, in_loop, false) == not_in_loop() {
                lemma_jump_found_at(*expr, in_loop, false);
            }
            if rewrite_at(*body, true, false) == not_in_loop() {
                lemma_jump_found_at(*body, true, false);
            }
        },
        NodeView::While { expr, body } => {
            if rewrite_at(*expr, in_loop, false) == not_in_loop() {
                lemma_jump_found_at(*expr, in_loop, false);
            }
            if rewrite_at(*body, true, false) == not_in_loop() {
                lemma_jump_found_at(*body, true, false);
            }
        },
        NodeView::Loop { body } => {
            if rewrite_at(*body, true, false) == not_in_loop() {
                lemma_jump_found_at(*body, true, false);
            }
        },
        NodeView::FuncDef { params, body } => {
            if rewrite_at(*body, false, false) == not_in_loop() {
                lemma_jump_found_at(*body, false, false);
            }
        },
        NodeView::Index { lhs, rhs } => {
            if rewrite_at(*lhs, in_loop, false) == not_in_loop() {
                lemma_jump_found_at(*lhs, in_loop, false);
            }
            if rewrite_at(*rhs, in_loop, false) == not_in_loop() {
                lemma_jump_found_at(*rhs, in_loop, false);
            }
        },
        NodeView::MethodCall { owner, method, args } => {
            if rewrite_at(*owner, in_loop, false) == not_in_loop() {
                lemma_jump_found_at(*owner, in_loop, false);
            }
            if rewrite_at(*method, in_loop, false) == not_in_loop() {
                lemma_jump_found_at(*method, in_loop, false);
            }
            if rewrite_all(args, 0, in_loop, false) == not_in_loop_list() {
                lemma_jump_found_among(args, 0, in_loop, false);
            }
        },
        NodeView::FuncCall { func, args } => {
            if rewrite_at(*func, in_loop, false) == not_in_loop() {
                lemma_jump_found_at(*func, in_loop, false);
            }
            if rewrite_all(args, 0, in_loop, false) == not_in_loop_list() {
                lemma_jump_found_among(args, 0, in_loop, false);
            }
        },
        NodeView::BinExpr { lhs, op, rhs } => {
            if rewrite_at(*lhs, in_loop, false) == not_in_loop() {
                lemma_jump_found_at(*lhs, in_loop, false);
            }
            if rewrite_at(*rhs, in_loop, false) == not_in_loop() {
                lemma_jump_found_at(*rhs, in_loop, false);
            }
        },
        NodeView::CmpExpr { nodes, ops } => {
            if rewrite_all(nodes, 0, in_loop, false) == not_in_loop_list() {
                lemma_jump_found_among(nodes, 0, in_loop, false);
            }
        },
        NodeView::LogicExpr { nodes, ops } => {
            if rewrite_all(nodes, 0, in_loop, false) == not_in_loop_list() {
                lemma_jump_found_among(nodes, 0, in_loop, false);
            }
        },
        NodeView::UnExpr { val, op } => {
            if rewrite_at(*val, in_loop, false) == not_in_loop() {
                lemma_jump_found_at(*val, in_loop, false);
            }
        },
        NodeView::Super(count, x) => {
            if rewrite_at(*x, in_loop, false) == not_in_loop() {
                lemma_jump_found_at(*x, in_loop, false);
            }
        },
        _ => {},
    }
}

/// The error `NotInLoop` is given for nothing but a stray jump: a tree that is rejected
/// with it holds a `break` or `continue` outside a loop.
pub proof fn lemma_jump_found(n: NodeView, in_loop: bool)
    requires
        rewrite(n, in_loop) == not_in_loop(),
    ensures
        stray(n, in_loop),
{
    lemma_jump_found_at(n, in_loop, false);
}

} // verus!
