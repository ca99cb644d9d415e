use vstd::prelude::*;
use crate::ast::NodeView;
use crate::ast::PlaceView;
use crate::semck::fixed::all_settled;
use crate::semck::fixed::all_settled_places;
use crate::semck::fixed::attached;
use crate::semck::fixed::lemma_fold_attached;
use crate::semck::fixed::lemma_fold_settled;
use crate::semck::fixed::lemma_keeps_kind;
use crate::semck::fixed::lemma_place_matters_not;
use crate::semck::fixed::lemma_rewrite_all_elements;
use crate::semck::fixed::lemma_rewrite_all_settled;
use crate::semck::fixed::lemma_rewrite_places_elements;
use crate::semck::fixed::lemma_rewrite_places_settled;
use crate::semck::fixed::settled;
use crate::semck::fixed::settled_place;
use crate::semck::folded;
use crate::semck::places_ok;
use crate::semck::rewrite;
use crate::semck::rewrite_at;
use crate::semck::rewrite_all;
use crate::semck::rewrite_place;
use crate::semck::rewrite_places;

verus! {

/// Every node of a rewritten list is settled, and the list is rewritten to itself.
pub proof fn lemma_list_twice(ns: Seq<NodeView>, in_loop: bool, stmt: bool)
    requires
        rewrite_all(ns, 0, in_loop, stmt) is Ok,
    ensures
        all_settled(rewrite_all(ns, 0, in_loop, stmt)->Ok_0, in_loop, stmt),
        rewrite_all(rewrite_all(ns, 0, in_loop, stmt)->Ok_0, 0, in_loop, stmt) == rewrite_all(
            ns,
            0,
            in_loop,
            stmt,
        ),
    decreases ns, 1nat,
{
    let rs = rewrite_all(ns, 0, in_loop, stmt)->Ok_0;
    lemma_rewrite_all_elements(ns, 0, in_loop, stmt);
    assert forall|k: int| 0 <= k < rs.len() implies settled(#[trigger] rs[k], in_loop, stmt) by {
        assert(ns[0 + k] == ns[k]);
        lemma_twice_at(ns[k], in_loop, stmt);
    }
    lemma_rewrite_all_settled(rs, 0, in_loop, stmt);
    assert(rs.skip(0) =~= rs);
}

/// Every target of a rewritten list is settled and can be assigned to if it could be.
pub proof fn lemma_places_twice(ps: Seq<PlaceView>, in_loop: bool)
    requires
        rewrite_places(ps, 0, in_loop) is Ok,
    ensures
        all_settled_places(rewrite_places(ps, 0, in_loop)->Ok_0, in_loop),
        rewrite_places(rewrite_places(ps, 0, in_loop)->Ok_0, 0, in_loop) == rewrite_places(
            ps,
            0,
            in_loop,
        ),
        rewrite_places(ps, 0, in_loop)->Ok_0.len() == ps.len(),
        forall|k: int|
            0 <= k < ps.len() && places_ok(ps[k]) ==> places_ok(
                #[trigger] rewrite_places(ps, 0, in_loop)->Ok_0[k],
            ),
    decreases ps, 1nat,
{
    let rs = rewrite_places(ps, 0, in_loop)->Ok_0;
    lemma_rewrite_places_elements(ps, 0, in_loop);
    assert forall|k: int| 0 <= k < rs.len() implies settled_place(#[trigger] rs[k], in_loop) && (
    places_ok(ps[k]) ==> places_ok(rs[k])) by {
        assert(ps[0 + k] == ps[k]);
        lemma_place_twice(ps[k], in_loop);
    }
    lemma_rewrite_places_settled(rs, 0, in_loop);
    assert(rs.skip(0) =~= rs);
}

/// A rewritten target is settled, and can be assigned to if it could be before.
pub proof fn lemma_place_twice(p: PlaceView, in_loop: bool)
    requires
        rewrite_place(p, in_loop) is Ok,
    ensures
        settled_place(rewrite_place(p, in_loop)->Ok_0, in_loop),
        places_ok(p) ==> places_ok(rewrite_place(p, in_loop)->Ok_0),
    decreases p, 0nat,
{
    match p {
        PlaceView::Single(node) => {
            lemma_twice_at(*node, in_loop, false);
            lemma_keeps_kind(*node, in_loop, false);
        },
        PlaceView::Multi(places) => {
            lemma_places_twice(places, in_loop);
            let rs = rewrite_places(places, 0, in_loop)->Ok_0;
            if places_ok(p) {
                assert forall|k: int| 0 <= k < rs.len() implies places_ok(#[trigger] rs[k]) by {
                    assert(places_ok(places[k]));
                }
            }
        },
    }
}

/// A rewritten block is settled.
proof fn lemma_block_twice(stmts: Seq<NodeView>, in_loop: bool, stmt: bool)
    requires
        rewrite_at(NodeView::Block(stmts), in_loop, stmt) is Ok,
    ensures
        settled(rewrite_at(NodeView::Block(stmts), in_loop, stmt)->Ok_0, in_loop, stmt),
    decreases stmts, 2nat,
{
    let rs = rewrite_all(stmts, 0, in_loop, true)->Ok_0;
    let out = folded(rs)->Ok_0;
    lemma_list_twice(stmts, in_loop, true);
    assert(attached(Seq::<NodeView>::empty()));
    assert(all_settled(Seq::<NodeView>::empty(), in_loop, false));
    lemma_fold_settled(rs, 0, seq![], false, in_loop);
    lemma_fold_attached(out, 0, seq![], false);
    assert(Seq::<NodeView>::empty() + out.skip(0) =~= out);
    assert forall|k: int| 0 <= k < out.len() implies settled(#[trigger] out[k], in_loop, true) by {
        assert(settled(out[k], in_loop, false));
        lemma_place_matters_not(out[k], in_loop);
    }
    lemma_rewrite_all_settled(out, 0, in_loop, true);
    assert(out.skip(0) =~= out);
}

/// What the rewriter gives, it leaves as it is, wherever the node stands.
pub proof fn lemma_twice_at(n: NodeView, in_loop: bool, stmt: bool)
    requires
        rewrite_at(n, in_loop, stmt) is Ok,
    ensures
        settled(rewrite_at(n, in_loop, stmt)->Ok_0, in_loop, stmt),
    decreases n, 3nat,
{
    match n {
        NodeView::Expr(x) => {
            lemma_twice_at(*x, in_loop, false);
        },
        NodeView::Block(stmts) => {
            lemma_block_twice(stmts, in_loop, stmt);
        },
        NodeView::Return(val) => {
            match val {
                Some(x) => {
                    lemma_twice_at(*x, in_loop, false);
                },
                None => {},
            }
        },
        NodeView::Assn { lhs, rhs } => {
            lemma_place_twice(lhs, in_loop);
            lemma_twice_at(*rhs, in_loop, false);
        },
        NodeView::Catch { body } => {
            lemma_twice_at(*body, in_loop, false);
        },
        NodeView::If { cond, body, els } => {
            lemma_twice_at(*cond, in_loop, false);
            lemma_twice_at(*body, in_loop, false);
            match els {
                Some(x) => {
                    lemma_twice_at(*x, in_loop, false);
                },
                None => {},
            }
        },
        NodeView::ElseIf { cond, body } => {
            lemma_twice_at(*cond, in_loop, false);
            lemma_twice_at(*body, in_loop, false);
        },
        NodeView::Else { body } => {
            lemma_twice_at(*body, in_loop, false);
        },
        NodeView::For { decl, expr, body } => {
            lemma_twice_at(*expr, in_loop, false);
            lemma_twice_at(*body, true, false);
        },
        NodeView::While { expr, body } => {
            lemma_twice_at(*expr, in_loop, false);
            lemma_twice_at(*body, true, false);
        },
        NodeView::Loop { body } => {
            lemma_twice_at(*body, true, false);
        },
        NodeView::FuncDef { params, body } => {
            lemma_twice_at(*body, false, false);
        },
        NodeView::Index { lhs, rhs } => {
            lemma_twice_at(*lhs, in_loop, false);
            lemma_twice_at(*rhs, in_loop, false);
        },
        NodeView::MethodCall { owner, method, args } => {
            lemma_twice_at(*owner, in_loop, false);
            lemma_twice_at(*method, in_loop, false);
            lemma_list_twice(args, in_loop, false);
        },
        NodeView::FuncCall { func, args } => {
            lemma_twice_at(*func, in_loop, false);
            lemma_list_twice(args, in_loop, false);
        },
        NodeView::BinExpr { lhs, op, rhs } => {
            lemma_twice_at(*lhs, in_loop, false);
            lemma_twice_at(*rhs, in_loop, false);
        },
        NodeView::CmpExpr { nodes, ops } => {
            lemma_list_twice(nodes, in_loop, false);
        },
        NodeView::LogicExpr { nodes, ops } => {
            lemma_list_twice(nodes, in_loop, false);
        },
        NodeView::UnExpr { val, op } => {
            lemma_twice_at(*val, in_loop, false);
        },
        NodeView::Super(count, x) => {
            lemma_twice_at(*x, in_loop, false);
        },
        _ => {},
    }
}

/// Running the rewriter a second time changes nothing: what it gives, it leaves as
/// it is.
pub proof fn lemma_twice(n: NodeView, in_loop: bool)
    requires
        rewrite(n, in_loop) is Ok,
    ensures
        rewrite(rewrite(n, in_loop)->Ok_0, in_loop) == rewrite(n, in_loop),
{
    lemma_twice_at(n, in_loop, false);
}

} // verus!
