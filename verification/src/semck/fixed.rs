use vstd::prelude::*;
use crate::ast::NodeView;
use crate::ast::PlaceView;
use crate::error::CheckErrorKind;
use crate::semck::fold_ifs;
use crate::semck::insert_else;
use crate::semck::is_place;
use crate::semck::starts_chain;
use crate::semck::rewrite_at;
use crate::semck::rewrite_all;
use crate::semck::rewrite_place;
use crate::semck::rewrite_places;

verus! {

/// Whether the rewriter leaves a tree as it is; `stmt` says whether the tree stands as
/// a statement of a block.
pub open spec fn settled(n: NodeView, in_loop: bool, stmt: bool) -> bool {
    rewrite_at(n, in_loop, stmt) == Ok::<NodeView, CheckErrorKind>(n)
}

/// Whether the rewriter leaves an assignment target as it is.
pub open spec fn settled_place(p: PlaceView, in_loop: bool) -> bool {
    rewrite_place(p, in_loop) == Ok::<PlaceView, CheckErrorKind>(p)
}

/// Whether the rewriter leaves every node of a list as it is.
pub open spec fn all_settled(xs: Seq<NodeView>, in_loop: bool, stmt: bool) -> bool {
    forall|k: int| 0 <= k < xs.len() ==> settled(#[trigger] xs[k], in_loop, stmt)
}

/// Whether the rewriter leaves every target of a list as it is.
pub open spec fn all_settled_places(xs: Seq<PlaceView>, in_loop: bool) -> bool {
    forall|k: int| 0 <= k < xs.len() ==> settled_place(#[trigger] xs[k], in_loop)
}

/// Whether a list holds no `else` and no `else if`.
pub open spec fn attached(xs: Seq<NodeView>) -> bool {
    forall|k: int| 0 <= k < xs.len() ==> !(#[trigger] xs[k] is ElseIf) && !(xs[k] is Else)
}

/// The rewriter gives a node of the kind that it was given.
pub proof fn lemma_keeps_kind(n: NodeView, in_loop: bool, stmt: bool)
    requires
        rewrite_at(n, in_loop, stmt) is Ok,
    ensures
        rewrite_at(n, in_loop, stmt)->Ok_0 is If == n is If,
        rewrite_at(n, in_loop, stmt)->Ok_0 is ElseIf == n is ElseIf,
        rewrite_at(n, in_loop, stmt)->Ok_0 is Else == n is Else,
        is_place(rewrite_at(n, in_loop, stmt)->Ok_0) == is_place(n),
{
    match n {
        NodeView::Expr(_) => {},
        NodeView::Block(_) => {},
        NodeView::Return(_) => {},
        NodeView::Break => {},
        NodeView::Continue => {},
        NodeView::Pass => {},
        NodeView::Assn { .. } => {},
        NodeView::Catch { .. } => {},
        NodeView::If { .. } => {},
        NodeView::ElseIf { .. } => {},
        NodeView::Else { .. } => {},
        NodeView::For { .. } => {},
        NodeView::While { .. } => {},
        NodeView::Loop { .. } => {},
        NodeView::FuncDef { .. } => {},
        NodeView::Index { .. } => {},
        NodeView::MethodCall { .. } => {},
        NodeView::FuncCall { .. } => {},
        NodeView::BinExpr { .. } => {},
        NodeView::CmpExpr { .. } => {},
        NodeView::LogicExpr { .. } => {},
        NodeView::UnExpr { .. } => {},
        NodeView::Super(_, _) => {},
        _ => {},
    }
}

/// Where a node stands matters only to an `else if` and an `else`.
pub proof fn lemma_place_matters_not(n: NodeView, in_loop: bool)
    requires
        !(n is ElseIf),
        !(n is Else),
    ensures
        rewrite_at(n, in_loop, true) == rewrite_at(n, in_loop, false),
{
    match n {
        NodeView::Expr(_) => {},
        NodeView::Block(_) => {},
        NodeView::Return(_) => {},
        NodeView::Break => {},
        NodeView::Continue => {},
        NodeView::Pass => {},
        NodeView::Assn { .. } => {},
        NodeView::Catch { .. } => {},
        NodeView::If { .. } => {},
        NodeView::ElseIf { .. } => {},
        NodeView::Else { .. } => {},
        NodeView::For { .. } => {},
        NodeView::While { .. } => {},
        NodeView::Loop { .. } => {},
        NodeView::FuncDef { .. } => {},
        NodeView::Index { .. } => {},
        NodeView::MethodCall { .. } => {},
        NodeView::FuncCall { .. } => {},
        NodeView::BinExpr { .. } => {},
        NodeView::CmpExpr { .. } => {},
        NodeView::LogicExpr { .. } => {},
        NodeView::UnExpr { .. } => {},
        NodeView::Super(_, _) => {},
        _ => {},
    }
}

/// What a rewritten list holds: each node of the list, rewritten.
pub proof fn lemma_rewrite_all_elements(ns: Seq<NodeView>, i: nat, in_loop: bool, stmt: bool)
    requires
        i <= ns.len(),
        rewrite_all(ns, i, in_loop, stmt) is Ok,
    ensures
        rewrite_all(ns, i, in_loop, stmt)->Ok_0.len() == ns.len() - i,
        forall|k: int|
            0 <= k < ns.len() - i ==> rewrite_at(#[trigger] ns[i + k], in_loop, stmt) == Ok::<
                NodeView,
                CheckErrorKind,
            >(rewrite_all(ns, i, in_loop, stmt)->Ok_0[k]),
    decreases ns.len() - i,
{
    if i < ns.len() {
        lemma_rewrite_all_elements(ns, i + 1, in_loop, stmt);
        let head = rewrite_at(ns[i as int], in_loop, stmt)->Ok_0;
        let tail = rewrite_all(ns, i + 1, in_loop, stmt)->Ok_0;
        let whole = rewrite_all(ns, i, in_loop, stmt)->Ok_0;
        assert(whole == seq![head] + tail);
        assert forall|k: int| 0 <= k < ns.len() - i implies rewrite_at(
            #[trigger] ns[i + k],
            in_loop,
            stmt,
        ) == Ok::<NodeView, CheckErrorKind>(whole[k]) by {
            if k > 0 {
                assert(ns[i + 1 + (k - 1)] == ns[i + k]);
                assert(whole[k] == tail[k - 1]);
            }
        }
    }
}

/// What a rewritten list of targets holds: each target of the list, rewritten.
pub proof fn lemma_rewrite_places_elements(ps: Seq<PlaceView>, i: nat, in_loop: bool)
    requires
        i <= ps.len(),
        rewrite_places(ps, i, in_loop) is Ok,
    ensures
        rewrite_places(ps, i, in_loop)->Ok_0.len() == ps.len() - i,
        forall|k: int|
            0 <= k < ps.len() - i ==> rewrite_place(#[trigger] ps[i + k], in_loop) == Ok::<
                PlaceView,
                CheckErrorKind,
            >(rewrite_places(ps, i, in_loop)->Ok_0[k]),
    decreases ps.len() - i,
{
    if i < ps.len() {
        lemma_rewrite_places_elements(ps, i + 1, in_loop);
        let head = rewrite_place(ps[i as int], in_loop)->Ok_0;
        let tail = rewrite_places(ps, i + 1, in_loop)->Ok_0;
        let whole = rewrite_places(ps, i, in_loop)->Ok_0;
        assert(whole == seq![head] + tail);
        assert forall|k: int| 0 <= k < ps.len() - i implies rewrite_place(
            #[trigger] ps[i + k],
            in_loop,
        ) == Ok::<PlaceView, CheckErrorKind>(whole[k]) by {
            if k > 0 {
                assert(ps[i + 1 + (k - 1)] == ps[i + k]);
                assert(whole[k] == tail[k - 1]);
            }
        }
    }
}

/// A list of settled nodes is rewritten to itself.
pub proof fn lemma_rewrite_all_settled(xs: Seq<NodeView>, i: nat, in_loop: bool, stmt: bool)
    requires
        i <= xs.len(),
        all_settled(xs, in_loop, stmt),
    ensures
        rewrite_all(xs, i, in_loop, stmt) == Ok::<Seq<NodeView>, CheckErrorKind>(xs.skip(i as int)),
    decreases xs.len() - i,
{
    if i < xs.len() {
        lemma_rewrite_all_settled(xs, i + 1, in_loop, stmt);
        assert(settled(xs[i as int], in_loop, stmt));
        assert(seq![xs[i as int]] + xs.skip(i as int + 1) =~= xs.skip(i as int));
    } else {
        assert(xs.skip(i as int) =~= seq![]);
    }
}

/// A list of settled targets is rewritten to itself.
pub proof fn lemma_rewrite_places_settled(xs: Seq<PlaceView>, i: nat, in_loop: bool)
    requires
        i <= xs.len(),
        all_settled_places(xs, in_loop),
    ensures
        rewrite_places(xs, i, in_loop) == Ok::<Seq<PlaceView>, CheckErrorKind>(
            xs.skip(i as int),
        ),
    decreases xs.len() - i,
{
    if i < xs.len() {
        lemma_rewrite_places_settled(xs, i + 1, in_loop);
        assert(settled_place(xs[i as int], in_loop));
        assert(seq![xs[i as int]] + xs.skip(i as int + 1) =~= xs.skip(i as int));
    } else {
        assert(xs.skip(i as int) =~= seq![]);
    }
}

/// Folding a list without `else` and `else if` changes nothing.
pub proof fn lemma_fold_attached(xs: Seq<NodeView>, i: nat, out: Seq<NodeView>, live: bool)
    requires
        i <= xs.len(),
        attached(xs),
    ensures
        fold_ifs(xs, i, out, live) == Ok::<Seq<NodeView>, CheckErrorKind>(out + xs.skip(i as int)),
    decreases xs.len() - i,
{
    if i < xs.len() {
        let x = xs[i as int];
        assert(!(x is ElseIf) && !(x is Else));
        lemma_fold_attached(xs, i + 1, out.push(x), starts_chain(x));
        lemma_fold_attached(xs, i + 1, out.push(x), false);
        assert(out.push(x) + xs.skip(i as int + 1) =~= out + xs.skip(i as int));
    } else {
        assert(out + xs.skip(i as int) =~= out);
    }
}

/// Attaching a settled node to a settled node gives a settled node of the same kind.
pub proof fn lemma_insert_else_settled(node: NodeView, new_else: NodeView, in_loop: bool)
    requires
        settled(node, in_loop, false),
        settled(new_else, in_loop, false),
    ensures
        settled(insert_else(node, new_else), in_loop, false),
        !(insert_else(node, new_else) is ElseIf),
        !(insert_else(node, new_else) is Else),
    decreases node,
{
    match node {
        NodeView::If { cond, body, els } => {
            match els {
                Some(e) => {
                    lemma_insert_else_settled(*e, new_else, in_loop);
                },
                None => {},
            }
        },
        _ => {},
    }
}

/// Folding settled statements gives settled nodes, none of them an `else` or
/// `else if`.
pub proof fn lemma_fold_settled(
    xs: Seq<NodeView>,
    i: nat,
    out: Seq<NodeView>,
    live: bool,
    in_loop: bool,
)
    requires
        i <= xs.len(),
        all_settled(xs, in_loop, true),
        all_settled(out, in_loop, false),
        attached(out),
        fold_ifs(xs, i, out, live) is Ok,
    ensures
        all_settled(fold_ifs(xs, i, out, live)->Ok_0, in_loop, false),
        attached(fold_ifs(xs, i, out, live)->Ok_0),
    decreases xs.len() - i,
{
    if i < xs.len() {
        let x = xs[i as int];
        assert(settled(x, in_loop, true));
        match x {
            NodeView::ElseIf { cond, body } => {
                let link = NodeView::If { cond, body, els: None };
                assert(settled(link, in_loop, false));
                assert(settled(out.last(), in_loop, false));
                lemma_insert_else_settled(out.last(), link, in_loop);
                let next = out.drop_last().push(insert_else(out.last(), link));
                assert forall|k: int| 0 <= k < next.len() implies settled(
                    #[trigger] next[k],
                    in_loop,
                    false,
                ) && !(next[k] is ElseIf) && !(next[k] is Else) by {
                    if k < out.len() - 1 {
                        assert(next[k] == out[k]);
                    }
                }
                lemma_fold_settled(xs, i + 1, next, true, in_loop);
            },
            NodeView::Else { body } => {
                assert(settled(*body, in_loop, false));
                assert(settled(out.last(), in_loop, false));
                lemma_insert_else_settled(out.last(), *body, in_loop);
                let next = out.drop_last().push(insert_else(out.last(), *body));
                assert forall|k: int| 0 <= k < next.len() implies settled(
                    #[trigger] next[k],
                    in_loop,
                    false,
                ) && !(next[k] is ElseIf) && !(next[k] is Else) by {
                    if k < out.len() - 1 {
                        assert(next[k] == out[k]);
                    }
                }
                lemma_fold_settled(xs, i + 1, next, false, in_loop);
            },
            _ => {
                lemma_place_matters_not(x, in_loop);
                let next = out.push(x);
                assert forall|k: int| 0 <= k < next.len() implies settled(
                    #[trigger] next[k],
                    in_loop,
                    false,
                ) && !(next[k] is ElseIf) && !(next[k] is Else) by {
                    if k < out.len() {
                        assert(next[k] == out[k]);
                    }
                }
                if x is If {
                    lemma_fold_settled(xs, i + 1, next, starts_chain(x), in_loop);
                } else {
                    lemma_fold_settled(xs, i + 1, next, false, in_loop);
                }
            },
        }
    }
}

} // verus!
