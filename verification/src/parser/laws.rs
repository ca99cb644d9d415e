use vstd::prelude::*;
use crate::ast::NodeView;
use crate::parser::grammar::Parsed;
use crate::parser::grammar::p_bin_expr;
use crate::parser::grammar::combine;
use crate::parser::grammar::p_bin_loop;
use crate::parser::grammar::spine_after;
use crate::parser::grammar::p_un_expr;
use crate::parser::grammar::precedence;
use crate::parser::grammar::tok;
use crate::parser::operand::lemma_integer_operand;
use crate::parser::operand::opens_postfix;
use crate::token::TokenView;

verus! {

/// A binary expression over two nodes.
pub open spec fn binary(lhs: NodeView, op: TokenView, rhs: NodeView) -> NodeView {
    NodeView::BinExpr { lhs: Box::new(lhs), op, rhs: Box::new(rhs) }
}

/// Whether the expression ends where the token at `pos` would stand: there is no
/// token, or one that neither continues an operand nor is a binary operator.
pub open spec fn ends_at(ts: Seq<TokenView>, pos: nat) -> bool {
    match tok(ts, pos) {
        Some(t) => !opens_postfix(t) && precedence(t) is NoOp,
        None => true,
    }
}

/// One turn of the loop over operators: an operator and the integer after it are
/// joined to the expression read so far.
pub proof fn lemma_operator_step(
    ts: Seq<TokenView>,
    pos: nat,
    expr: NodeView,
    spine: nat,
    op: TokenView,
    x: i64,
)
    requires
        tok(ts, pos) == Some(op),
        !(precedence(op) is NoOp),
        tok(ts, pos + 1) == Some(TokenView::Int(x)),
        tok(ts, pos + 2) is Some ==> !opens_postfix(tok(ts, pos + 2)->Some_0),
    ensures
        p_bin_loop(ts, pos, expr, spine) == p_bin_loop(
            ts,
            pos + 2,
            combine(expr, op, NodeView::Int(x), spine),
            spine_after(expr, op, spine),
        ),
{
    lemma_integer_operand(ts, pos + 1, x);
    reveal(p_bin_loop);
    reveal(p_un_expr);
}

/// The loop over operators ends where no operator follows.
pub proof fn lemma_operator_end(ts: Seq<TokenView>, pos: nat, expr: NodeView, spine: nat)
    requires
        ends_at(ts, pos),
    ensures
        p_bin_loop(ts, pos, expr, spine) == (Parsed { res: Ok(expr), pos }),
{
    reveal(p_bin_loop);
}

/// Precedence: `a + b * c` is the sum of `a` and the product of `b` and `c`.
pub proof fn lemma_sum_of_product(ts: Seq<TokenView>, a: i64, b: i64, c: i64)
    requires
        ts.len() >= 5,
        ts[0] == TokenView::Int(a),
        ts[1] == TokenView::Add,
        ts[2] == TokenView::Int(b),
        ts[3] == TokenView::Mul,
        ts[4] == TokenView::Int(c),
        ends_at(ts, 5),
    ensures
        p_bin_expr(ts, 0) == (Parsed {
            res: Ok(
                binary(
                    NodeView::Int(a),
                    TokenView::Add,
                    binary(NodeView::Int(b), TokenView::Mul, NodeView::Int(c)),
                ),
            ),
            pos: 5,
        }),
{
    reveal_with_fuel(combine, 3);
    reveal_with_fuel(spine_after, 3);
    let e1 = binary(NodeView::Int(a), TokenView::Add, NodeView::Int(b));
    let e2 = binary(
        NodeView::Int(a),
        TokenView::Add,
        binary(NodeView::Int(b), TokenView::Mul, NodeView::Int(c)),
    );
    lemma_integer_operand(ts, 0, a);
    lemma_operator_step(ts, 1, NodeView::Int(a), 0, TokenView::Add, b);
    assert(combine(NodeView::Int(a), TokenView::Add, NodeView::Int(b), 0) == e1);
    assert(spine_after(NodeView::Int(a), TokenView::Add, 0) == 1);
    lemma_operator_step(ts, 3, e1, 1, TokenView::Mul, c);
    assert(combine(e1, TokenView::Mul, NodeView::Int(c), 1) == e2);
    lemma_operator_end(ts, 5, e2, spine_after(e1, TokenView::Mul, 1));
    let end = Parsed { res: Ok::<NodeView, crate::error::ParseErrorView>(e2), pos: 5 };
    assert(p_bin_loop(ts, 3, e1, 1) == end);
    assert(p_bin_loop(ts, 1, NodeView::Int(a), 0) == end);
    reveal(p_bin_expr);
    reveal(p_bin_loop);
    reveal(p_un_expr);
}

/// Precedence: `a * b + c` is the sum of the product of `a` and `b`, and `c`.
pub proof fn lemma_product_then_sum(ts: Seq<TokenView>, a: i64, b: i64, c: i64)
    requires
        ts.len() >= 5,
        ts[0] == TokenView::Int(a),
        ts[1] == TokenView::Mul,
        ts[2] == TokenView::Int(b),
        ts[3] == TokenView::Add,
        ts[4] == TokenView::Int(c),
        ends_at(ts, 5),
    ensures
        p_bin_expr(ts, 0) == (Parsed {
            res: Ok(
                binary(
                    binary(NodeView::Int(a), TokenView::Mul, NodeView::Int(b)),
                    TokenView::Add,
                    NodeView::Int(c),
                ),
            ),
            pos: 5,
        }),
{
    reveal_with_fuel(combine, 3);
    reveal_with_fuel(spine_after, 3);
    let e1 = binary(NodeView::Int(a), TokenView::Mul, NodeView::Int(b));
    let e2 = binary(e1, TokenView::Add, NodeView::Int(c));
    lemma_integer_operand(ts, 0, a);
    lemma_operator_step(ts, 1, NodeView::Int(a), 0, TokenView::Mul, b);
    assert(combine(NodeView::Int(a), TokenView::Mul, NodeView::Int(b), 0) == e1);
    assert(spine_after(NodeView::Int(a), TokenView::Mul, 0) == 1);
    lemma_operator_step(ts, 3, e1, 1, TokenView::Add, c);
    assert(combine(e1, TokenView::Add, NodeView::Int(c), 1) == e2);
    lemma_operator_end(ts, 5, e2, spine_after(e1, TokenView::Add, 1));
    let end = Parsed { res: Ok::<NodeView, crate::error::ParseErrorView>(e2), pos: 5 };
    assert(p_bin_loop(ts, 3, e1, 1) == end);
    assert(p_bin_loop(ts, 1, NodeView::Int(a), 0) == end);
    reveal(p_bin_expr);
    reveal(p_bin_loop);
    reveal(p_un_expr);
}

/// Precedence over three levels: `a + b * c ^ d` is the sum of `a` and the product of
/// `b` and the power of `c` to `d`. Each operator goes down the right side of what was
/// read, past every operator that binds less tightly.
pub proof fn lemma_three_levels(ts: Seq<TokenView>, a: i64, b: i64, c: i64, d: i64)
    requires
        ts.len() >= 7,
        ts[0] == TokenView::Int(a),
        ts[1] == TokenView::Add,
        ts[2] == TokenView::Int(b),
        ts[3] == TokenView::Mul,
        ts[4] == TokenView::Int(c),
        ts[5] == TokenView::Car,
        ts[6] == TokenView::Int(d),
        ends_at(ts, 7),
    ensures
        p_bin_expr(ts, 0) == (Parsed {
            res: Ok(
                binary(
                    NodeView::Int(a),
                    TokenView::Add,
                    binary(
                        NodeView::Int(b),
                        TokenView::Mul,
                        binary(NodeView::Int(c), TokenView::Car, NodeView::Int(d)),
                    ),
                ),
            ),
            pos: 7,
        }),
{
    reveal_with_fuel(combine, 4);
    reveal_with_fuel(spine_after, 4);
    let power = binary(NodeView::Int(c), TokenView::Car, NodeView::Int(d));
    let e1 = binary(NodeView::Int(a), TokenView::Add, NodeView::Int(b));
    let e2 = binary(
        NodeView::Int(a),
        TokenView::Add,
        binary(NodeView::Int(b), TokenView::Mul, NodeView::Int(c)),
    );
    let e3 = binary(
        NodeView::Int(a),
        TokenView::Add,
        binary(NodeView::Int(b), TokenView::Mul, power),
    );
    lemma_integer_operand(ts, 0, a);
    lemma_operator_step(ts, 1, NodeView::Int(a), 0, TokenView::Add, b);
    assert(combine(NodeView::Int(a), TokenView::Add, NodeView::Int(b), 0) == e1);
    assert(spine_after(NodeView::Int(a), TokenView::Add, 0) == 1);
    lemma_operator_step(ts, 3, e1, 1, TokenView::Mul, c);
    assert(combine(NodeView::Int(b), TokenView::Mul, NodeView::Int(c), 0) == binary(
        NodeView::Int(b),
        TokenView::Mul,
        NodeView::Int(c),
    ));
    assert(combine(e1, TokenView::Mul, NodeView::Int(c), 1) == e2);
    assert(spine_after(e1, TokenView::Mul, 1) == 2);
    lemma_operator_step(ts, 5, e2, 2, TokenView::Car, d);
    assert(combine(NodeView::Int(c), TokenView::Car, NodeView::Int(d), 0) == power);
    assert(combine(
        binary(NodeView::Int(b), TokenView::Mul, NodeView::Int(c)),
        TokenView::Car,
        NodeView::Int(d),
        1,
    ) == binary(NodeView::Int(b), TokenView::Mul, power));
    assert(combine(e2, TokenView::Car, NodeView::Int(d), 2) == e3);
    lemma_operator_end(ts, 7, e3, spine_after(e2, TokenView::Car, 2));
    let end = Parsed { res: Ok::<NodeView, crate::error::ParseErrorView>(e3), pos: 7 };
    assert(p_bin_loop(ts, 5, e2, 2) == end);
    assert(p_bin_loop(ts, 3, e1, 1) == end);
    assert(p_bin_loop(ts, 1, NodeView::Int(a), 0) == end);
    reveal(p_bin_expr);
    reveal(p_bin_loop);
    reveal(p_un_expr);
}

} // verus!
