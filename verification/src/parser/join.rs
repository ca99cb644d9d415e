use vstd::prelude::*;
use crate::ast::Node;
use crate::parser::grammar::Op;
use crate::parser::grammar::combine;
use crate::parser::grammar::keeps_left;
use crate::parser::grammar::precedence;
use crate::parser::grammar::spine_after;
use crate::parser::op_precedence;
use crate::token::Token;

verus! {

/// Whether an operator keeps its operands when the other follows it.
fn keeps(cur: &Token, next: &Token) -> (r: bool)
    ensures
        r == keeps_left(precedence(cur@), precedence(next@)),
{
    match (op_precedence(cur), op_precedence(next)) {
        (Op::Left(n), Op::Left(m)) => n >= m,
        (Op::Right(n), Op::Right(m)) => n > m,
        (Op::Right(n), Op::Left(m)) => n >= m,
        (Op::Left(n), Op::Right(m)) => n >= m,
        _ => false,
    }
}

/// Joins the expression read so far with an operator and its right operand, and gives
/// the number of nodes down the right side of the result that are built from operators.
pub fn join(expr: Node, op: Token, rhs: Node, spine: usize) -> (r: (Node, usize))
    requires
        spine < usize::MAX,
    ensures
        r.0@ == combine(expr@, op@, rhs@, spine as nat),
        r.1 == spine_after(expr@, op@, spine as nat),
        1 <= r.1 <= spine + 1,
    decreases spine,
{
    if spine == 0 {
        return (Node::BinExpr { lhs: Box::new(expr), op, rhs: Box::new(rhs) }, 1);
    }
    match expr {
        Node::BinExpr { lhs: cur_lhs, op: cur_op, rhs: cur_rhs } => {
            if keeps(&cur_op, &op) {
                let whole = Node::BinExpr { lhs: cur_lhs, op: cur_op, rhs: cur_rhs };
                (Node::BinExpr { lhs: Box::new(whole), op, rhs: Box::new(rhs) }, 1)
            } else {
                let (inner, below) = join(*cur_rhs, op, rhs, spine - 1);
                (Node::BinExpr { lhs: cur_lhs, op: cur_op, rhs: Box::new(inner) }, below + 1)
            }
        },
        other => (Node::BinExpr { lhs: Box::new(other), op, rhs: Box::new(rhs) }, 1),
    }
}

} // verus!
