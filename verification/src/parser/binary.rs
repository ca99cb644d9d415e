use vstd::prelude::*;
use crate::ast::Node;
use crate::error::ParseErrorKind;
use crate::parser::grammar::Parsed;
use crate::parser::grammar::left;
use crate::parser::grammar::p_bin_expr;
use crate::parser::grammar::p_bin_loop;
use crate::parser::grammar::p_un_expr;
use crate::parser::grammar::precedence;
use crate::parser::grammar::tok;
use crate::token::Token;


use crate::parser::ParseIter;
use crate::parser::node_parsed;

use crate::parser::join::join;
use crate::parser::unary::parse_un_expr;

verus! {

/// The next token, if it is a binary operator.
pub fn peek_binary(it: &ParseIter) -> (r: Option<Token>)
    ensures
        match r {
            Some(t) => tok(it.nodes(), it.at()) == Some(t@) && !(precedence(t@) is NoOp),
            None => match tok(it.nodes(), it.at()) {
                Some(v) => !(!(precedence(v) is NoOp)),
                None => true,
            },
        },
{
    match it.peek() {
        Some(t) => if matches!(t, Token::Dol | Token::Add | Token::Sub | Token::Div | Token::Mul | Token::Car | Token::Sup) {
            Some(t.copy())
        } else {
            None
        },
        None => None,
    }
}

/// Reads operands joined by binary operators.
#[verifier::loop_isolation(false)]
pub fn parse_bin_expr(it: &mut ParseIter) -> (r: Result<Node, ParseErrorKind>)
    ensures
        old(it).before(*final(it)),
        node_parsed(p_bin_expr(old(it).nodes(), old(it).at()), r, *final(it)),
    decreases old(it).left(), 15nat,
{
    reveal(p_bin_expr);
    reveal(p_bin_loop);
    reveal(p_un_expr);
    let ghost ts = it.nodes();
    let ghost goal = p_bin_expr(ts, it.at());
    let mut expr = parse_un_expr(it)?;
    let mut spine: usize = 0;
    let mut more = true;
    while more
        invariant
            old(it).before(*it),
            spine <= it.pos - old(it).pos,
            more ==> goal == p_bin_loop(ts, it.at(), expr@, spine as nat),
            !more ==> goal == (Parsed { res: Ok(expr@), pos: it.at() }),
        decreases it.left(), (if more { 1nat } else { 0nat }),
    {
        match peek_binary(it) {
            Some(op) => {
                it.next();
                let rhs = parse_un_expr(it)?;
                let (joined, below) = join(expr, op, rhs, spine);
                expr = joined;
                spine = below;
            },
            None => {
                more = false;
            },
        }
    }
    Ok(expr)
}

} // verus!
