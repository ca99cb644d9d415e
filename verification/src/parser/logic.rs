use vstd::prelude::*;
use crate::ast::Node;
use crate::ast::node_views;
use crate::ast::token_views;
use crate::error::ParseErrorKind;
use crate::parser::grammar::Parsed;
use crate::parser::grammar::chain_or_single;
use crate::parser::grammar::is_logic;
use crate::parser::grammar::left;
use crate::parser::grammar::p_compare_expr;
use crate::parser::grammar::p_logic_expr;
use crate::parser::grammar::p_logic_loop;
use crate::parser::grammar::tok;
use crate::token::Token;


use crate::parser::ParseIter;
use crate::parser::node_parsed;

use crate::parser::compare::parse_cmp_expr;

verus! {

/// The next token, if it is a logical operator.
pub fn peek_logic(it: &ParseIter) -> (r: Option<Token>)
    ensures
        match r {
            Some(t) => tok(it.nodes(), it.at()) == Some(t@) && is_logic(t@),
            None => match tok(it.nodes(), it.at()) {
                Some(v) => !(is_logic(v)),
                None => true,
            },
        },
{
    match it.peek() {
        Some(t) => if matches!(t, Token::And | Token::Or) {
            Some(t.copy())
        } else {
            None
        },
        None => None,
    }
}

/// Reads a chain of `and` and `or`, or a single comparison.
#[verifier::loop_isolation(false)]
pub fn parse_logic_expr(it: &mut ParseIter) -> (r: Result<Node, ParseErrorKind>)
    ensures
        old(it).before(*final(it)),
        node_parsed(p_logic_expr(old(it).nodes(), old(it).at()), r, *final(it)),
    decreases old(it).left(), 19nat,
{
    reveal(p_logic_expr);
    reveal(p_logic_loop);
    reveal(p_compare_expr);
    let ghost ts = it.nodes();
    let ghost goal = p_logic_expr(ts, it.at());
    let first = parse_cmp_expr(it)?;
    let mut nodes: Vec<Node> = Vec::new();
    let mut ops: Vec<Token> = Vec::new();
    nodes.push(first);
    assert(node_views(nodes) =~= seq![first@]);
    assert(token_views(ops@) =~= seq![]);
    let mut more = true;
    while more
        invariant
            old(it).before(*it),
            nodes.len() == ops.len() + 1,
            more ==> goal == p_logic_loop(ts, it.at(), node_views(nodes), token_views(ops@)),
            !more ==> goal == (Parsed {
                res: Ok(chain_or_single(node_views(nodes), token_views(ops@), true)),
                pos: it.at(),
            }),
        decreases it.left(), (if more { 1nat } else { 0nat }),
    {
        let ghost seen = node_views(nodes);
        let ghost used = token_views(ops@);
        match peek_logic(it) {
            Some(op) => {
                it.next();
                let next = parse_cmp_expr(it)?;
                nodes.push(next);
                ops.push(op);
                assert(node_views(nodes) =~= seen.push(next@));
                assert(token_views(ops@) =~= used.push(op@));
            },
            None => {
                more = false;
            },
        }
    }
    if ops.len() == 0 {
        assert(node_views(nodes)[0] == nodes@[0]@);
        assert(token_views(ops@).len() == 0);
        Ok(nodes.pop().unwrap())
    } else {
        assert(token_views(ops@).len() > 0);
        Ok(Node::LogicExpr { nodes, ops })
    }
}

} // verus!
