use vstd::prelude::*;
use crate::ast::Node;
use crate::ast::node_views;
use crate::ast::token_views;
use crate::error::ParseErrorKind;
use crate::parser::grammar::Parsed;
use crate::parser::grammar::chain_or_single;
use crate::parser::grammar::is_comparison;
use crate::parser::grammar::left;
use crate::parser::grammar::p_bin_expr;
use crate::parser::grammar::p_compare_expr;
use crate::parser::grammar::p_compare_loop;
use crate::parser::grammar::tok;
use crate::token::Token;


use crate::parser::ParseIter;
use crate::parser::node_parsed;

use crate::parser::binary::parse_bin_expr;

verus! {

/// The next token, if it is a comparison operator.
pub fn peek_comparison(it: &ParseIter) -> (r: Option<Token>)
    ensures
        match r {
            Some(t) => tok(it.nodes(), it.at()) == Some(t@) && is_comparison(t@),
            None => match tok(it.nodes(), it.at()) {
                Some(v) => !(is_comparison(v)),
                None => true,
            },
        },
{
    match it.peek() {
        Some(t) => if matches!(t, Token::Eql | Token::Ne | Token::Ge | Token::Gt | Token::Le | Token::Lt) {
            Some(t.copy())
        } else {
            None
        },
        None => None,
    }
}

/// Reads a chain of comparisons, or a single arithmetic expression.
#[verifier::loop_isolation(false)]
pub fn parse_cmp_expr(it: &mut ParseIter) -> (r: Result<Node, ParseErrorKind>)
    ensures
        old(it).before(*final(it)),
        node_parsed(p_compare_expr(old(it).nodes(), old(it).at()), r, *final(it)),
    decreases old(it).left(), 17nat,
{
    reveal(p_compare_expr);
    reveal(p_compare_loop);
    reveal(p_bin_expr);
    let ghost ts = it.nodes();
    let ghost goal = p_compare_expr(ts, it.at());
    let first = parse_bin_expr(it)?;
    let mut nodes: Vec<Node> = Vec::new();
    let mut ops: Vec<Token> = Vec::new();
    nodes.push(first);
    assert(node_views(nodes) =~= seq![first@]);
    assert(token_views(ops@) =~= seq![]);
    let mut more = true;
    while more
        invariant
            old(it).before(*it),
            nodes.len() == ops.len() + 1,
            more ==> goal == p_compare_loop(ts, it.at(), node_views(nodes), token_views(ops@)),
            !more ==> goal == (Parsed {
                res: Ok(chain_or_single(node_views(nodes), token_views(ops@), false)),
                pos: it.at(),
            }),
        decreases it.left(), (if more { 1nat } else { 0nat }),
    {
        let ghost seen = node_views(nodes);
        let ghost used = token_views(ops@);
        match peek_comparison(it) {
            Some(op) => {
                it.next();
                let next = parse_bin_expr(it)?;
                nodes.push(next);
                ops.push(op);
                assert(node_views(nodes) =~= seen.push(next@));
                assert(token_views(ops@) =~= used.push(op@));
            },
            None => {
                more = false;
            },
        }
    }
    if ops.len() == 0 {
        assert(node_views(nodes)[0] == nodes@[0]@);
        assert(token_views(ops@).len() == 0);
        Ok(nodes.pop().unwrap())
    } else {
        assert(token_views(ops@).len() > 0);
        Ok(Node::CmpExpr { nodes, ops })
    }
}

} // verus!
