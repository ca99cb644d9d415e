use vstd::prelude::*;
use crate::ast::Node;
use crate::ast::node_views;
use crate::error::ParseErrorKind;
use crate::parser::grammar::Parsed;
use crate::parser::grammar::left;
use crate::parser::grammar::p_args_loop;
use crate::parser::grammar::p_fn_args;
use crate::parser::grammar::p_il_expr;
use crate::token::Token;


use crate::parser::ParseIter;
use crate::parser::nodes_parsed;
use crate::parser::require_token;
use crate::parser::use_token;

use crate::parser::expr::parse_il_expr;

verus! {

/// Reads the arguments of a call, between parentheses.
#[verifier::loop_isolation(false)]
pub fn parse_fn_args(it: &mut ParseIter) -> (r: Result<Vec<Node>, ParseErrorKind>)
    ensures
        old(it).before(*final(it)),
        nodes_parsed(p_fn_args(old(it).nodes(), old(it).at()), r, *final(it)),
        r is Ok ==> final(it).at() > old(it).at(),
        r is Ok ==> final(it).left() < old(it).left(),
    decreases old(it).left(), 9nat,
{
    reveal(p_fn_args);
    reveal(p_args_loop);
    reveal(p_il_expr);
    let ghost ts = it.nodes();
    let ghost goal = p_fn_args(ts, it.at());
    let mut args: Vec<Node> = Vec::new();
    assert(node_views(args) =~= seq![]);
    require_token(it, Token::Pal)?;
    let mut more = true;
    while more
        invariant
            old(it).before(*it),
            it.at() > old(it).at(),
            more ==> goal == p_args_loop(ts, it.at(), node_views(args)),
            !more ==> goal == (Parsed { res: Ok(node_views(args)), pos: it.at() }),
        decreases it.left(), (if more { 1nat } else { 0nat }),
    {
        let ghost seen = node_views(args);
        if use_token(it, Token::Par) {
            more = false;
        } else {
            let arg = parse_il_expr(it)?;
            args.push(arg);
            assert(node_views(args) =~= seen.push(arg@));
            if !use_token(it, Token::Com) {
                require_token(it, Token::Par)?;
                more = false;
            }
        }
    }
    Ok(args)
}

} // verus!
