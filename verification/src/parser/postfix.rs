use vstd::prelude::*;
use crate::ast::Node;
use crate::ast::NodeView;
use crate::error::ParseErrorKind;
use crate::error::ParseErrorView;
use crate::parser::grammar::Parsed;
use crate::parser::grammar::left;
use crate::parser::grammar::p_fn_args;
use crate::parser::grammar::p_logic_expr;
use crate::parser::grammar::p_simple_loop;
use crate::token::Token;


use crate::parser::ParseIter;
use crate::parser::node_parsed;
use crate::parser::parse_name_as_str;
use crate::parser::require_token;

use crate::parser::args::parse_fn_args;
use crate::parser::logic::parse_logic_expr;


verus! {


/// back, with the flag set, if none follows.
pub fn parse_postfix(it: &mut ParseIter, atom: Node) -> (r: Result<(Node, bool), ParseErrorKind>)
    ensures
        old(it).before(*final(it)),
        match r {
            Ok(n) => if n.1 {
                n.0@ == atom@ && final(it).at() == old(it).at() && p_simple_loop(
                    old(it).nodes(),
                    old(it).at(),
                    atom@,
                ) == (Parsed { res: Ok(atom@), pos: old(it).at() })
            } else {
                final(it).at() > old(it).at() && p_simple_loop(
                    old(it).nodes(),
                    old(it).at(),
                    atom@,
                ) == p_simple_loop(old(it).nodes(), final(it).at(), n.0@)
            },
            Err(k) => p_simple_loop(old(it).nodes(), old(it).at(), atom@) == (Parsed {
                res: Err::<NodeView, ParseErrorView>(k@),
                pos: final(it).at(),
            }),
        },
        r is Ok && !r->Ok_0.1 ==> final(it).left() < old(it).left(),
    decreases old(it).left(), 10nat, 0nat,
{
    reveal(p_simple_loop);
    reveal(p_fn_args);
    reveal(p_logic_expr);
    let kind: u8 = match it.peek() {
        Some(Token::Col) => 1,
        Some(Token::Pal) => 2,
        Some(Token::Sql) => 3,
        Some(Token::Dot) => 4,
        _ => 0,
    };
    if kind == 1 {
        it.next();
        let method = parse_name_as_str(it)?;
        let args = parse_fn_args(it)?;
        Ok((Node::MethodCall { owner: Box::new(atom), method: Box::new(method), args }, false))
    } else if kind == 2 {
        let args = parse_fn_args(it)?;
        Ok((Node::FuncCall { func: Box::new(atom), args }, false))
    } else if kind == 3 {
        it.next();
        let idx = parse_logic_expr(it)?;
        require_token(it, Token::Sqr)?;
        Ok((Node::Index { lhs: Box::new(atom), rhs: Box::new(idx) }, false))
    } else if kind == 4 {
        it.next();
        let idx = parse_name_as_str(it)?;
        Ok((Node::Index { lhs: Box::new(atom), rhs: Box::new(idx) }, false))
    } else {
        Ok((atom, true))
    }
}

/// Reads the member accesses, indexings and calls that follow the expression `atom`.
#[verifier::loop_isolation(false)]
pub fn parse_postfixes(it: &mut ParseIter, atom: Node) -> (r: Result<Node, ParseErrorKind>)
    ensures
        old(it).before(*final(it)),
        node_parsed(p_simple_loop(old(it).nodes(), old(it).at(), atom@), r, *final(it)),
    decreases old(it).left(), 10nat, 1nat,
{
    let ghost ts = it.nodes();
    let ghost goal = p_simple_loop(ts, it.at(), atom@);
    let mut atom = atom;
    let mut more = true;
    while more
        invariant
            old(it).before(*it),
            ts == it.nodes(),
            more ==> goal == p_simple_loop(ts, it.at(), atom@),
            !more ==> goal == (Parsed { res: Ok(atom@), pos: it.at() }),
        decreases it.left(), (if more { 1nat } else { 0nat }),
    {
        let (next, stop) = parse_postfix(it, atom)?;
        atom = next;
        if stop {
            more = false;
        }
    }
    Ok(atom)
}

} // verus!
