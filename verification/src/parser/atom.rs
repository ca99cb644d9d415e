use vstd::prelude::*;
use crate::ast::Node;
use crate::error::ParseErrorKind;
use crate::parser::grammar::left;
use crate::parser::grammar::p_atom;
use crate::parser::grammar::p_logic_expr;
use crate::token::Token;


use crate::parser::ParseIter;
use crate::parser::node_parsed;
use crate::parser::parse_quark;
use crate::parser::require_token;


use crate::parser::logic::parse_logic_expr;

verus! {

/// Reads an expression in parentheses, or a quark.
pub fn parse_atom(it: &mut ParseIter) -> (r: Result<Node, ParseErrorKind>)
    ensures
        old(it).before(*final(it)),
        node_parsed(p_atom(old(it).nodes(), old(it).at()), r, *final(it)),
    decreases old(it).left(), 8nat,
{
    reveal(p_atom);
    reveal(p_logic_expr);
    let kind: u8 = match it.peek() {
        Some(Token::Pal) => 1,
        Some(_) => 2,
        None => 0,
    };
    if kind == 1 {
        it.next();
        let out = parse_logic_expr(it)?;
        require_token(it, Token::Par)?;
        Ok(out)
    } else if kind == 2 {
        parse_quark(it)
    } else {
        Err(ParseErrorKind::UnexpectedEOF)
    }
}



} // verus!
