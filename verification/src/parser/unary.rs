use vstd::prelude::*;
use crate::ast::Node;
use crate::error::ParseErrorKind;
use crate::parser::grammar::dots;
use crate::parser::grammar::is_prefix;
use crate::parser::grammar::left;
use crate::parser::grammar::p_simple;
use crate::parser::grammar::p_super;
use crate::parser::grammar::p_un_expr;
use crate::parser::grammar::tok;
use crate::token::Token;


use crate::parser::ParseIter;
use crate::parser::node_parsed;
use crate::parser::parse_name_as_str;
use crate::parser::use_token;

use crate::parser::simple::parse_simple;

verus! {

/// The next token, if it is a prefix operator.
pub fn peek_prefix(it: &ParseIter) -> (r: Option<Token>)
    ensures
        match r {
            Some(t) => tok(it.nodes(), it.at()) == Some(t@) && is_prefix(t@),
            None => match tok(it.nodes(), it.at()) {
                Some(v) => !(is_prefix(v)),
                None => true,
            },
        },
{
    match it.peek() {
        Some(t) => if matches!(t, Token::Sub | Token::Not | Token::Neg | Token::Mul | Token::Dol) {
            Some(t.copy())
        } else {
            None
        },
        None => None,
    }
}

/// Reads prefix operators and what they apply to.
pub fn parse_un_expr(it: &mut ParseIter) -> (r: Result<Node, ParseErrorKind>)
    ensures
        old(it).before(*final(it)),
        node_parsed(p_un_expr(old(it).nodes(), old(it).at()), r, *final(it)),
    decreases old(it).left(), 13nat,
{
    reveal(p_un_expr);
    reveal(p_super);
    if it.peek().is_none() {
        return Err(ParseErrorKind::UnexpectedEOF);
    }
    match peek_prefix(it) {
        Some(op) => {
            it.next();
            let val = parse_un_expr(it)?;
            Ok(Node::UnExpr { val: Box::new(val), op })
        },
        None => parse_super(it),
    }
}

/// Reads a super reference, or a simple expression.
#[verifier::loop_isolation(false)]
pub fn parse_super(it: &mut ParseIter) -> (r: Result<Node, ParseErrorKind>)
    ensures
        old(it).before(*final(it)),
        node_parsed(p_super(old(it).nodes(), old(it).at()), r, *final(it)),
    decreases old(it).left(), 12nat,
{
    reveal(p_super);
    reveal(dots);
    reveal(p_simple);
    let ghost ts = it.nodes();
    let kind: u8 = match it.peek() {
        Some(Token::Dot) => 1,
        Some(_) => 2,
        None => 0,
    };
    if kind == 1 {
        let mut count: usize = 0;
        while use_token(it, Token::Dot)
            invariant
                old(it).before(*it),
                it.pos <= it.tokens.len(),
                it.at() == old(it).at() + count,
                dots(ts, old(it).at()) == count + dots(ts, it.at()),
            decreases it.left(),
        {
            count = count + 1;
        }
        let idx = parse_name_as_str(it)?;
        Ok(Node::Super(count, Box::new(idx)))
    } else if kind == 2 {
        parse_simple(it)
    } else {
        Err(ParseErrorKind::UnexpectedEOF)
    }
}

} // verus!
