use vstd::prelude::*;
use crate::ast::Node;
use crate::ast::NodeView;
use crate::error::ParseErrorKind;
use crate::parser::grammar::left;
use crate::parser::grammar::p_block;
use crate::parser::grammar::p_fn_params;
use crate::parser::grammar::p_il_expr;
use crate::parser::grammar::p_logic_expr;
use crate::parser::grammar::p_ml_expr;
use crate::token::Token;


use crate::parser::ParseIter;
use crate::parser::node_parsed;
use crate::parser::parse_fn_params;
use crate::parser::require_token;

use crate::parser::logic::parse_logic_expr;
use crate::parser::stmt::parse_block;

verus! {

/// expression on one line.
pub fn parse_ml_expr(it: &mut ParseIter) -> (r: Result<Node, ParseErrorKind>)
    ensures
        old(it).before(*final(it)),
        node_parsed(p_ml_expr(old(it).nodes(), old(it).at()), r, *final(it)),
    decreases old(it).left(), 22nat,
{
    reveal(p_ml_expr);
    reveal(p_fn_params);
    reveal(p_block);
    reveal(p_il_expr);
    let kind: u8 = match it.peek() {
        Some(Token::Func) => 1,
        Some(Token::Catch) => 2,
        Some(_) => 3,
        None => 0,
    };
    if kind == 1 {
        it.next();
        require_token(it, Token::Pal)?;
        let params = parse_fn_params(it)?;
        require_token(it, Token::Par)?;
        let body = parse_block(it)?;
        Ok(Node::FuncDef { params, body: Box::new(body) })
    } else if kind == 2 {
        it.next();
        let body = parse_block(it)?;
        Ok(Node::Catch { body: Box::new(body) })
    } else if kind == 3 {
        parse_il_expr(it)
    } else {
        Err(ParseErrorKind::UnexpectedEOF)
    }
}

/// Reads a function written between bars, or a logical expression.
pub fn parse_il_expr(it: &mut ParseIter) -> (r: Result<Node, ParseErrorKind>)
    ensures
        old(it).before(*final(it)),
        node_parsed(p_il_expr(old(it).nodes(), old(it).at()), r, *final(it)),
    decreases old(it).left(), 20nat,
{
    reveal(p_il_expr);
    reveal(p_fn_params);
    reveal(p_logic_expr);
    let kind: u8 = match it.peek() {
        Some(Token::Pipe) => 1,
        Some(_) => 2,
        None => 0,
    };
    if kind == 1 {
        it.next();
        let params = parse_fn_params(it)?;
        require_token(it, Token::Pipe)?;
        let expr = parse_il_expr(it)?;
        let body = Node::Return(Some(Box::new(expr)));
        assert(body@ == NodeView::Return(Some(Box::new(expr@))));
        Ok(Node::FuncDef { params, body: Box::new(body) })
    } else if kind == 2 {
        parse_logic_expr(it)
    } else {
        Err(ParseErrorKind::UnexpectedEOF)
    }
}

} // verus!
