use vstd::prelude::*;
use crate::ast::NodeView;
use crate::parser::grammar::Parsed;
use crate::parser::grammar::p_atom;
use crate::parser::grammar::p_simple;
use crate::parser::grammar::p_simple_loop;
use crate::parser::grammar::p_super;
use crate::parser::grammar::p_un_expr;
use crate::parser::grammar::tok;
use crate::token::TokenView;

verus! {

/// Whether a token starts a member access, an indexing or a call.
pub open spec fn opens_postfix(t: TokenView) -> bool {
    t is Col || t is Pal || t is Sql || t is Dot
}

/// An integer literal that nothing is applied to is an operand by itself.
pub proof fn lemma_integer_operand(ts: Seq<TokenView>, pos: nat, x: i64)
    requires
        tok(ts, pos) == Some(TokenView::Int(x)),
        tok(ts, pos + 1) is Some ==> !opens_postfix(tok(ts, pos + 1)->Some_0),
    ensures
        p_un_expr(ts, pos) == (Parsed { res: Ok(NodeView::Int(x)), pos: pos + 1 }),
{
    reveal(p_un_expr);
    reveal(p_super);
    reveal(p_simple);
    reveal(p_simple_loop);
    reveal(p_atom);
    let operand = Parsed { res: Ok::<NodeView, crate::error::ParseErrorView>(NodeView::Int(x)), pos: pos + 1 };
    assert(p_atom(ts, pos) == operand);
    assert(p_simple_loop(ts, pos + 1, NodeView::Int(x)) == operand);
    assert(p_simple(ts, pos) == operand);
    assert(p_super(ts, pos) == operand);
}

} // verus!
