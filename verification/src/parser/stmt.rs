use vstd::prelude::*;
use crate::ast::Node;
use crate::ast::Place;
use crate::ast::PlaceView;
use crate::ast::Var;
use crate::ast::VarView;
use crate::ast::node_views;
use crate::ast::place_views;
use crate::ast::var_views;
use crate::error::ParseErrorKind;
use crate::parser::grammar::Parsed;
use crate::parser::grammar::left;
use crate::parser::grammar::next_is;
use crate::parser::grammar::p_assn;
use crate::parser::grammar::p_block;
use crate::parser::grammar::p_decl;
use crate::parser::grammar::p_decl_loop;
use crate::parser::grammar::p_guarded;
use crate::parser::grammar::p_il_expr;
use crate::parser::grammar::p_logic_expr;
use crate::parser::grammar::p_ml_expr;
use crate::parser::grammar::p_place;
use crate::parser::grammar::p_place_loop;
use crate::parser::grammar::p_stmt;
use crate::parser::grammar::p_stmts;
use crate::parser::grammar::tok;
use crate::token::Token;
use crate::token::TokenView;


use crate::parser::ParseIter;
use crate::parser::node_parsed;
use crate::parser::nodes_parsed;
use crate::parser::place_parsed;
use crate::parser::var_parsed;
use crate::parser::peek_name;
use crate::parser::peek_token;
use crate::parser::require_token;
use crate::parser::unexpected_here;
use crate::parser::use_token;
use crate::parser::expr::parse_il_expr;
use crate::parser::logic::parse_logic_expr;
use crate::parser::expr::parse_ml_expr;

verus! {

/// Reads the names that a `for` binds.
#[verifier::loop_isolation(false)]
pub fn parse_decl(it: &mut ParseIter) -> (r: Result<Var, ParseErrorKind>)
    ensures
        old(it).before(*final(it)),
        var_parsed(p_decl(old(it).nodes(), old(it).at()), r, *final(it)),
    decreases old(it).left(), 23nat,
{
    reveal(p_decl);
    reveal(p_decl_loop);
    let ghost ts = it.nodes();
    let ghost goal = p_decl(ts, it.at());
    let kind: u8 = match it.peek() {
        Some(Token::Sql) => 1,
        Some(Token::Name(_)) => 2,
        _ => 0,
    };
    if kind == 1 {
        it.next();
        let mut pieces: Vec<Var> = Vec::new();
        assert(var_views(pieces) =~= seq![]);
        let mut more = true;
        while more
            invariant
                old(it).before(*it),
                it.at() > old(it).at(),
                more ==> goal == p_decl_loop(ts, it.at(), var_views(pieces)),
                !more ==> goal == (Parsed {
                    res: Ok(VarView::Multi(var_views(pieces))),
                    pos: it.at(),
                }),
            decreases it.left(), (if more { 1nat } else { 0nat }),
        {
            let ghost seen = var_views(pieces);
            let piece = parse_decl(it)?;
            pieces.push(piece);
            assert(var_views(pieces) =~= seen.push(piece@));
            if use_token(it, Token::Com) {
                if peek_token(it, Token::Sqr) {
                    require_token(it, Token::Sqr)?;
                    more = false;
                }
            } else {
                require_token(it, Token::Sqr)?;
                more = false;
            }
        }
        Ok(Var::Multi(pieces))
    } else if kind == 2 {
        match peek_name(it) {
            Some(x) => {
                it.next();
                Ok(Var::Single(x))
            },
            None => Err(ParseErrorKind::UnexpectedEOF),
        }
    } else {
        Err(unexpected_here(it))
    }
}

/// Reads the target of an assignment.
#[verifier::loop_isolation(false)]
pub fn parse_place(it: &mut ParseIter) -> (r: Result<Place, ParseErrorKind>)
    ensures
        old(it).before(*final(it)),
        place_parsed(p_place(old(it).nodes(), old(it).at()), r, *final(it)),
    decreases old(it).left(), 25nat,
{
    reveal(p_place);
    reveal(p_place_loop);
    reveal(p_il_expr);
    let ghost ts = it.nodes();
    let ghost goal = p_place(ts, it.at());
    let kind: u8 = match it.peek() {
        Some(Token::Sql) => 1,
        Some(_) => 2,
        None => 0,
    };
    if kind == 1 {
        it.next();
        let mut pieces: Vec<Place> = Vec::new();
        assert(place_views(pieces) =~= seq![]);
        let mut more = true;
        while more
            invariant
                old(it).before(*it),
                it.at() > old(it).at(),
                more ==> goal == p_place_loop(ts, it.at(), place_views(pieces)),
                !more ==> goal == (Parsed {
                    res: Ok(PlaceView::Multi(place_views(pieces))),
                    pos: it.at(),
                }),
            decreases it.left(), (if more { 1nat } else { 0nat }),
        {
            let ghost seen = place_views(pieces);
            let piece = parse_place(it)?;
            pieces.push(piece);
            assert(place_views(pieces) =~= seen.push(piece@));
            if use_token(it, Token::Com) {
                if peek_token(it, Token::Sqr) {
                    require_token(it, Token::Sqr)?;
                    more = false;
                }
            } else {
                require_token(it, Token::Sqr)?;
                more = false;
            }
        }
        Ok(Place::Multi(pieces))
    } else if kind == 2 {
        let node = parse_il_expr(it)?;
        Ok(Place::Single(Box::new(node)))
    } else {
        Err(ParseErrorKind::UnexpectedEOF)
    }
}

/// Reads an assignment, or an expression used as a statement.
pub fn parse_assn(it: &mut ParseIter) -> (r: Result<Node, ParseErrorKind>)
    ensures
        old(it).before(*final(it)),
        node_parsed(p_assn(old(it).nodes(), old(it).at()), r, *final(it)),
    decreases old(it).left(), 27nat,
{
    reveal(p_assn);
    reveal(p_place);
    reveal(p_ml_expr);
    let place = parse_place(it)?;
    let kind: u8 = match it.peek() {
        Some(Token::Ass) => 1,
        Some(_) => 2,
        None => 0,
    };
    if kind == 1 {
        it.next();
        let rhs = parse_ml_expr(it)?;
        Ok(Node::Assn { lhs: place, rhs: Box::new(rhs) })
    } else if kind == 2 {
        match place {
            Place::Single(node) => Ok(Node::Expr(node)),
            Place::Multi(_) => Err(ParseErrorKind::UnusedPlaces),
        }
    } else {
        Err(ParseErrorKind::UnexpectedEOF)
    }
}

/// Reads a condition and the block that it guards, after the keyword at `start`.
fn parse_guarded(it: &mut ParseIter, Ghost(start): Ghost<nat>, inline: bool) -> (r: Result<
    (Node, Node),
    ParseErrorKind,
>)
    requires
        old(it).at() > start,
        start < old(it).tokens.len(),
        start < old(it).nodes().len(),
    ensures
        old(it).before(*final(it)),
        ({
            let rule = p_guarded(old(it).nodes(), old(it).at(), start, inline);
            rule.pos == final(it).at() && match (rule.res, r) {
                (Ok(v), Ok(n)) => n.0@ == v.0 && n.1@ == v.1,
                (Err(e), Err(k)) => k@ == e,
                _ => false,
            }
        }),
    decreases old(it).tokens.len() - start, 3nat,
{
    reveal(p_guarded);
    reveal(p_il_expr);
    reveal(p_logic_expr);
    reveal(p_block);
    let cond = if inline {
        parse_il_expr(it)?
    } else {
        parse_logic_expr(it)?
    };
    let body = parse_block(it)?;
    Ok((cond, body))
}

/// Reads an `if` with its block.
fn parse_if(it: &mut ParseIter) -> (r: Result<Node, ParseErrorKind>)
    requires
        tok(old(it).nodes(), old(it).at()) == Some(TokenView::If),
    ensures
        old(it).before(*final(it)),
        node_parsed(p_stmt(old(it).nodes(), old(it).at()), r, *final(it)),
    decreases old(it).left(), 6nat,
{
    reveal(p_stmt);
    reveal(p_guarded);
    let ghost start = it.at();
    it.next();
    let (cond, body) = parse_guarded(it, Ghost(start), false)?;
    Ok(Node::If { cond: Box::new(cond), body: Box::new(body), els: None })
}

/// Reads an `else` or `else if` with its block.
fn parse_else(it: &mut ParseIter) -> (r: Result<Node, ParseErrorKind>)
    requires
        tok(old(it).nodes(), old(it).at()) == Some(TokenView::Else),
    ensures
        old(it).before(*final(it)),
        node_parsed(p_stmt(old(it).nodes(), old(it).at()), r, *final(it)),
    decreases old(it).left(), 6nat,
{
    reveal(p_stmt);
    reveal(p_guarded);
    reveal(p_block);
    let ghost start = it.at();
    it.next();
    if use_token(it, Token::If) {
        let (cond, body) = parse_guarded(it, Ghost(start), false)?;
        Ok(Node::ElseIf { cond: Box::new(cond), body: Box::new(body) })
    } else {
        let body = parse_block(it)?;
        Ok(Node::Else { body: Box::new(body) })
    }
}

/// Reads a `for` loop.
fn parse_for(it: &mut ParseIter) -> (r: Result<Node, ParseErrorKind>)
    requires
        tok(old(it).nodes(), old(it).at()) == Some(TokenView::For),
    ensures
        old(it).before(*final(it)),
        node_parsed(p_stmt(old(it).nodes(), old(it).at()), r, *final(it)),
    decreases old(it).left(), 6nat,
{
    reveal(p_stmt);
    reveal(p_guarded);
    reveal(p_decl);
    let ghost start = it.at();
    it.next();
    let decl = parse_decl(it)?;
    require_token(it, Token::In)?;
    let (expr, body) = parse_guarded(it, Ghost(start), true)?;
    Ok(Node::For { decl, expr: Box::new(expr), body: Box::new(body) })
}

/// Reads a `while` loop.
fn parse_while(it: &mut ParseIter) -> (r: Result<Node, ParseErrorKind>)
    requires
        tok(old(it).nodes(), old(it).at()) == Some(TokenView::While),
    ensures
        old(it).before(*final(it)),
        node_parsed(p_stmt(old(it).nodes(), old(it).at()), r, *final(it)),
    decreases old(it).left(), 6nat,
{
    reveal(p_stmt);
    reveal(p_guarded);
    let ghost start = it.at();
    it.next();
    let (expr, body) = parse_guarded(it, Ghost(start), true)?;
    Ok(Node::While { expr: Box::new(expr), body: Box::new(body) })
}

/// Reads an endless loop.
fn parse_loop(it: &mut ParseIter) -> (r: Result<Node, ParseErrorKind>)
    requires
        tok(old(it).nodes(), old(it).at()) == Some(TokenView::Loop),
    ensures
        old(it).before(*final(it)),
        node_parsed(p_stmt(old(it).nodes(), old(it).at()), r, *final(it)),
    decreases old(it).left(), 6nat,
{
    reveal(p_stmt);
    reveal(p_block);
    let ghost start = it.at();
    it.next();
    let body = parse_block(it)?;
    Ok(Node::Loop { body: Box::new(body) })
}

/// Reads a `return`.
fn parse_return(it: &mut ParseIter) -> (r: Result<Node, ParseErrorKind>)
    requires
        tok(old(it).nodes(), old(it).at()) == Some(TokenView::Return),
    ensures
        old(it).before(*final(it)),
        node_parsed(p_stmt(old(it).nodes(), old(it).at()), r, *final(it)),
    decreases old(it).left(), 6nat,
{
    reveal(p_stmt);
    reveal(p_ml_expr);
    let ghost start = it.at();
    it.next();
    if peek_token(it, Token::End) {
        Ok(Node::Return(None))
    } else {
        let val = parse_ml_expr(it)?;
        Ok(Node::Return(Some(Box::new(val))))
    }
}

/// Reads one statement.
pub fn parse_stmt(it: &mut ParseIter) -> (r: Result<Node, ParseErrorKind>)
    ensures
        old(it).before(*final(it)),
        node_parsed(p_stmt(old(it).nodes(), old(it).at()), r, *final(it)),
    decreases old(it).left(), 28nat,
{
    reveal(p_stmt);
    reveal(p_ml_expr);
    reveal(p_assn);
    let kind: u8 = match it.peek() {
        Some(Token::Break) => 1,
        Some(Token::Continue) => 2,
        Some(Token::If) => 3,
        Some(Token::Else) => 4,
        Some(Token::For) => 5,
        Some(Token::While) => 6,
        Some(Token::Loop) => 7,
        Some(Token::Return) => 8,
        Some(Token::Pass) => 9,
        Some(Token::Func) => 10,
        Some(Token::Catch) => 10,
        Some(_) => 11,
        None => 0,
    };
    if kind == 1 {
        it.next();
        Ok(Node::Break)
    } else if kind == 2 {
        it.next();
        Ok(Node::Continue)
    } else if kind == 3 {
        parse_if(it)
    } else if kind == 4 {
        parse_else(it)
    } else if kind == 5 {
        parse_for(it)
    } else if kind == 6 {
        parse_while(it)
    } else if kind == 7 {
        parse_loop(it)
    } else if kind == 8 {
        parse_return(it)
    } else if kind == 9 {
        it.next();
        Ok(Node::Pass)
    } else if kind == 10 {
        let expr = parse_ml_expr(it)?;
        Ok(Node::Expr(Box::new(expr)))
    } else if kind == 11 {
        parse_assn(it)
    } else {
        Err(ParseErrorKind::UnexpectedEOF)
    }
}

/// Reads statements, each with the end of a statement after it, up to the token
/// `stop`, which is not read.
#[verifier::loop_isolation(false)]
pub fn parse_stmts(it: &mut ParseIter, stop: Token) -> (r: Result<Vec<Node>, ParseErrorKind>)
    ensures
        old(it).before(*final(it)),
        nodes_parsed(p_stmts(old(it).nodes(), old(it).at(), stop@, seq![]), r, *final(it)),
        r is Ok ==> next_is(final(it).nodes(), final(it).at(), stop@),
    decreases old(it).left(), 29nat,
{
    reveal(p_stmts);
    reveal(p_stmt);
    let ghost ts = it.nodes();
    let ghost goal = p_stmts(ts, it.at(), stop@, seq![]);
    let mut nodes: Vec<Node> = Vec::new();
    assert(node_views(nodes) =~= seq![]);
    while !peek_token(it, stop.copy())
        invariant
            old(it).before(*it),
            goal == p_stmts(ts, it.at(), stop@, node_views(nodes)),
        decreases it.left(),
    {
        let ghost seen = node_views(nodes);
        let stmt = parse_stmt(it)?;
        nodes.push(stmt);
        assert(node_views(nodes) =~= seen.push(stmt@));
        require_token(it, Token::End)?;
    }
    Ok(nodes)
}

/// Reads an indented block of statements.
pub fn parse_block(it: &mut ParseIter) -> (r: Result<Node, ParseErrorKind>)
    ensures
        old(it).before(*final(it)),
        node_parsed(p_block(old(it).nodes(), old(it).at()), r, *final(it)),
    decreases old(it).left(), 4nat,
{
    reveal(p_block);
    reveal(p_stmts);
    require_token(it, Token::Enter)?;
    let nodes = parse_stmts(it, Token::Exit)?;
    it.next();
    Ok(Node::Block(nodes))
}


} // verus!
