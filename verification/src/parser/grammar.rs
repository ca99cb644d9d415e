use vstd::prelude::*;
use crate::ast::NodeView;
use crate::ast::PlaceView;
use crate::ast::VarView;
use crate::error::ParseErrorView;
use crate::token::TokenView;

verus! {

/// How a binary operator binds: to the left or to the right, and how tightly.
#[derive(Debug, Clone, Copy, PartialEq, Eq, Structural)]
pub enum Op {
    Right(u32),
    Left(u32),
    /// No binary operator.
    NoOp,
}

/// What a parsing rule gives: a value or an error, and the position it stopped at.
pub struct Parsed<T> {
    pub res: Result<T, ParseErrorView>,
    pub pos: nat,
}

/// The token at a position, if there is one.
pub open spec fn tok(ts: Seq<TokenView>, pos: nat) -> Option<TokenView> {
    if pos < ts.len() {
        Some(ts[pos as int])
    } else {
        None
    }
}

/// Number of tokens from a position on.
pub open spec fn left(ts: Seq<TokenView>, pos: nat) -> nat {
    if pos < ts.len() {
        (ts.len() - pos) as nat
    } else {
        0
    }
}

/// A success.
pub open spec fn done<T>(value: T, pos: nat) -> Parsed<T> {
    Parsed { res: Ok(value), pos }
}

/// A failure.
pub open spec fn fail<T>(e: ParseErrorView, pos: nat) -> Parsed<T> {
    Parsed { res: Err(e), pos }
}

/// The failure at a position where no rule applies: the token there is unexpected, or
/// the input has ended.
pub open spec fn unexpected<T>(ts: Seq<TokenView>, pos: nat) -> Parsed<T> {
    match tok(ts, pos) {
        Some(t) => fail(ParseErrorView::UnexpectedToken(t), pos),
        None => fail(ParseErrorView::UnexpectedEOF, pos),
    }
}

/// The larger of a position and a lower bound for it.
pub open spec fn at_least(pos: nat, min: nat) -> nat {
    if pos < min {
        min
    } else {
        pos
    }
}

/// Whether the token at `pos` is `kind`.
pub open spec fn next_is(ts: Seq<TokenView>, pos: nat, kind: TokenView) -> bool {
    tok(ts, pos) == Some(kind)
}

/// The position after the token `kind`, which must stand at `pos`.
pub open spec fn require(ts: Seq<TokenView>, pos: nat, kind: TokenView) -> Parsed<()> {
    if next_is(ts, pos, kind) {
        done((), pos + 1)
    } else {
        unexpected(ts, pos)
    }
}

/// How a token binds as a binary operator.
pub open spec fn precedence(op: TokenView) -> Op {
    match op {
        TokenView::Dol => Op::Left(10),
        TokenView::Add => Op::Left(20),
        TokenView::Sub => Op::Left(20),
        TokenView::Div => Op::Left(30),
        TokenView::Mul => Op::Left(30),
        TokenView::Car => Op::Right(40),
        TokenView::Sup => Op::Right(50),
        _ => Op::NoOp,
    }
}

/// Whether a token is a prefix operator.
pub open spec fn is_prefix(t: TokenView) -> bool {
    t is Sub || t is Not || t is Neg || t is Mul || t is Dol
}

/// Whether a token is a comparison operator.
pub open spec fn is_comparison(t: TokenView) -> bool {
    t is Eql || t is Ne || t is Ge || t is Gt || t is Le || t is Lt
}

/// Whether a token is a logical operator.
pub open spec fn is_logic(t: TokenView) -> bool {
    t is And || t is Or
}

/// Whether the operator of the expression built so far keeps its operands when an
/// operator of the given binding follows.
pub open spec fn keeps_left(cur: Op, next: Op) -> bool {
    match (cur, next) {
        (Op::Left(n), Op::Left(m)) => n >= m,
        (Op::Right(n), Op::Right(m)) => n > m,
        (Op::Right(n), Op::Left(m)) => n >= m,
        (Op::Left(n), Op::Right(m)) => n >= m,
        _ => false,
    }
}

/// The expression that `expr op rhs` stands for, where `expr` is what was read so far
/// and `spine` the number of nodes down its right side that were built from operators
/// read before. The new operator goes down that side while it binds tighter than the
/// operator there, and takes what it finds as its left operand; operands that were
/// read whole, such as an expression in parentheses, are never taken apart.
pub open spec fn combine(expr: NodeView, op: TokenView, rhs: NodeView, spine: nat) -> NodeView
    decreases spine,
{
    if spine == 0 {
        NodeView::BinExpr { lhs: Box::new(expr), op, rhs: Box::new(rhs) }
    } else {
        match expr {
            NodeView::BinExpr { lhs: cur_lhs, op: cur_op, rhs: cur_rhs } => if keeps_left(
                precedence(cur_op),
                precedence(op),
            ) {
                NodeView::BinExpr { lhs: Box::new(expr), op, rhs: Box::new(rhs) }
            } else {
                NodeView::BinExpr {
                    lhs: cur_lhs,
                    op: cur_op,
                    rhs: Box::new(combine(*cur_rhs, op, rhs, (spine - 1) as nat)),
                }
            },
            _ => NodeView::BinExpr { lhs: Box::new(expr), op, rhs: Box::new(rhs) },
        }
    }
}

/// The number of nodes down the right side of `combine(expr, op, rhs, spine)` that are
/// built from operators: the nodes that the new operator went past, and its own.
pub open spec fn spine_after(expr: NodeView, op: TokenView, spine: nat) -> nat
    decreases spine,
{
    if spine == 0 {
        1
    } else {
        match expr {
            NodeView::BinExpr { lhs: cur_lhs, op: cur_op, rhs: cur_rhs } => if keeps_left(
                precedence(cur_op),
                precedence(op),
            ) {
                1
            } else {
                1 + spine_after(*cur_rhs, op, (spine - 1) as nat)
            },
            _ => 1,
        }
    }
}

/// A literal, a name or `local`.
pub open spec fn p_quark(ts: Seq<TokenView>, pos: nat) -> Parsed<NodeView> {
    match tok(ts, pos) {
        Some(TokenView::Null) => done(NodeView::Null, pos + 1),
        Some(TokenView::Bool(x)) => done(NodeView::Bool(x), pos + 1),
        Some(TokenView::Float(x)) => done(NodeView::Float(x), pos + 1),
        Some(TokenView::Int(x)) => done(NodeView::Int(x), pos + 1),
        Some(TokenView::Str(x)) => done(NodeView::Str(x), pos + 1),
        Some(TokenView::Name(x)) => done(NodeView::Name(x), pos + 1),
        Some(TokenView::Table) => done(NodeView::Name("table"@), pos + 1),
        Some(TokenView::Local) => done(NodeView::Local, pos + 1),
        _ => unexpected(ts, pos),
    }
}

/// A name, as the string that it spells.
pub open spec fn p_name_as_str(ts: Seq<TokenView>, pos: nat) -> Parsed<NodeView> {
    match tok(ts, pos) {
        Some(TokenView::Name(x)) => done(NodeView::Str(x), pos + 1),
        _ => unexpected(ts, pos),
    }
}

/// A name.
pub open spec fn p_name(ts: Seq<TokenView>, pos: nat) -> Parsed<NodeView> {
    match tok(ts, pos) {
        Some(TokenView::Name(x)) => done(NodeView::Name(x), pos + 1),
        _ => unexpected(ts, pos),
    }
}

/// Names separated by commas, as many as there are; a comma may follow the last.
#[verifier::opaque]
pub open spec fn p_fn_params(ts: Seq<TokenView>, pos: nat, params: Seq<Seq<char>>) -> Parsed<
    Seq<Seq<char>>,
>
    decreases left(ts, pos),
{
    match tok(ts, pos) {
        Some(TokenView::Name(x)) => if next_is(ts, pos + 1, TokenView::Com) {
            p_fn_params(ts, pos + 2, params.push(x))
        } else {
            done(params.push(x), pos + 1)
        },
        _ => done(params, pos),
    }
}

/// Number of dots from a position on.
#[verifier::opaque]
pub open spec fn dots(ts: Seq<TokenView>, pos: nat) -> nat
    decreases left(ts, pos),
{
    if next_is(ts, pos, TokenView::Dot) {
        1 + dots(ts, pos + 1)
    } else {
        0
    }
}

/// A function with its body on the following lines, a `catch` block, or an expression
/// on one line.
#[verifier::opaque]
pub open spec fn p_ml_expr(ts: Seq<TokenView>, pos: nat) -> Parsed<NodeView>
    decreases left(ts, pos), 22nat,
{
    match tok(ts, pos) {
        Some(TokenView::Func) => {
            let open = require(ts, pos + 1, TokenView::Pal);
            if open.res is Err {
                fail(open.res->Err_0, open.pos)
            } else {
                let params = p_fn_params(ts, pos + 2, seq![]);
                let close = require(ts, params.pos, TokenView::Par);
                if close.res is Err {
                    fail(close.res->Err_0, close.pos)
                } else {
                    let body = p_block(ts, at_least(close.pos, pos + 1));
                    match body.res {
                        Ok(b) => done(
                            NodeView::FuncDef { params: params.res->Ok_0, body: Box::new(b) },
                            body.pos,
                        ),
                        Err(e) => fail(e, body.pos),
                    }
                }
            }
        },
        Some(TokenView::Catch) => {
            let body = p_block(ts, pos + 1);
            match body.res {
                Ok(b) => done(NodeView::Catch { body: Box::new(b) }, body.pos),
                Err(e) => fail(e, body.pos),
            }
        },
        Some(_) => p_il_expr(ts, pos),
        None => fail(ParseErrorView::UnexpectedEOF, pos),
    }
}

/// A function written between bars with an expression as its body, or a logical
/// expression.
#[verifier::opaque]
pub open spec fn p_il_expr(ts: Seq<TokenView>, pos: nat) -> Parsed<NodeView>
    decreases left(ts, pos), 20nat,
{
    match tok(ts, pos) {
        Some(TokenView::Pipe) => {
            let params = p_fn_params(ts, pos + 1, seq![]);
            let close = require(ts, params.pos, TokenView::Pipe);
            if close.res is Err {
                fail(close.res->Err_0, close.pos)
            } else {
                let expr = p_il_expr(ts, at_least(close.pos, pos + 1));
                match expr.res {
                    Ok(x) => done(
                        NodeView::FuncDef {
                            params: params.res->Ok_0,
                            body: Box::new(NodeView::Return(Some(Box::new(x)))),
                        },
                        expr.pos,
                    ),
                    Err(e) => fail(e, expr.pos),
                }
            }
        },
        Some(_) => p_logic_expr(ts, pos),
        None => fail(ParseErrorView::UnexpectedEOF, pos),
    }
}

/// One chain of `and` and `or`, or a single comparison.
#[verifier::opaque]
pub open spec fn p_logic_expr(ts: Seq<TokenView>, pos: nat) -> Parsed<NodeView>
    decreases left(ts, pos), 19nat,
{
    let first = p_compare_expr(ts, pos);
    match first.res {
        Ok(x) => p_logic_loop(ts, at_least(first.pos, pos), seq![x], seq![]),
        Err(e) => fail(e, first.pos),
    }
}

/// The rest of a logical chain, after the operands and operators read so far.
#[verifier::opaque]
pub open spec fn p_logic_loop(
    ts: Seq<TokenView>,
    pos: nat,
    nodes: Seq<NodeView>,
    ops: Seq<TokenView>,
) -> Parsed<NodeView>
    decreases left(ts, pos), 18nat,
{
    match tok(ts, pos) {
        Some(t) => if is_logic(t) {
            let next = p_compare_expr(ts, pos + 1);
            match next.res {
                Ok(x) => p_logic_loop(ts, at_least(next.pos, pos + 1), nodes.push(x), ops.push(t)),
                Err(e) => fail(e, next.pos),
            }
        } else {
            done(chain_or_single(nodes, ops, true), pos)
        },
        None => done(chain_or_single(nodes, ops, true), pos),
    }
}

/// The node for a chain: its only operand if there is no operator, else the chain.
pub open spec fn chain_or_single(nodes: Seq<NodeView>, ops: Seq<TokenView>, logic: bool) -> NodeView {
    if ops.len() == 0 && nodes.len() > 0 {
        nodes[0]
    } else if logic {
        NodeView::LogicExpr { nodes, ops }
    } else {
        NodeView::CmpExpr { nodes, ops }
    }
}

/// One chain of comparisons, or a single arithmetic expression.
#[verifier::opaque]
pub open spec fn p_compare_expr(ts: Seq<TokenView>, pos: nat) -> Parsed<NodeView>
    decreases left(ts, pos), 17nat,
{
    let first = p_bin_expr(ts, pos);
    match first.res {
        Ok(x) => p_compare_loop(ts, at_least(first.pos, pos), seq![x], seq![]),
        Err(e) => fail(e, first.pos),
    }
}

/// The rest of a comparison chain, after the operands and operators read so far.
#[verifier::opaque]
pub open spec fn p_compare_loop(
    ts: Seq<TokenView>,
    pos: nat,
    nodes: Seq<NodeView>,
    ops: Seq<TokenView>,
) -> Parsed<NodeView>
    decreases left(ts, pos), 16nat,
{
    match tok(ts, pos) {
        Some(t) => if is_comparison(t) {
            let next = p_bin_expr(ts, pos + 1);
            match next.res {
                Ok(x) => p_compare_loop(
                    ts,
                    at_least(next.pos, pos + 1),
                    nodes.push(x),
                    ops.push(t),
                ),
                Err(e) => fail(e, next.pos),
            }
        } else {
            done(chain_or_single(nodes, ops, false), pos)
        },
        None => done(chain_or_single(nodes, ops, false), pos),
    }
}

/// Operands joined by binary operators.
#[verifier::opaque]
pub open spec fn p_bin_expr(ts: Seq<TokenView>, pos: nat) -> Parsed<NodeView>
    decreases left(ts, pos), 15nat,
{
    let first = p_un_expr(ts, pos);
    match first.res {
        Ok(x) => p_bin_loop(ts, at_least(first.pos, pos), x, 0),
        Err(e) => fail(e, first.pos),
    }
}

/// The rest of a binary expression, after the expression read so far, whose right side
/// holds `spine` nodes built from operators.
#[verifier::opaque]
pub open spec fn p_bin_loop(ts: Seq<TokenView>, pos: nat, expr: NodeView, spine: nat) -> Parsed<
    NodeView,
>
    decreases left(ts, pos), 14nat,
{
    match tok(ts, pos) {
        Some(t) => if precedence(t) is NoOp {
            done(expr, pos)
        } else {
            let next = p_un_expr(ts, pos + 1);
            match next.res {
                Ok(rhs) => p_bin_loop(
                    ts,
                    at_least(next.pos, pos + 1),
                    combine(expr, t, rhs, spine),
                    spine_after(expr, t, spine),
                ),
                Err(e) => fail(e, next.pos),
            }
        },
        None => done(expr, pos),
    }
}

/// Prefix operators before a super reference or a simple expression.
#[verifier::opaque]
pub open spec fn p_un_expr(ts: Seq<TokenView>, pos: nat) -> Parsed<NodeView>
    decreases left(ts, pos), 13nat,
{
    match tok(ts, pos) {
        Some(t) => if is_prefix(t) {
            let val = p_un_expr(ts, pos + 1);
            match val.res {
                Ok(v) => done(NodeView::UnExpr { val: Box::new(v), op: t }, val.pos),
                Err(e) => fail(e, val.pos),
            }
        } else {
            p_super(ts, pos)
        },
        None => fail(ParseErrorView::UnexpectedEOF, pos),
    }
}

/// Dots and a name: the name, looked up as many scopes up as there are dots; or a
/// simple expression.
#[verifier::opaque]
pub open spec fn p_super(ts: Seq<TokenView>, pos: nat) -> Parsed<NodeView>
    decreases left(ts, pos), 12nat,
{
    match tok(ts, pos) {
        Some(TokenView::Dot) => {
            let name = p_name_as_str(ts, pos + dots(ts, pos));
            match name.res {
                Ok(x) => done(NodeView::Super(dots(ts, pos) as usize, Box::new(x)), name.pos),
                Err(e) => fail(e, name.pos),
            }
        },
        Some(_) => p_simple(ts, pos),
        None => fail(ParseErrorView::UnexpectedEOF, pos),
    }
}

/// An atom followed by any number of member accesses, indexings and calls.
#[verifier::opaque]
pub open spec fn p_simple(ts: Seq<TokenView>, pos: nat) -> Parsed<NodeView>
    decreases left(ts, pos), 11nat,
{
    let first = p_atom(ts, pos);
    match first.res {
        Ok(x) => p_simple_loop(ts, at_least(first.pos, pos), x),
        Err(e) => fail(e, first.pos),
    }
}

/// The member accesses, indexings and calls that follow the expression read so far.
#[verifier::opaque]
pub open spec fn p_simple_loop(ts: Seq<TokenView>, pos: nat, atom: NodeView) -> Parsed<NodeView>
    decreases left(ts, pos), 10nat,
{
    match tok(ts, pos) {
        Some(TokenView::Col) => {
            let method = p_name_as_str(ts, pos + 1);
            match method.res {
                Ok(m) => {
                    let args = p_fn_args(ts, at_least(method.pos, pos + 1));
                    match args.res {
                        Ok(a) => p_simple_loop(
                            ts,
                            at_least(args.pos, pos + 1),
                            NodeView::MethodCall {
                                owner: Box::new(atom),
                                method: Box::new(m),
                                args: a,
                            },
                        ),
                        Err(e) => fail(e, args.pos),
                    }
                },
                Err(e) => fail(e, method.pos),
            }
        },
        Some(TokenView::Pal) => {
            let args = p_fn_args(ts, pos);
            match args.res {
                Ok(a) => p_simple_loop(
                    ts,
                    at_least(args.pos, pos + 1),
                    NodeView::FuncCall { func: Box::new(atom), args: a },
                ),
                Err(e) => fail(e, args.pos),
            }
        },
        Some(TokenView::Sql) => {
            let idx = p_logic_expr(ts, pos + 1);
            match idx.res {
                Ok(i) => {
                    let close = require(ts, idx.pos, TokenView::Sqr);
                    if close.res is Err {
                        fail(close.res->Err_0, close.pos)
                    } else {
                        p_simple_loop(
                            ts,
                            at_least(close.pos, pos + 1),
                            NodeView::Index { lhs: Box::new(atom), rhs: Box::new(i) },
                        )
                    }
                },
                Err(e) => fail(e, idx.pos),
            }
        },
        Some(TokenView::Dot) => {
            let idx = p_name_as_str(ts, pos + 1);
            match idx.res {
                Ok(i) => p_simple_loop(
                    ts,
                    at_least(idx.pos, pos + 1),
                    NodeView::Index { lhs: Box::new(atom), rhs: Box::new(i) },
                ),
                Err(e) => fail(e, idx.pos),
            }
        },
        _ => done(atom, pos),
    }
}

/// The arguments of a call, between parentheses.
#[verifier::opaque]
pub open spec fn p_fn_args(ts: Seq<TokenView>, pos: nat) -> Parsed<Seq<NodeView>>
    decreases left(ts, pos), 9nat,
{
    let open = require(ts, pos, TokenView::Pal);
    if open.res is Err {
        fail(open.res->Err_0, open.pos)
    } else {
        p_args_loop(ts, pos + 1, seq![])
    }
}

/// The arguments that follow those read so far, and the closing parenthesis.
#[verifier::opaque]
pub open spec fn p_args_loop(ts: Seq<TokenView>, pos: nat, args: Seq<NodeView>) -> Parsed<
    Seq<NodeView>,
>
    decreases left(ts, pos), 21nat,
{
    if next_is(ts, pos, TokenView::Par) {
        done(args, pos + 1)
    } else if pos >= ts.len() {
        fail(ParseErrorView::UnexpectedEOF, pos)
    } else {
        let arg = p_il_expr(ts, pos);
        match arg.res {
            Ok(a) => if next_is(ts, arg.pos, TokenView::Com) {
                p_args_loop(ts, at_least(arg.pos, pos) + 1, args.push(a))
            } else {
                let close = require(ts, arg.pos, TokenView::Par);
                if close.res is Err {
                    fail(close.res->Err_0, close.pos)
                } else {
                    done(args.push(a), close.pos)
                }
            },
            Err(e) => fail(e, arg.pos),
        }
    }
}

/// An expression in parentheses, or a quark.
#[verifier::opaque]
pub open spec fn p_atom(ts: Seq<TokenView>, pos: nat) -> Parsed<NodeView>
    decreases left(ts, pos), 8nat,
{
    match tok(ts, pos) {
        Some(TokenView::Pal) => {
            let inner = p_logic_expr(ts, pos + 1);
            match inner.res {
                Ok(x) => {
                    let close = require(ts, inner.pos, TokenView::Par);
                    if close.res is Err {
                        fail(close.res->Err_0, close.pos)
                    } else {
                        done(x, close.pos)
                    }
                },
                Err(e) => fail(e, inner.pos),
            }
        },
        Some(_) => p_quark(ts, pos),
        None => fail(ParseErrorView::UnexpectedEOF, pos),
    }
}

/// The names that a `for` binds: one name, or a list of such in brackets.
#[verifier::opaque]
pub open spec fn p_decl(ts: Seq<TokenView>, pos: nat) -> Parsed<VarView>
    decreases left(ts, pos), 23nat,
{
    match tok(ts, pos) {
        Some(TokenView::Sql) => p_decl_loop(ts, pos + 1, seq![]),
        Some(TokenView::Name(x)) => done(VarView::Single(x), pos + 1),
        _ => unexpected(ts, pos),
    }
}

/// The pieces of a bracketed list of names that follow those read so far, and the
/// closing bracket. A comma may follow the last piece.
#[verifier::opaque]
pub open spec fn p_decl_loop(ts: Seq<TokenView>, pos: nat, pieces: Seq<VarView>) -> Parsed<VarView>
    decreases left(ts, pos), 24nat,
{
    if pos >= ts.len() {
        fail(ParseErrorView::UnexpectedEOF, pos)
    } else {
        let piece = p_decl(ts, pos);
        match piece.res {
            Ok(p) => {
                let after = at_least(piece.pos, pos);
                if next_is(ts, after, TokenView::Com) && !next_is(ts, after + 1, TokenView::Sqr) {
                    p_decl_loop(ts, after + 1, pieces.push(p))
                } else {
                    let end = if next_is(ts, after, TokenView::Com) {
                        after + 1
                    } else {
                        after
                    };
                    let close = require(ts, end, TokenView::Sqr);
                    if close.res is Err {
                        fail(close.res->Err_0, close.pos)
                    } else {
                        done(VarView::Multi(pieces.push(p)), close.pos)
                    }
                }
            },
            Err(e) => fail(e, piece.pos),
        }
    }
}

/// The target of an assignment: an expression, or a list of targets in brackets.
#[verifier::opaque]
pub open spec fn p_place(ts: Seq<TokenView>, pos: nat) -> Parsed<PlaceView>
    decreases left(ts, pos), 25nat,
{
    match tok(ts, pos) {
        Some(TokenView::Sql) => p_place_loop(ts, pos + 1, seq![]),
        Some(_) => {
            let node = p_il_expr(ts, pos);
            match node.res {
                Ok(n) => done(PlaceView::Single(Box::new(n)), node.pos),
                Err(e) => fail(e, node.pos),
            }
        },
        None => fail(ParseErrorView::UnexpectedEOF, pos),
    }
}

/// The pieces of a bracketed list of targets that follow those read so far, and the
/// closing bracket. A comma may follow the last piece.
#[verifier::opaque]
pub open spec fn p_place_loop(ts: Seq<TokenView>, pos: nat, pieces: Seq<PlaceView>) -> Parsed<
    PlaceView,
>
    decreases left(ts, pos), 26nat,
{
    if pos >= ts.len() {
        fail(ParseErrorView::UnexpectedEOF, pos)
    } else {
        let piece = p_place(ts, pos);
        match piece.res {
            Ok(p) => {
                let after = at_least(piece.pos, pos);
                if next_is(ts, after, TokenView::Com) && !next_is(ts, after + 1, TokenView::Sqr) {
                    p_place_loop(ts, after + 1, pieces.push(p))
                } else {
                    let end = if next_is(ts, after, TokenView::Com) {
                        after + 1
                    } else {
                        after
                    };
                    let close = require(ts, end, TokenView::Sqr);
                    if close.res is Err {
                        fail(close.res->Err_0, close.pos)
                    } else {
                        done(PlaceView::Multi(pieces.push(p)), close.pos)
                    }
                }
            },
            Err(e) => fail(e, piece.pos),
        }
    }
}

/// An assignment, or an expression used as a statement.
#[verifier::opaque]
pub open spec fn p_assn(ts: Seq<TokenView>, pos: nat) -> Parsed<NodeView>
    decreases left(ts, pos), 27nat,
{
    let place = p_place(ts, pos);
    match place.res {
        Ok(target) => match tok(ts, place.pos) {
            Some(TokenView::Ass) => {
                let rhs = p_ml_expr(ts, at_least(place.pos, pos) + 1);
                match rhs.res {
                    Ok(r) => done(NodeView::Assn { lhs: target, rhs: Box::new(r) }, rhs.pos),
                    Err(e) => fail(e, rhs.pos),
                }
            },
            Some(_) => match target {
                PlaceView::Single(node) => done(NodeView::Expr(node), place.pos),
                PlaceView::Multi(_) => fail(ParseErrorView::UnusedPlaces, place.pos),
            },
            None => fail(ParseErrorView::UnexpectedEOF, place.pos),
        },
        Err(e) => fail(e, place.pos),
    }
}

/// A condition and the block that it guards.
#[verifier::opaque]
pub open spec fn p_guarded(ts: Seq<TokenView>, pos: nat, start: nat, inline: bool) -> Parsed<
    (NodeView, NodeView),
>
    decreases left(ts, start), 3nat,
{
    if pos <= start || start >= ts.len() {
        fail(ParseErrorView::UnexpectedEOF, pos)
    } else {
        let cond = if inline {
            p_il_expr(ts, pos)
        } else {
            p_logic_expr(ts, pos)
        };
        match cond.res {
            Ok(c) => {
                let body = p_block(ts, at_least(cond.pos, pos));
                match body.res {
                    Ok(b) => done((c, b), body.pos),
                    Err(e) => fail(e, body.pos),
                }
            },
            Err(e) => fail(e, cond.pos),
        }
    }
}

/// One statement.
#[verifier::opaque]
pub open spec fn p_stmt(ts: Seq<TokenView>, pos: nat) -> Parsed<NodeView>
    decreases left(ts, pos), 28nat,
{
    match tok(ts, pos) {
        Some(TokenView::Break) => done(NodeView::Break, pos + 1),
        Some(TokenView::Continue) => done(NodeView::Continue, pos + 1),
        Some(TokenView::Pass) => done(NodeView::Pass, pos + 1),
        Some(TokenView::If) => {
            let parts = p_guarded(ts, pos + 1, pos, false);
            match parts.res {
                Ok(p) => done(
                    NodeView::If { cond: Box::new(p.0), body: Box::new(p.1), els: None },
                    parts.pos,
                ),
                Err(e) => fail(e, parts.pos),
            }
        },
        Some(TokenView::Else) => if next_is(ts, pos + 1, TokenView::If) {
            let parts = p_guarded(ts, pos + 2, pos, false);
            match parts.res {
                Ok(p) => done(
                    NodeView::ElseIf { cond: Box::new(p.0), body: Box::new(p.1) },
                    parts.pos,
                ),
                Err(e) => fail(e, parts.pos),
            }
        } else {
            let body = p_block(ts, pos + 1);
            match body.res {
                Ok(b) => done(NodeView::Else { body: Box::new(b) }, body.pos),
                Err(e) => fail(e, body.pos),
            }
        },
        Some(TokenView::For) => {
            let decl = p_decl(ts, pos + 1);
            match decl.res {
                Ok(d) => {
                    let word = require(ts, decl.pos, TokenView::In);
                    if word.res is Err {
                        fail(word.res->Err_0, word.pos)
                    } else {
                        let parts = p_guarded(ts, at_least(word.pos, pos + 1), pos, true);
                        match parts.res {
                            Ok(p) => done(
                                NodeView::For {
                                    decl: d,
                                    expr: Box::new(p.0),
                                    body: Box::new(p.1),
                                },
                                parts.pos,
                            ),
                            Err(e) => fail(e, parts.pos),
                        }
                    }
                },
                Err(e) => fail(e, decl.pos),
            }
        },
        Some(TokenView::While) => {
            let parts = p_guarded(ts, pos + 1, pos, true);
            match parts.res {
                Ok(p) => done(
                    NodeView::While { expr: Box::new(p.0), body: Box::new(p.1) },
                    parts.pos,
                ),
                Err(e) => fail(e, parts.pos),
            }
        },
        Some(TokenView::Loop) => {
            let body = p_block(ts, pos + 1);
            match body.res {
                Ok(b) => done(NodeView::Loop { body: Box::new(b) }, body.pos),
                Err(e) => fail(e, body.pos),
            }
        },
        Some(TokenView::Return) => if next_is(ts, pos + 1, TokenView::End) {
            done(NodeView::Return(None), pos + 1)
        } else {
            let val = p_ml_expr(ts, pos + 1);
            match val.res {
                Ok(v) => done(NodeView::Return(Some(Box::new(v))), val.pos),
                Err(e) => fail(e, val.pos),
            }
        },
        Some(TokenView::Func) => {
            let expr = p_ml_expr(ts, pos);
            match expr.res {
                Ok(x) => done(NodeView::Expr(Box::new(x)), expr.pos),
                Err(e) => fail(e, expr.pos),
            }
        },
        Some(TokenView::Catch) => {
            let expr = p_ml_expr(ts, pos);
            match expr.res {
                Ok(x) => done(NodeView::Expr(Box::new(x)), expr.pos),
                Err(e) => fail(e, expr.pos),
            }
        },
        Some(_) => p_assn(ts, pos),
        None => fail(ParseErrorView::UnexpectedEOF, pos),
    }
}

/// The statements that follow those read so far, each with the end of a statement
/// after it, up to the token `stop`, which is not read.
#[verifier::opaque]
pub open spec fn p_stmts(ts: Seq<TokenView>, pos: nat, stop: TokenView, nodes: Seq<NodeView>) -> Parsed<
    Seq<NodeView>,
>
    decreases left(ts, pos), 29nat,
{
    if next_is(ts, pos, stop) {
        done(nodes, pos)
    } else if pos >= ts.len() {
        fail(ParseErrorView::UnexpectedEOF, pos)
    } else {
        let stmt = p_stmt(ts, pos);
        match stmt.res {
            Ok(s) => {
                let end = require(ts, stmt.pos, TokenView::End);
                if end.res is Err {
                    fail(end.res->Err_0, end.pos)
                } else {
                    p_stmts(ts, at_least(stmt.pos, pos) + 1, stop, nodes.push(s))
                }
            },
            Err(e) => fail(e, stmt.pos),
        }
    }
}

/// An indented block of statements.
#[verifier::opaque]
pub open spec fn p_block(ts: Seq<TokenView>, pos: nat) -> Parsed<NodeView>
    decreases left(ts, pos), 4nat,
{
    let open = require(ts, pos, TokenView::Enter);
    if open.res is Err {
        fail(open.res->Err_0, open.pos)
    } else {
        let stmts = p_stmts(ts, pos + 1, TokenView::Exit, seq![]);
        match stmts.res {
            Ok(nodes) => done(NodeView::Block(nodes), stmts.pos + 1),
            Err(e) => fail(e, stmts.pos),
        }
    }
}

/// A whole program: statements up to the end of the input.
pub open spec fn p_program(ts: Seq<TokenView>) -> Result<NodeView, ParseErrorView> {
    match p_stmts(ts, 0, TokenView::EOF, seq![]).res {
        Ok(nodes) => Ok(NodeView::Block(nodes)),
        Err(e) => Err(e),
    }
}

} // verus!
