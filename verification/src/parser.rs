use vstd::prelude::*;
use vstd::string::*;
pub use crate::ast::Node;
pub use crate::ast::NodeView;
pub use crate::ast::Place;
pub use crate::ast::PlaceView;
pub use crate::ast::Var;
pub use crate::ast::VarView;
use crate::ast::node_views;
use crate::ast::string_views;
pub use crate::error::ParseErrorKind;
pub use crate::error::ParseErrorView;
pub use crate::parser::grammar::Op;
use crate::parser::grammar::Parsed;
use crate::parser::grammar::left;
use crate::parser::grammar::next_is;
use crate::parser::grammar::p_fn_params;
use crate::parser::grammar::p_name;
use crate::parser::grammar::p_name_as_str;
use crate::parser::grammar::p_program;
use crate::parser::grammar::p_quark;
use crate::parser::grammar::p_stmts;
use crate::parser::grammar::precedence;
use crate::parser::grammar::require;
use crate::parser::grammar::tok;
use crate::parser::grammar::unexpected;
use crate::span::Span;
use crate::span::Spanned;
use crate::span::nodes_of;
use crate::span::spanned_views;
use crate::token::Token;
use crate::token::TokenView;

pub mod args;
pub mod atom;
pub mod binary;
pub mod compare;
pub mod expr;
pub mod grammar;
pub mod join;
pub mod laws;
pub mod logic;
pub mod operand;
pub mod postfix;
pub mod simple;
pub mod stmt;
pub mod unary;

pub use crate::parser::atom::parse_atom;
pub use crate::parser::binary::parse_bin_expr;
pub use crate::parser::compare::parse_cmp_expr;
pub use crate::parser::args::parse_fn_args;
pub use crate::parser::expr::parse_il_expr;
pub use crate::parser::logic::parse_logic_expr;
pub use crate::parser::expr::parse_ml_expr;
pub use crate::parser::simple::parse_simple;
pub use crate::parser::unary::parse_super;
pub use crate::parser::unary::parse_un_expr;
pub use crate::parser::stmt::parse_assn;
pub use crate::parser::stmt::parse_block;
pub use crate::parser::stmt::parse_decl;
pub use crate::parser::stmt::parse_place;
pub use crate::parser::stmt::parse_stmt;
use crate::parser::stmt::parse_stmts;

verus! {

/// A position in a sequence of tokens.
pub struct ParseIter {
    pub tokens: Vec<Spanned>,
    /// Index of the next token.
    pub pos: usize,
}

/// Whether a result is the one that a rule gives, by value.
pub open spec fn node_parsed(
    rule: Parsed<NodeView>,
    r: Result<Node, ParseErrorKind>,
    it: ParseIter,
) -> bool {
    rule.pos == it.at() && match (rule.res, r) {
        (Ok(v), Ok(n)) => n@ == v,
        (Err(e), Err(k)) => k@ == e,
        _ => false,
    }
}

/// Whether a list of nodes is the one that a rule gives, by value.
pub open spec fn nodes_parsed(
    rule: Parsed<Seq<NodeView>>,
    r: Result<Vec<Node>, ParseErrorKind>,
    it: ParseIter,
) -> bool {
    rule.pos == it.at() && match (rule.res, r) {
        (Ok(v), Ok(n)) => node_views(n) == v,
        (Err(e), Err(k)) => k@ == e,
        _ => false,
    }
}

/// Whether a list of names is the one that a rule gives, by value.
pub open spec fn names_parsed(
    rule: Parsed<Seq<Seq<char>>>,
    r: Result<Vec<String>, ParseErrorKind>,
    it: ParseIter,
) -> bool {
    rule.pos == it.at() && match (rule.res, r) {
        (Ok(v), Ok(n)) => string_views(n@) == v,
        (Err(e), Err(k)) => k@ == e,
        _ => false,
    }
}

/// Whether a binding is the one that a rule gives, by value.
pub open spec fn var_parsed(rule: Parsed<VarView>, r: Result<Var, ParseErrorKind>, it: ParseIter) -> bool {
    rule.pos == it.at() && match (rule.res, r) {
        (Ok(v), Ok(n)) => n@ == v,
        (Err(e), Err(k)) => k@ == e,
        _ => false,
    }
}

/// Whether a target is the one that a rule gives, by value.
pub open spec fn place_parsed(
    rule: Parsed<PlaceView>,
    r: Result<Place, ParseErrorKind>,
    it: ParseIter,
) -> bool {
    rule.pos == it.at() && match (rule.res, r) {
        (Ok(v), Ok(n)) => n@ == v,
        (Err(e), Err(k)) => k@ == e,
        _ => false,
    }
}

/// Whether a span is given exactly where a rule succeeds.
pub open spec fn unit_parsed(rule: Parsed<()>, r: Result<Span, ParseErrorKind>, it: ParseIter) -> bool {
    rule.pos == it.at() && match (rule.res, r) {
        (Ok(_), Ok(_)) => true,
        (Err(e), Err(k)) => k@ == e,
        _ => false,
    }
}

/// The tokens of a vector, without their spans.
#[verifier::opaque]
pub open spec fn stream(tokens: Vec<Spanned>) -> Seq<TokenView> {
    nodes_of(spanned_views(tokens@))
}

impl ParseIter {
    /// The tokens, without their spans.
    pub open spec fn nodes(&self) -> Seq<TokenView> {
        stream(self.tokens)
    }

    /// The position.
    pub open spec fn at(&self) -> nat {
        self.pos as nat
    }

    /// Number of tokens not yet read.
    pub open spec fn left(&self) -> nat {
        if self.pos < self.tokens.len() {
            (self.tokens.len() - self.pos) as nat
        } else {
            0
        }
    }

    /// Whether `other` reads the same tokens, at this position or after it.
    pub open spec fn before(&self, other: ParseIter) -> bool {
        self.tokens == other.tokens && self.pos <= other.pos
    }

    /// A position at the first of the tokens.
    pub fn new(tokens: Vec<Spanned>) -> (it: ParseIter)
        ensures
            it.tokens == tokens,
            it.pos == 0,
    {
        ParseIter { tokens, pos: 0 }
    }

    /// The next token, if there is one.
    pub fn peek(&self) -> (r: Option<&Token>)
        ensures
            match r {
                Some(t) => tok(self.nodes(), self.at()) == Some(t@) && self.pos < self.tokens.len(),
                None => tok(self.nodes(), self.at()) is None && self.pos >= self.tokens.len(),
            },
    {
        reveal(stream);
        if self.pos < self.tokens.len() {
            Some(&self.tokens[self.pos].node)
        } else {
            None
        }
    }

    /// Steps over the next token, if there is one.
    pub fn next(&mut self)
        ensures
            final(self).tokens == old(self).tokens,
            final(self).at() == (if tok(old(self).nodes(), old(self).at()) is Some {
                old(self).at() + 1
            } else {
                old(self).at()
            }),
            tok(old(self).nodes(), old(self).at()) is Some <==> old(self).pos < old(
                self,
            ).tokens.len(),
    {
        reveal(stream);
        if self.pos < self.tokens.len() {
            self.pos = self.pos + 1;
        }
    }

    /// The span of the next token.
    fn span(&self) -> (r: Span)
        requires
            self.pos < self.tokens.len(),
        ensures
            r == self.tokens@[self.pos as int].span,
    {
        self.tokens[self.pos].span
    }
}

/// Whether the next token is `kind`.
pub fn peek_token(it: &ParseIter, kind: Token) -> (r: bool)
    ensures
        r == next_is(it.nodes(), it.at(), kind@),
{
    match it.peek() {
        Some(t) => t.same(&kind),
        None => false,
    }
}

/// Whether the next token is `kind`; steps over it if it is.
pub fn use_token(it: &mut ParseIter, kind: Token) -> (r: bool)
    ensures
        old(it).before(*final(it)),
        r == next_is(old(it).nodes(), old(it).at(), kind@),
        final(it).at() == (if r {
            old(it).at() + 1
        } else {
            old(it).at()
        }),
        r ==> old(it).pos < old(it).tokens.len(),
{
    if peek_token(it, kind) {
        it.next();
        true
    } else {
        false
    }
}

/// Steps over the next token, which must be `kind`, and gives its span.
pub fn require_token(it: &mut ParseIter, kind: Token) -> (r: Result<Span, ParseErrorKind>)
    ensures
        old(it).before(*final(it)),
        unit_parsed(require(old(it).nodes(), old(it).at(), kind@), r, *final(it)),
        r is Ok ==> old(it).pos < old(it).tokens.len(),
        r is Ok ==> r->Ok_0 == old(it).tokens@[old(it).pos as int].span,
{
    match it.peek() {
        Some(t) => {
            if t.same(&kind) {
                let span = it.span();
                it.next();
                Ok(span)
            } else {
                Err(ParseErrorKind::UnexpectedToken(t.copy()))
            }
        },
        None => Err(ParseErrorKind::UnexpectedEOF),
    }
}

/// The error for a token that no rule accepts, or for the end of the input.
pub fn unexpected_here(it: &ParseIter) -> (e: ParseErrorKind)
    ensures
        unexpected::<NodeView>(it.nodes(), it.at()).res == Err::<NodeView, ParseErrorView>(e@),
        unexpected::<VarView>(it.nodes(), it.at()).res == Err::<VarView, ParseErrorView>(e@),
{
    match it.peek() {
        Some(t) => ParseErrorKind::UnexpectedToken(t.copy()),
        None => ParseErrorKind::UnexpectedEOF,
    }
}

/// How a token binds as a binary operator.
pub fn op_precedence(op: &Token) -> (r: Op)
    ensures
        r == precedence(op@),
{
    match op {
        Token::Dol => Op::Left(10),
        Token::Add => Op::Left(20),
        Token::Sub => Op::Left(20),
        Token::Div => Op::Left(30),
        Token::Mul => Op::Left(30),
        Token::Car => Op::Right(40),
        Token::Sup => Op::Right(50),
        _ => Op::NoOp,
    }
}

/// Reads a literal, a name or `local`.
pub fn parse_quark(it: &mut ParseIter) -> (r: Result<Node, ParseErrorKind>)
    ensures
        old(it).before(*final(it)),
        node_parsed(p_quark(old(it).nodes(), old(it).at()), r, *final(it)),
{
    let node = match it.peek() {
        Some(Token::Null) => Node::Null,
        Some(Token::Bool(x)) => Node::Bool(*x),
        Some(Token::Float(x)) => Node::Float(*x),
        Some(Token::Int(x)) => Node::Int(*x),
        Some(Token::Str(x)) => Node::Str(x.clone()),
        Some(Token::Name(x)) => Node::Name(x.clone()),
        Some(Token::Table) => Node::Name(String::from_str("table")),
        Some(Token::Local) => Node::Local,
        _ => {
            return Err(unexpected_here(it));
        },
    };
    it.next();
    Ok(node)
}

/// Reads a name, as the string that it spells.
pub fn parse_name_as_str(it: &mut ParseIter) -> (r: Result<Node, ParseErrorKind>)
    ensures
        old(it).before(*final(it)),
        node_parsed(p_name_as_str(old(it).nodes(), old(it).at()), r, *final(it)),
{
    let node = match it.peek() {
        Some(Token::Name(x)) => Node::Str(x.clone()),
        _ => {
            return Err(unexpected_here(it));
        },
    };
    it.next();
    Ok(node)
}

/// Reads a name.
pub fn parse_name(it: &mut ParseIter) -> (r: Result<Node, ParseErrorKind>)
    ensures
        old(it).before(*final(it)),
        node_parsed(p_name(old(it).nodes(), old(it).at()), r, *final(it)),
{
    let node = match it.peek() {
        Some(Token::Name(x)) => Node::Name(x.clone()),
        _ => {
            return Err(unexpected_here(it));
        },
    };
    it.next();
    Ok(node)
}

/// The name that the next token is, if it is one.
pub fn peek_name(it: &ParseIter) -> (r: Option<String>)
    ensures
        match r {
            Some(s) => tok(it.nodes(), it.at()) == Some(TokenView::Name(s@)),
            None => !(tok(it.nodes(), it.at()) is Some && tok(it.nodes(), it.at())->Some_0 is Name),
        },
{
    match it.peek() {
        Some(Token::Name(x)) => Some(x.clone()),
        _ => None,
    }
}

/// Reads the names of parameters, separated by commas.
pub fn parse_fn_params(it: &mut ParseIter) -> (r: Result<Vec<String>, ParseErrorKind>)
    ensures
        old(it).before(*final(it)),
        names_parsed(p_fn_params(old(it).nodes(), old(it).at(), seq![]), r, *final(it)),
        r is Ok,
{
    reveal(p_fn_params);
    let mut params: Vec<String> = Vec::new();
    let ghost ts = it.nodes();
    let ghost goal = p_fn_params(ts, it.at(), seq![]);
    assert(string_views(params@) =~= seq![]);
    let mut more = true;
    while more
        invariant
            old(it).before(*it),
            ts == it.nodes(),
            more ==> goal == p_fn_params(ts, it.at(), string_views(params@)),
            !more ==> goal == (Parsed { res: Ok(string_views(params@)), pos: it.at() }),
        decreases it.left(), (if more { 1nat } else { 0nat }),
    {
            reveal(p_fn_params);
        let ghost before = string_views(params@);
        match peek_name(it) {
            Some(x) => {
                it.next();
                params.push(x);
                assert(string_views(params@) =~= before.push(x@));
                if !use_token(it, Token::Com) {
                    more = false;
                }
            },
            None => {
                more = false;
            },
        }
    }
    Ok(params)
}

/// Reads a whole program: statements up to the end of the input.
pub fn parse(tokens: Vec<Spanned>) -> (r: Result<Node, ParseErrorKind>)
    ensures
        match (p_program(nodes_of(spanned_views(tokens@))), r) {
            (Ok(v), Ok(n)) => n@ == v,
            (Err(e), Err(k)) => k@ == e,
            _ => false,
        },
{
    reveal(p_stmts);
    reveal(stream);
    let mut it = ParseIter::new(tokens);
    let nodes = parse_stmts(&mut it, Token::EOF)?;
    Ok(Node::Block(nodes))
}

} // verus!
