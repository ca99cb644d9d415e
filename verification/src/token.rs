use vstd::prelude::*;
use crate::float::Float;

verus! {

/// A lexical token.
#[derive(Debug, Clone, PartialEq, Eq)]
pub enum Token {
    /// End of input.
    EOF,
    /// Start of an indented block.
    Enter,
    /// End of an indented block.
    Exit,
    /// Blank input; never emitted.
    Space,
    /// End of a statement.
    End,
    /// A tab character; no grammar rule accepts it.
    Tab,
    Comment(String),
    Null,
    Bool(bool),
    Float(Float),
    Int(i64),
    Str(String),
    Name(String),
    UnclosedStr(String),
    And,
    Break,
    Catch,
    Continue,
    Else,
    Local,
    For,
    Func,
    If,
    In,
    Loop,
    Or,
    Pass,
    Return,
    Save,
    Table,
    Var,
    While,
    /// `->`
    Arr,
    /// `=`
    Ass,
    /// `:`
    Col,
    /// `,`
    Com,
    /// `.`
    Dot,
    /// `::`
    Sup,
    /// `;`
    Sem,
    /// `{`
    Cul,
    /// `}`
    Cur,
    /// `(`
    Pal,
    /// `)`
    Par,
    /// `[`
    Sql,
    /// `]`
    Sqr,
    /// `+`
    Add,
    /// `&`
    Amp,
    /// `@`
    At,
    /// `^`
    Car,
    /// `/`
    Div,
    /// `$`, the concatenation operator
    Dol,
    /// `*`
    Mul,
    /// `~`
    Neg,
    /// `!`
    Not,
    /// `%`
    Pct,
    /// `|`
    Pipe,
    /// `-`
    Sub,
    /// `==`
    Eql,
    /// `>=`
    Ge,
    /// `>`
    Gt,
    /// `<=`
    Le,
    /// `<`
    Lt,
    /// `!=`
    Ne,
}

/// The mathematical value of a [`Token`]: the same variants over sequences of characters.
pub enum TokenView {
    EOF,
    Enter,
    Exit,
    Space,
    End,
    Tab,
    Comment(Seq<char>),
    Null,
    Bool(bool),
    Float(Float),
    Int(i64),
    Str(Seq<char>),
    Name(Seq<char>),
    UnclosedStr(Seq<char>),
    And,
    Break,
    Catch,
    Continue,
    Else,
    Local,
    For,
    Func,
    If,
    In,
    Loop,
    Or,
    Pass,
    Return,
    Save,
    Table,
    Var,
    While,
    Arr,
    Ass,
    Col,
    Com,
    Dot,
    Sup,
    Sem,
    Cul,
    Cur,
    Pal,
    Par,
    Sql,
    Sqr,
    Add,
    Amp,
    At,
    Car,
    Div,
    Dol,
    Mul,
    Neg,
    Not,
    Pct,
    Pipe,
    Sub,
    Eql,
    Ge,
    Gt,
    Le,
    Lt,
    Ne,
}

impl View for Token {
    type V = TokenView;

    open spec fn view(&self) -> TokenView {
        match self {
            Token::EOF => TokenView::EOF,
            Token::Enter => TokenView::Enter,
            Token::Exit => TokenView::Exit,
            Token::Space => TokenView::Space,
            Token::End => TokenView::End,
            Token::Tab => TokenView::Tab,
            Token::Comment(s) => TokenView::Comment(s@),
            Token::Null => TokenView::Null,
            Token::Bool(x) => TokenView::Bool(*x),
            Token::Float(x) => TokenView::Float(*x),
            Token::Int(x) => TokenView::Int(*x),
            Token::Str(s) => TokenView::Str(s@),
            Token::Name(s) => TokenView::Name(s@),
            Token::UnclosedStr(s) => TokenView::UnclosedStr(s@),
            Token::And => TokenView::And,
            Token::Break => TokenView::Break,
            Token::Catch => TokenView::Catch,
            Token::Continue => TokenView::Continue,
            Token::Else => TokenView::Else,
            Token::Local => TokenView::Local,
            Token::For => TokenView::For,
            Token::Func => TokenView::Func,
            Token::If => TokenView::If,
            Token::In => TokenView::In,
            Token::Loop => TokenView::Loop,
            Token::Or => TokenView::Or,
            Token::Pass => TokenView::Pass,
            Token::Return => TokenView::Return,
            Token::Save => TokenView::Save,
            Token::Table => TokenView::Table,
            Token::Var => TokenView::Var,
            Token::While => TokenView::While,
            Token::Arr => TokenView::Arr,
            Token::Ass => TokenView::Ass,
            Token::Col => TokenView::Col,
            Token::Com => TokenView::Com,
            Token::Dot => TokenView::Dot,
            Token::Sup => TokenView::Sup,
            Token::Sem => TokenView::Sem,
            Token::Cul => TokenView::Cul,
            Token::Cur => TokenView::Cur,
            Token::Pal => TokenView::Pal,
            Token::Par => TokenView::Par,
            Token::Sql => TokenView::Sql,
            Token::Sqr => TokenView::Sqr,
            Token::Add => TokenView::Add,
            Token::Amp => TokenView::Amp,
            Token::At => TokenView::At,
            Token::Car => TokenView::Car,
            Token::Div => TokenView::Div,
            Token::Dol => TokenView::Dol,
            Token::Mul => TokenView::Mul,
            Token::Neg => TokenView::Neg,
            Token::Not => TokenView::Not,
            Token::Pct => TokenView::Pct,
            Token::Pipe => TokenView::Pipe,
            Token::Sub => TokenView::Sub,
            Token::Eql => TokenView::Eql,
            Token::Ge => TokenView::Ge,
            Token::Gt => TokenView::Gt,
            Token::Le => TokenView::Le,
            Token::Lt => TokenView::Lt,
            Token::Ne => TokenView::Ne,
        }
    }
}

impl Token {
    /// A copy of the token.
    pub fn copy(&self) -> (r: Token)
        ensures
            r@ == self@,
    {
        match self {
            Token::EOF => Token::EOF,
            Token::Enter => Token::Enter,
            Token::Exit => Token::Exit,
            Token::Space => Token::Space,
            Token::End => Token::End,
            Token::Tab => Token::Tab,
            Token::Comment(s) => Token::Comment(s.clone()),
            Token::Null => Token::Null,
            Token::Bool(x) => Token::Bool(*x),
            Token::Float(x) => Token::Float(*x),
            Token::Int(x) => Token::Int(*x),
            Token::Str(s) => Token::Str(s.clone()),
            Token::Name(s) => Token::Name(s.clone()),
            Token::UnclosedStr(s) => Token::UnclosedStr(s.clone()),
            Token::And => Token::And,
            Token::Break => Token::Break,
            Token::Catch => Token::Catch,
            Token::Continue => Token::Continue,
            Token::Else => Token::Else,
            Token::Local => Token::Local,
            Token::For => Token::For,
            Token::Func => Token::Func,
            Token::If => Token::If,
            Token::In => Token::In,
            Token::Loop => Token::Loop,
            Token::Or => Token::Or,
            Token::Pass => Token::Pass,
            Token::Return => Token::Return,
            Token::Save => Token::Save,
            Token::Table => Token::Table,
            Token::Var => Token::Var,
            Token::While => Token::While,
            Token::Arr => Token::Arr,
            Token::Ass => Token::Ass,
            Token::Col => Token::Col,
            Token::Com => Token::Com,
            Token::Dot => Token::Dot,
            Token::Sup => Token::Sup,
            Token::Sem => Token::Sem,
            Token::Cul => Token::Cul,
            Token::Cur => Token::Cur,
            Token::Pal => Token::Pal,
            Token::Par => Token::Par,
            Token::Sql => Token::Sql,
            Token::Sqr => Token::Sqr,
            Token::Add => Token::Add,
            Token::Amp => Token::Amp,
            Token::At => Token::At,
            Token::Car => Token::Car,
            Token::Div => Token::Div,
            Token::Dol => Token::Dol,
            Token::Mul => Token::Mul,
            Token::Neg => Token::Neg,
            Token::Not => Token::Not,
            Token::Pct => Token::Pct,
            Token::Pipe => Token::Pipe,
            Token::Sub => Token::Sub,
            Token::Eql => Token::Eql,
            Token::Ge => Token::Ge,
            Token::Gt => Token::Gt,
            Token::Le => Token::Le,
            Token::Lt => Token::Lt,
            Token::Ne => Token::Ne,
        }
    }

    /// Whether two tokens are the same token.
    pub fn same(&self, other: &Token) -> (r: bool)
        ensures
            r == (self@ == other@),
    {
        match (self, other) {
            (Token::EOF, Token::EOF) => true,
            (Token::Enter, Token::Enter) => true,
            (Token::Exit, Token::Exit) => true,
            (Token::Space, Token::Space) => true,
            (Token::End, Token::End) => true,
            (Token::Tab, Token::Tab) => true,
            (Token::Comment(a), Token::Comment(b)) => *a == *b,
            (Token::Null, Token::Null) => true,
            (Token::Bool(a), Token::Bool(b)) => *a == *b,
            (Token::Float(a), Token::Float(b)) => a.bits == b.bits,
            (Token::Int(a), Token::Int(b)) => *a == *b,
            (Token::Str(a), Token::Str(b)) => *a == *b,
            (Token::Name(a), Token::Name(b)) => *a == *b,
            (Token::UnclosedStr(a), Token::UnclosedStr(b)) => *a == *b,
            (Token::And, Token::And) => true,
            (Token::Break, Token::Break) => true,
            (Token::Catch, Token::Catch) => true,
            (Token::Continue, Token::Continue) => true,
            (Token::Else, Token::Else) => true,
            (Token::Local, Token::Local) => true,
            (Token::For, Token::For) => true,
            (Token::Func, Token::Func) => true,
            (Token::If, Token::If) => true,
            (Token::In, Token::In) => true,
            (Token::Loop, Token::Loop) => true,
            (Token::Or, Token::Or) => true,
            (Token::Pass, Token::Pass) => true,
            (Token::Return, Token::Return) => true,
            (Token::Save, Token::Save) => true,
            (Token::Table, Token::Table) => true,
            (Token::Var, Token::Var) => true,
            (Token::While, Token::While) => true,
            (Token::Arr, Token::Arr) => true,
            (Token::Ass, Token::Ass) => true,
            (Token::Col, Token::Col) => true,
            (Token::Com, Token::Com) => true,
            (Token::Dot, Token::Dot) => true,
            (Token::Sup, Token::Sup) => true,
            (Token::Sem, Token::Sem) => true,
            (Token::Cul, Token::Cul) => true,
            (Token::Cur, Token::Cur) => true,
            (Token::Pal, Token::Pal) => true,
            (Token::Par, Token::Par) => true,
            (Token::Sql, Token::Sql) => true,
            (Token::Sqr, Token::Sqr) => true,
            (Token::Add, Token::Add) => true,
            (Token::Amp, Token::Amp) => true,
            (Token::At, Token::At) => true,
            (Token::Car, Token::Car) => true,
            (Token::Div, Token::Div) => true,
            (Token::Dol, Token::Dol) => true,
            (Token::Mul, Token::Mul) => true,
            (Token::Neg, Token::Neg) => true,
            (Token::Not, Token::Not) => true,
            (Token::Pct, Token::Pct) => true,
            (Token::Pipe, Token::Pipe) => true,
            (Token::Sub, Token::Sub) => true,
            (Token::Eql, Token::Eql) => true,
            (Token::Ge, Token::Ge) => true,
            (Token::Gt, Token::Gt) => true,
            (Token::Le, Token::Le) => true,
            (Token::Lt, Token::Lt) => true,
            (Token::Ne, Token::Ne) => true,
            _ => false,
        }
    }
}

} // verus!
