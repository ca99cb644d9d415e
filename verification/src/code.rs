use vstd::prelude::*;
use crate::float::Float;
use crate::token::Token;
use crate::token::TokenView;

verus! {

/// A value that can be embedded in the code stream.
#[derive(Debug, Clone, PartialEq, Eq, Hash)]
pub enum Const {
    Null,
    Int(i64),
    Float(Float),
    Bool(bool),
    Str(String),
}

/// The mathematical value of a [`Const`].
pub enum ConstView {
    Null,
    Int(i64),
    Float(Float),
    Bool(bool),
    Str(Seq<char>),
}

impl View for Const {
    type V = ConstView;

    open spec fn view(&self) -> ConstView {
        match self {
            Const::Null => ConstView::Null,
            Const::Int(x) => ConstView::Int(*x),
            Const::Float(x) => ConstView::Float(*x),
            Const::Bool(x) => ConstView::Bool(*x),
            Const::Str(s) => ConstView::Str(s@),
        }
    }
}

/// Whether two constants are the same value: floats by their place in the order of
/// numbers, so that both zeros are one constant and NaN is itself; all others by what
/// they hold.
#[verifier::opaque]
pub open spec fn same_const(a: ConstView, b: ConstView) -> bool {
    match (a, b) {
        (ConstView::Float(x), ConstView::Float(y)) => x.rank() == y.rank(),
        _ => a == b,
    }
}

/// The values of a sequence of constants.
pub open spec fn const_views(v: Seq<Const>) -> Seq<ConstView> {
    Seq::new(v.len(), |i: int| v[i]@)
}

impl Const {
    /// A copy of the constant.
    pub fn copy(&self) -> (r: Const)
        ensures
            r@ == self@,
    {
        match self {
            Const::Null => Const::Null,
            Const::Int(x) => Const::Int(*x),
            Const::Float(x) => Const::Float(*x),
            Const::Bool(x) => Const::Bool(*x),
            Const::Str(s) => Const::Str(s.clone()),
        }
    }

    /// Whether two constants are the same value.
    pub fn same(&self, other: &Const) -> (r: bool)
        ensures
            r == same_const(self@, other@),
    {
        reveal(same_const);
        match (self, other) {
            (Const::Null, Const::Null) => true,
            (Const::Int(a), Const::Int(b)) => *a == *b,
            (Const::Float(a), Const::Float(b)) => a.num_eq(b),
            (Const::Bool(a), Const::Bool(b)) => *a == *b,
            (Const::Str(a), Const::Str(b)) => *a == *b,
            _ => false,
        }
    }
}

/// One instruction of the stack machine.
#[derive(Debug, PartialEq, Eq)]
pub enum Instr {
    /// Pops two operands and pushes the result of a binary operator.
    BinOp(Token),
    /// Runs the nested instructions in place.
    Block(Vec<Instr>),
    /// Signals `Break`.
    Break,
    /// Pops a callee and calls it.
    Call,
    /// Runs the body; an exception raised inside becomes the value on top of the stack.
    Catch(Vec<Instr>),
    /// Pops two operands and compares them; the flag marks a link of a longer chain.
    CmpOp(Token, bool),
    /// Signals `Continue`.
    Continue,
    /// Duplicates the top of the stack.
    Dup,
    /// Signals `Break` if the top of the stack is null, after popping it.
    ForBreak,
    /// Pops a scope and a key and pushes what the scope chain holds under the key.
    Get,
    /// Pops a condition and runs the body if it is truthy.
    If(Vec<Instr>),
    /// Pops a condition and runs the first body if it is truthy, else the second.
    IfElse(Vec<Instr>, Vec<Instr>),
    /// One link of an `and` / `or` chain.
    LogicOp(Token),
    /// Runs the body again and again until it signals `Break`.
    Loop(Vec<Instr>),
    /// Like `Get`, but leaves the owner on the stack below the value.
    MethodGet,
    /// Pushes a fresh empty table.
    NewTable,
    /// Does nothing.
    Nop,
    /// Pops the top of the stack.
    Pop,
    /// Pushes the constant with the given index in the module's pool.
    PushConst(usize),
    /// Pushes the function with the given index in the module's function table.
    PushFunc { id: usize, nargs: usize },
    /// Pushes the current scope.
    PushScope,
    /// Signals `Return`.
    Return,
    /// Runs the body and absorbs a `Return` signal.
    Returnable(Vec<Instr>),
    /// Pops a scope, a key and a value and stores the value under the key.
    SetKey,
    /// Pops an operand and pushes the result of a unary operator.
    UnOp(Token),
}

/// The mathematical value of an [`Instr`].
pub enum InstrView {
    BinOp(TokenView),
    Block(Seq<InstrView>),
    Break,
    Call,
    Catch(Seq<InstrView>),
    CmpOp(TokenView, bool),
    Continue,
    Dup,
    ForBreak,
    Get,
    If(Seq<InstrView>),
    IfElse(Seq<InstrView>, Seq<InstrView>),
    LogicOp(TokenView),
    Loop(Seq<InstrView>),
    MethodGet,
    NewTable,
    Nop,
    Pop,
    PushConst(usize),
    PushFunc { id: usize, nargs: usize },
    PushScope,
    Return,
    Returnable(Seq<InstrView>),
    SetKey,
    UnOp(TokenView),
}

/// The values of the instructions of a vector.
pub open spec fn instr_views(v: Vec<Instr>) -> Seq<InstrView>
    decreases v,
{
    Seq::new(
        v.len() as nat,
        |i: int|
            if 0 <= i < v.len() {
                v[i].view()
            } else {
                arbitrary()
            },
    )
}

impl Clone for Instr {
    fn clone(&self) -> (r: Instr)
        ensures
            r@ == self@,
    {
        self.copy()
    }
}

/// A deep copy of a vector of instructions.
#[verifier::loop_isolation(false)]
pub fn copy_instrs(v: &Vec<Instr>) -> (r: Vec<Instr>)
    ensures
        instr_views(r) == instr_views(*v),
    decreases v,
{
    let mut out: Vec<Instr> = Vec::new();
    let mut i: usize = 0;
    while i < v.len()
        invariant
            i <= v.len(),
            out@.len() == i,
            forall|j: int| 0 <= j < i ==> out@[j]@ == v@[j]@,
        decreases v.len() - i,
    {
        out.push(v[i].copy());
        i = i + 1;
    }
    assert(instr_views(out) =~= instr_views(*v));
    out
}

impl Instr {
    pub open spec fn view(&self) -> InstrView
        decreases self,
    {
        match self {
            Instr::BinOp(t) => InstrView::BinOp(t@),
            Instr::Block(b) => InstrView::Block(instr_views(*b)),
            Instr::Break => InstrView::Break,
            Instr::Call => InstrView::Call,
            Instr::Catch(b) => InstrView::Catch(instr_views(*b)),
            Instr::CmpOp(t, chain) => InstrView::CmpOp(t@, *chain),
            Instr::Continue => InstrView::Continue,
            Instr::Dup => InstrView::Dup,
            Instr::ForBreak => InstrView::ForBreak,
            Instr::Get => InstrView::Get,
            Instr::If(b) => InstrView::If(instr_views(*b)),
            Instr::IfElse(b, e) => InstrView::IfElse(instr_views(*b), instr_views(*e)),
            Instr::LogicOp(t) => InstrView::LogicOp(t@),
            Instr::Loop(b) => InstrView::Loop(instr_views(*b)),
            Instr::MethodGet => InstrView::MethodGet,
            Instr::NewTable => InstrView::NewTable,
            Instr::Nop => InstrView::Nop,
            Instr::Pop => InstrView::Pop,
            Instr::PushConst(i) => InstrView::PushConst(*i),
            Instr::PushFunc { id, nargs } => InstrView::PushFunc { id: *id, nargs: *nargs },
            Instr::PushScope => InstrView::PushScope,
            Instr::Return => InstrView::Return,
            Instr::Returnable(b) => InstrView::Returnable(instr_views(*b)),
            Instr::SetKey => InstrView::SetKey,
            Instr::UnOp(t) => InstrView::UnOp(t@),
        }
    }

    /// A deep copy.
    pub fn copy(&self) -> (r: Instr)
        ensures
            r@ == self@,
        decreases self,
    {
        match self {
            Instr::BinOp(t) => Instr::BinOp(t.copy()),
            Instr::Block(b) => Instr::Block(copy_instrs(b)),
            Instr::Break => Instr::Break,
            Instr::Call => Instr::Call,
            Instr::Catch(b) => Instr::Catch(copy_instrs(b)),
            Instr::CmpOp(t, chain) => Instr::CmpOp(t.copy(), *chain),
            Instr::Continue => Instr::Continue,
            Instr::Dup => Instr::Dup,
            Instr::ForBreak => Instr::ForBreak,
            Instr::Get => Instr::Get,
            Instr::If(b) => Instr::If(copy_instrs(b)),
            Instr::IfElse(b, e) => Instr::IfElse(copy_instrs(b), copy_instrs(e)),
            Instr::LogicOp(t) => Instr::LogicOp(t.copy()),
            Instr::Loop(b) => Instr::Loop(copy_instrs(b)),
            Instr::MethodGet => Instr::MethodGet,
            Instr::NewTable => Instr::NewTable,
            Instr::Nop => Instr::Nop,
            Instr::Pop => Instr::Pop,
            Instr::PushConst(i) => Instr::PushConst(*i),
            Instr::PushFunc { id, nargs } => Instr::PushFunc { id: *id, nargs: *nargs },
            Instr::PushScope => Instr::PushScope,
            Instr::Return => Instr::Return,
            Instr::Returnable(b) => Instr::Returnable(copy_instrs(b)),
            Instr::SetKey => Instr::SetKey,
            Instr::UnOp(t) => Instr::UnOp(t.copy()),
        }
    }
}

} // verus!
