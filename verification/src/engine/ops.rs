use vstd::prelude::*;
use vstd::wrapping::i64_specs;
use vstd::string::*;
use crate::data::Data;
use crate::data::DataView;
use crate::data::ItemView;
use crate::data::data_text;
use crate::data::same_data;
use crate::engine::state::ArithOp;
use crate::float::Float;
use crate::lexer::text::chars_of;
use crate::token::Token;
use crate::token::TokenView;

verus! {

/// What an operator makes of its operands.
#[derive(Debug)]
pub enum Outcome {
    /// The result.
    Value(Data),
    /// The integer operand at the given depth of the stack must become a float first.
    Convert { slot: usize, value: i64 },
    /// The result is that of an operator on two floats.
    Arith { op: ArithOp, lhs: Float, rhs: Float },
    /// The float operand at the given depth of the stack must become its text first.
    Format { slot: usize, value: Float },
    /// The operands are of the wrong kind.
    BadArguments,
    /// The token is no operator of this kind.
    BadOperator,
}

/// The mathematical value of an [`Outcome`].
pub enum OutcomeView {
    Value(DataView),
    Convert { slot: usize, value: i64 },
    Arith { op: ArithOp, lhs: Float, rhs: Float },
    Format { slot: usize, value: Float },
    BadArguments,
    BadOperator,
}

impl View for Outcome {
    type V = OutcomeView;

    open spec fn view(&self) -> OutcomeView {
        match self {
            Outcome::Value(d) => OutcomeView::Value(d@),
            Outcome::Convert { slot, value } => OutcomeView::Convert { slot: *slot, value: *value },
            Outcome::Arith { op, lhs, rhs } => OutcomeView::Arith { op: *op, lhs: *lhs, rhs: *rhs },
            Outcome::Format { slot, value } => OutcomeView::Format { slot: *slot, value: *value },
            Outcome::BadArguments => OutcomeView::BadArguments,
            Outcome::BadOperator => OutcomeView::BadOperator,
        }
    }
}

/// The arithmetic operator that a token is, if it is one.
pub open spec fn arith_op(t: TokenView) -> Option<ArithOp> {
    match t {
        TokenView::Add => Some(ArithOp::Add),
        TokenView::Sub => Some(ArithOp::Sub),
        TokenView::Mul => Some(ArithOp::Mul),
        TokenView::Div => Some(ArithOp::Div),
        _ => None,
    }
}

/// The result of an operator on two integers, wrapped around at 64 bits.
pub open spec fn int_arith(op: ArithOp, x: i64, y: i64) -> i64 {
    match op {
        ArithOp::Add => i64_specs::wrapping_add(x, y),
        ArithOp::Sub => i64_specs::wrapping_sub(x, y),
        _ => i64_specs::wrapping_mul(x, y),
    }
}

/// What an arithmetic operator makes of two values. Two integers give an integer,
/// except under division; an integer beside a float, and each integer under division,
/// must become a float first; two floats are left to the host.
pub open spec fn arith(op: ArithOp, lhs: DataView, rhs: DataView) -> OutcomeView {
    match (lhs, rhs) {
        (DataView::Int(x), DataView::Int(y)) => if op == ArithOp::Div {
            OutcomeView::Convert { slot: 0, value: y }
        } else {
            OutcomeView::Value(DataView::Int(int_arith(op, x, y)))
        },
        (DataView::Int(x), DataView::Float(_)) => OutcomeView::Convert { slot: 1, value: x },
        (DataView::Float(_), DataView::Int(y)) => OutcomeView::Convert { slot: 0, value: y },
        (DataView::Float(a), DataView::Float(b)) => OutcomeView::Arith { op, lhs: a, rhs: b },
        _ => OutcomeView::BadArguments,
    }
}

/// The texts of two values, one after the other; a float must become its text first.
pub open spec fn concat(lhs: DataView, rhs: DataView) -> OutcomeView {
    match (lhs, rhs) {
        (_, DataView::Float(b)) => OutcomeView::Format { slot: 0, value: b },
        (DataView::Float(a), _) => OutcomeView::Format { slot: 1, value: a },
        _ => OutcomeView::Value(DataView::Str(data_text(lhs)->Some_0 + data_text(rhs)->Some_0)),
    }
}

/// The item with the value of `lhs` and `rhs` as its super link; no link if `rhs` is null.
pub open spec fn with_sup(lhs: ItemView, rhs: ItemView) -> ItemView {
    ItemView {
        val: lhs.val,
        sup: if rhs.val is Null {
            None
        } else {
            Some(Box::new(rhs))
        },
    }
}

/// The item one link up the chain of super links; null above the end of the chain.
pub open spec fn climb(item: ItemView) -> ItemView {
    match item.sup {
        Some(s) => *s,
        None => crate::data::null_item(),
    }
}

/// The negative of a number.
pub open spec fn negate(val: DataView) -> OutcomeView {
    match val {
        DataView::Int(x) => OutcomeView::Value(DataView::Int(i64_specs::wrapping_sub(0, x))),
        DataView::Float(x) => OutcomeView::Value(
            DataView::Float(
                if x.nan() {
                    x
                } else if x.negative() {
                    Float { bits: x.magnitude() }
                } else {
                    Float { bits: (x.bits + crate::float::SIGN_BIT) as u64 }
                },
            ),
        ),
        _ => OutcomeView::BadArguments,
    }
}

/// The text of a value, as a value; a float must become its text first.
pub open spec fn stringify(val: DataView) -> OutcomeView {
    match val {
        DataView::Float(x) => OutcomeView::Format { slot: 0, value: x },
        _ => OutcomeView::Value(DataView::Str(data_text(val)->Some_0)),
    }
}

/// Whether one text comes before another: by the first character in which they
/// differ, and the shorter first if one starts the other.
pub open spec fn text_lt(a: Seq<char>, b: Seq<char>) -> bool
    decreases a.len(),
{
    if b.len() == 0 {
        false
    } else if a.len() == 0 {
        true
    } else if a[0] != b[0] {
        (a[0] as u32) < (b[0] as u32)
    } else {
        text_lt(a.skip(1), b.skip(1))
    }
}

/// Whether two values, which are not an integer beside a float, are equal to the
/// language: numbers by their place in the order of numbers, functions by their index,
/// arity and module, tables by their handle; values of different kinds are not. For an
/// integer beside a float `compare` has the host convert the integer first.
pub open spec fn equal(lhs: DataView, rhs: DataView) -> bool {
    same_data(lhs, rhs)
}

/// Whether one value is below another, for values that are not an integer beside a
/// float; none where the values have no order.
pub open spec fn less(lhs: DataView, rhs: DataView) -> Option<bool> {
    match (lhs, rhs) {
        (DataView::Int(x), DataView::Int(y)) => Some(x < y),
        (DataView::Float(a), DataView::Float(b)) => Some(a.rank() < b.rank()),
        (DataView::Bool(a), DataView::Bool(b)) => Some(!a && b),
        (DataView::Str(a), DataView::Str(b)) => Some(text_lt(a, b)),
        _ => None,
    }
}

/// The integer operand that stands beside a float, with its depth in the stack.
pub open spec fn mixed(lhs: DataView, rhs: DataView) -> Option<(usize, i64)> {
    match (lhs, rhs) {
        (DataView::Int(x), DataView::Float(_)) => Some((1usize, x)),
        (DataView::Float(_), DataView::Int(y)) => Some((0usize, y)),
        _ => None,
    }
}

/// What a comparison makes of two values.
pub open spec fn compare(op: TokenView, lhs: DataView, rhs: DataView) -> OutcomeView {
    if !crate::parser::grammar::is_comparison(op) {
        OutcomeView::BadOperator
    } else if mixed(lhs, rhs) is Some {
        OutcomeView::Convert { slot: mixed(lhs, rhs)->Some_0.0, value: mixed(lhs, rhs)->Some_0.1 }
    } else if op is Eql {
        OutcomeView::Value(DataView::Bool(equal(lhs, rhs)))
    } else if op is Ne {
        OutcomeView::Value(DataView::Bool(!equal(lhs, rhs)))
    } else if less(lhs, rhs) is None {
        OutcomeView::BadArguments
    } else if op is Lt {
        OutcomeView::Value(DataView::Bool(less(lhs, rhs)->Some_0))
    } else if op is Gt {
        OutcomeView::Value(DataView::Bool(less(rhs, lhs)->Some_0))
    } else if op is Le {
        OutcomeView::Value(DataView::Bool(!less(rhs, lhs)->Some_0))
    } else {
        OutcomeView::Value(DataView::Bool(!less(lhs, rhs)->Some_0))
    }
}

/// The arithmetic operator that a token is.
pub fn to_arith_op(t: &Token) -> (r: Option<ArithOp>)
    ensures
        r == arith_op(t@),
{
    match t {
        Token::Add => Some(ArithOp::Add),
        Token::Sub => Some(ArithOp::Sub),
        Token::Mul => Some(ArithOp::Mul),
        Token::Div => Some(ArithOp::Div),
        _ => None,
    }
}

/// Whether one text comes before another.
pub fn text_before(a: &str, b: &str) -> (r: bool)
    ensures
        r == text_lt(a@, b@),
{
    let x = chars_of(a);
    let y = chars_of(b);
    let mut i: usize = 0;
    proof {
        assert(x@.skip(0) =~= x@);
        assert(y@.skip(0) =~= y@);
    }
    while i < x.len() && i < y.len()
        invariant
            x@ == a@,
            y@ == b@,
            i <= x@.len(),
            i <= y@.len(),
            text_lt(x@, y@) == text_lt(x@.skip(i as int), y@.skip(i as int)),
        decreases x.len() - i,
    {
        proof {
            assert(x@.skip(i as int)[0] == x@[i as int]);
            assert(y@.skip(i as int)[0] == y@[i as int]);
            assert(x@.skip(i as int).skip(1) =~= x@.skip(i + 1));
            assert(y@.skip(i as int).skip(1) =~= y@.skip(i + 1));
        }
        let p = x[i];
        let q = y[i];
        if p != q {
            return (p as u32) < (q as u32);
        }
        i = i + 1;
    }
    i < y.len()
}

} // verus!
