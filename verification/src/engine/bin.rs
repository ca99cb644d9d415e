use vstd::prelude::*;
use vstd::string::*;
use crate::data::Data;
use crate::data::Item;
use crate::engine::ops::Outcome;
use crate::engine::state::ArithOp;
use crate::engine::ops::arith;
use crate::engine::ops::concat;
use crate::engine::ops::with_sup;

verus! {

/// Applies an arithmetic operator.
fn arithmetic(op: ArithOp, lhs: &Data, rhs: &Data) -> (r: Outcome)
    ensures
        r@ == arith(op, lhs@, rhs@),
{
    match (lhs, rhs) {
        (Data::Int(x), Data::Int(y)) => match op {
            ArithOp::Add => Outcome::Value(Data::Int(x.wrapping_add(*y))),
            ArithOp::Sub => Outcome::Value(Data::Int(x.wrapping_sub(*y))),
            ArithOp::Mul => Outcome::Value(Data::Int(x.wrapping_mul(*y))),
            ArithOp::Div => Outcome::Convert { slot: 0, value: *y },
        },
        (Data::Int(x), Data::Float(_)) => Outcome::Convert { slot: 1, value: *x },
        (Data::Float(_), Data::Int(y)) => Outcome::Convert { slot: 0, value: *y },
        (Data::Float(a), Data::Float(b)) => Outcome::Arith { op, lhs: *a, rhs: *b },
        _ => Outcome::BadArguments,
    }
}

/// The sum of two numbers.
pub fn add(lhs: &Data, rhs: &Data) -> (r: Outcome)
    ensures
        r@ == arith(ArithOp::Add, lhs@, rhs@),
{
    arithmetic(ArithOp::Add, lhs, rhs)
}

/// The difference of two numbers.
pub fn sub(lhs: &Data, rhs: &Data) -> (r: Outcome)
    ensures
        r@ == arith(ArithOp::Sub, lhs@, rhs@),
{
    arithmetic(ArithOp::Sub, lhs, rhs)
}

/// The product of two numbers.
pub fn mul(lhs: &Data, rhs: &Data) -> (r: Outcome)
    ensures
        r@ == arith(ArithOp::Mul, lhs@, rhs@),
{
    arithmetic(ArithOp::Mul, lhs, rhs)
}

/// The quotient of two numbers, which is a float also where both are integers.
pub fn div(lhs: &Data, rhs: &Data) -> (r: Outcome)
    ensures
        r@ == arith(ArithOp::Div, lhs@, rhs@),
{
    arithmetic(ArithOp::Div, lhs, rhs)
}

/// Joins the texts of two values.
pub fn cat(lhs: &Data, rhs: &Data) -> (r: Outcome)
    ensures
        r@ == concat(lhs@, rhs@),
{
    if let Data::Float(b) = rhs {
        return Outcome::Format { slot: 0, value: *b };
    }
    if let Data::Float(a) = lhs {
        return Outcome::Format { slot: 1, value: *a };
    }
    match (lhs.to_string(), rhs.to_string()) {
        (Some(a), Some(b)) => Outcome::Value(Data::Str(a.concat(b.as_str()))),
        _ => Outcome::BadArguments,
    }
}

/// The item with the value of `lhs` and `rhs` as its super link.
pub fn sup(lhs: Item, rhs: Item) -> (r: Item)
    ensures
        r@ == with_sup(lhs@, rhs@),
{
    let link = if rhs.val.null() {
        None
    } else {
        Some(Box::new(rhs))
    };
    Item { val: lhs.val, sup: link }
}

} // verus!
