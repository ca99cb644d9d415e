use vstd::prelude::*;
use vstd::string::*;
use crate::data::Data;
use crate::data::DataView;
use crate::engine::ops::Outcome;
use crate::engine::ops::OutcomeView;
use crate::engine::ops::compare;
use crate::engine::ops::equal;
use crate::engine::ops::less;
use crate::engine::ops::mixed;
use crate::engine::ops::text_before;
use crate::token::Token;
use crate::token::TokenView;

verus! {

/// Whether two values are equal to the language. An integer beside a float is left
/// out: the host converts the integer first, as `mixed_operand` says.
pub fn eq_aux(lhs: &Data, rhs: &Data) -> (r: bool)
    requires
        mixed(lhs@, rhs@) is None,
    ensures
        r == equal(lhs@, rhs@),
{
    lhs.same(rhs)
}

/// Whether two values are not equal to the language. An integer beside a float is
/// left out.
pub fn ne_aux(lhs: &Data, rhs: &Data) -> (r: bool)
    requires
        mixed(lhs@, rhs@) is None,
    ensures
        r == !equal(lhs@, rhs@),
{
    !eq_aux(lhs, rhs)
}

/// Whether one value is below another; none where the values have no order. An
/// integer beside a float is left out.
pub fn lt_aux(lhs: &Data, rhs: &Data) -> (r: Option<bool>)
    requires
        mixed(lhs@, rhs@) is None,
    ensures
        r == less(lhs@, rhs@),
{
    match (lhs, rhs) {
        (Data::Int(x), Data::Int(y)) => Some(*x < *y),
        (Data::Float(a), Data::Float(b)) => Some(a.num_lt(b)),
        (Data::Bool(a), Data::Bool(b)) => Some(!*a && *b),
        (Data::Str(a), Data::Str(b)) => Some(text_before(a.as_str(), b.as_str())),
        _ => None,
    }
}

/// Whether one value is above another; none where the values have no order. An
/// integer beside a float is left out.
pub fn gt_aux(lhs: &Data, rhs: &Data) -> (r: Option<bool>)
    requires
        mixed(lhs@, rhs@) is None,
    ensures
        r == less(rhs@, lhs@),
{
    lt_aux(rhs, lhs)
}

/// Whether one value is not above another; none where the values have no order. An
/// integer beside a float is left out.
pub fn le_aux(lhs: &Data, rhs: &Data) -> (r: Option<bool>)
    requires
        mixed(lhs@, rhs@) is None,
    ensures
        r == (match less(rhs@, lhs@) {
            Some(above) => Some(!above),
            None => None,
        }),
{
    match lt_aux(rhs, lhs) {
        Some(above) => Some(!above),
        None => None,
    }
}

/// Whether one value is not below another; none where the values have no order. An
/// integer beside a float is left out.
pub fn ge_aux(lhs: &Data, rhs: &Data) -> (r: Option<bool>)
    requires
        mixed(lhs@, rhs@) is None,
    ensures
        r == (match less(lhs@, rhs@) {
            Some(below) => Some(!below),
            None => None,
        }),
{
    match lt_aux(lhs, rhs) {
        Some(below) => Some(!below),
        None => None,
    }
}

/// The request to convert the integer operand that stands beside a float, if there is
/// one; the comparisons of values take only operands for which there is none.
pub fn mixed_operand(lhs: &Data, rhs: &Data) -> (r: Option<Outcome>)
    ensures
        match r {
            Some(out) => mixed(lhs@, rhs@) is Some && out@
                == (OutcomeView::Convert {
                slot: mixed(lhs@, rhs@)->Some_0.0,
                value: mixed(lhs@, rhs@)->Some_0.1,
            }),
            None => mixed(lhs@, rhs@) is None,
        },
{
    match (lhs, rhs) {
        (Data::Int(x), Data::Float(_)) => Some(Outcome::Convert { slot: 1, value: *x }),
        (Data::Float(_), Data::Int(y)) => Some(Outcome::Convert { slot: 0, value: *y }),
        _ => None,
    }
}

/// The outcome of a comparison whose answer may not exist.
fn ordered(answer: Option<bool>) -> (r: Outcome)
    ensures
        r@ == (match answer {
            Some(b) => OutcomeView::Value(DataView::Bool(b)),
            None => OutcomeView::BadArguments,
        }),
{
    match answer {
        Some(b) => Outcome::Value(Data::Bool(b)),
        None => Outcome::BadArguments,
    }
}

/// The comparison `==`.
pub fn eq(lhs: &Data, rhs: &Data) -> (r: Outcome)
    ensures
        r@ == compare(TokenView::Eql, lhs@, rhs@),
{
    match mixed_operand(lhs, rhs) {
        Some(out) => out,
        None => Outcome::Value(Data::Bool(eq_aux(lhs, rhs))),
    }
}

/// The comparison `!=`.
pub fn ne(lhs: &Data, rhs: &Data) -> (r: Outcome)
    ensures
        r@ == compare(TokenView::Ne, lhs@, rhs@),
{
    match mixed_operand(lhs, rhs) {
        Some(out) => out,
        None => Outcome::Value(Data::Bool(ne_aux(lhs, rhs))),
    }
}

/// The comparison `<`.
pub fn lt(lhs: &Data, rhs: &Data) -> (r: Outcome)
    ensures
        r@ == compare(TokenView::Lt, lhs@, rhs@),
{
    match mixed_operand(lhs, rhs) {
        Some(out) => out,
        None => ordered(lt_aux(lhs, rhs)),
    }
}

/// The comparison `>`.
pub fn gt(lhs: &Data, rhs: &Data) -> (r: Outcome)
    ensures
        r@ == compare(TokenView::Gt, lhs@, rhs@),
{
    match mixed_operand(lhs, rhs) {
        Some(out) => out,
        None => ordered(gt_aux(lhs, rhs)),
    }
}

/// The comparison `<=`.
pub fn le(lhs: &Data, rhs: &Data) -> (r: Outcome)
    ensures
        r@ == compare(TokenView::Le, lhs@, rhs@),
{
    match mixed_operand(lhs, rhs) {
        Some(out) => out,
        None => ordered(le_aux(lhs, rhs)),
    }
}

/// The comparison `>=`.
pub fn ge(lhs: &Data, rhs: &Data) -> (r: Outcome)
    ensures
        r@ == compare(TokenView::Ge, lhs@, rhs@),
{
    match mixed_operand(lhs, rhs) {
        Some(out) => out,
        None => ordered(ge_aux(lhs, rhs)),
    }
}

/// Applies a comparison.
pub fn relate(op: &Token, lhs: &Data, rhs: &Data) -> (r: Outcome)
    ensures
        r@ == compare(op@, lhs@, rhs@),
{
    match op {
        Token::Eql => eq(lhs, rhs),
        Token::Ne => ne(lhs, rhs),
        Token::Lt => lt(lhs, rhs),
        Token::Gt => gt(lhs, rhs),
        Token::Le => le(lhs, rhs),
        Token::Ge => ge(lhs, rhs),
        _ => Outcome::BadOperator,
    }
}

} // verus!
