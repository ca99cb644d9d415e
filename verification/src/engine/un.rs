use vstd::prelude::*;
use vstd::string::*;
use crate::data::Data;
use crate::data::DataView;
use crate::data::Item;
use crate::data::truthy;
use crate::engine::ops::Outcome;
use crate::engine::ops::climb;
use crate::engine::ops::negate;
use crate::engine::ops::stringify;

verus! {

/// The item one link up the chain of super links.
pub fn mul(item: Item) -> (r: Item)
    ensures
        r@ == climb(item@),
{
    match item.sup {
        Some(s) => *s,
        None => Data::Null.into_item(),
    }
}

/// The negative of a number.
pub fn sub(val: &Data) -> (r: Outcome)
    ensures
        r@ == negate(val@),
{
    match val {
        Data::Int(x) => Outcome::Value(Data::Int(0i64.wrapping_sub(*x))),
        Data::Float(x) => Outcome::Value(Data::Float(x.neg())),
        _ => Outcome::BadArguments,
    }
}

/// Whether a value does not count as true.
pub fn not(val: &Data) -> (r: Data)
    ensures
        r@ == DataView::Bool(!truthy(val@)),
{
    Data::Bool(!val.truth())
}

/// The text of a value, as a value.
pub fn cat(val: &Data) -> (r: Outcome)
    ensures
        r@ == stringify(val@),
{
    match val {
        Data::Float(x) => Outcome::Format { slot: 0, value: *x },
        _ => match val.to_string() {
            Some(s) => Outcome::Value(Data::Str(s)),
            None => Outcome::BadArguments,
        },
    }
}

} // verus!
