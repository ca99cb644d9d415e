use vstd::prelude::*;
use crate::ast::Node;
use crate::error::ParseErrorKind;
use crate::parser::grammar::left;
use crate::parser::grammar::p_atom;
use crate::parser::grammar::p_simple;
use crate::parser::grammar::p_simple_loop;


use crate::parser::ParseIter;
use crate::parser::node_parsed;

use crate::parser::atom::parse_atom;


use crate::parser::postfix::parse_postfixes;

verus! {

/// Reads an atom and the member accesses, indexings and calls that follow it.
pub fn parse_simple(it: &mut ParseIter) -> (r: Result<Node, ParseErrorKind>)
    ensures
        old(it).before(*final(it)),
        node_parsed(p_simple(old(it).nodes(), old(it).at()), r, *final(it)),
    decreases old(it).left(), 11nat,
{
    reveal(p_simple);
    reveal(p_simple_loop);
    reveal(p_atom);
    let atom = parse_atom(it)?;
    parse_postfixes(it, atom)
}

} // verus!
