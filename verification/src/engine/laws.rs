use vstd::prelude::*;
use crate::data::DataView;
use crate::data::plain;
use crate::engine::machine::answer_float;
use crate::engine::machine::unwind;
use crate::engine::ops::OutcomeView;
use crate::engine::ops::compare;
use crate::engine::ops::mixed;
use crate::engine::rules::dropped;
use crate::engine::rules::next;
use crate::engine::rules::run_compare;
use crate::engine::state::ActionView;
use crate::engine::state::EngineView;
use crate::engine::state::FrameKind;
use crate::error::ExecuteControl;
use crate::float::Float;
use crate::parser::grammar::is_comparison;
use crate::token::TokenView;

verus! {

/// A link of a comparison chain that does not hold ends the chain: its operands make
/// way for `false`, and the signal `Return` is set, so that nothing more of the chain
/// is run. A link that holds leaves its right operand for the next link: the very item
/// that stood on the stack, also where the host gave a float for it to compare.
pub proof fn lemma_chain_link(e: EngineView, op: TokenView, holds: bool)
    requires
        e.stack.len() >= 2,
        compare(op, e.operand(1), e.operand(0)) == OutcomeView::Value(DataView::Bool(holds)),
    ensures
        holds ==> run_compare(e, e.advance(), op, true) == next(
            dropped(e.advance(), 2).push(e.slot(0)).settled(),
        ),
        holds ==> run_compare(e, e.advance(), op, true).state.stack == e.stack.take(
            e.stack.len() - 2,
        ).push(e.stack.last()),
        !holds ==> run_compare(e, e.advance(), op, true) == next(
            dropped(e.advance(), 2).push(plain(DataView::Bool(false))).signalled(
                ExecuteControl::Return,
            ).settled(),
        ),
{
}

/// A link of a comparison chain between two numbers, of whatever kinds. Two integers or
/// two floats are compared at once. For an integer beside a float the engine first asks
/// the host for the float nearest to the integer and moves nothing; whatever float `x`
/// the host gives, the link then compares the float with `x`. Either way a link that
/// does not hold leaves `false` and sets the signal `Return`, and a link that holds
/// leaves the right operand as it stood on the stack, with no float held for it.
pub proof fn lemma_chain_link_numbers(e: EngineView, op: TokenView, x: Float)
    requires
        e.stack.len() >= 2,
        is_comparison(op),
        e.lifted_top is None,
        e.lifted_below is None,
        e.slot(1).val is Int || e.slot(1).val is Float,
        e.slot(0).val is Int || e.slot(0).val is Float,
    ensures
        ({
            let asks = mixed(e.slot(1).val, e.slot(0).val) is Some;
            let first = run_compare(e, e.advance(), op, true);
            let seen = if asks {
                answer_float(first.state, x)
            } else {
                e
            };
            let last = run_compare(seen, seen.advance(), op, true);
            let lhs = if asks && e.slot(1).val is Int {
                DataView::Float(x)
            } else {
                e.slot(1).val
            };
            let rhs = if asks && e.slot(0).val is Int {
                DataView::Float(x)
            } else {
                e.slot(0).val
            };
            let rest = e.stack.take(e.stack.len() - 2);
            &&& asks ==> first.action is Ask && first.state.stack == e.stack && first.state.frames
                == e.frames && first.state.signal == e.signal
            &&& !asks ==> first == last
            &&& compare(op, lhs, rhs) is Value
            &&& compare(op, lhs, rhs)->Value_0 is Bool
            &&& last.action == ActionView::Next
            &&& last.state.lifted_top is None
            &&& last.state.lifted_below is None
            &&& compare(op, lhs, rhs)->Value_0->Bool_0 ==> last.state.stack == rest.push(
                e.stack.last(),
            ) && last.state.signal == e.signal
            &&& !compare(op, lhs, rhs)->Value_0->Bool_0 ==> last.state.stack == rest.push(
                plain(DataView::Bool(false)),
            ) && last.state.signal == Some(ExecuteControl::Return)
        }),
{
    let first = run_compare(e, e.advance(), op, true);
    if mixed(e.slot(1).val, e.slot(0).val) is Some {
        let seen = answer_float(first.state, x);
        assert(seen.stack == e.stack);
    }
}

/// The signal `Return` ends the frame of a chain: the rest of its instructions is
/// never run.
pub proof fn lemma_return_ends_chain(e: EngineView)
    requires
        e.frames.len() > 0,
        e.top().kind == FrameKind::Returnable,
    ensures
        unwind(e, ExecuteControl::Return) == e.leave().calm(),
        unwind(e, ExecuteControl::Return).frames == e.frames.drop_last(),
        unwind(e, ExecuteControl::Return).signal is None,
        unwind(e, ExecuteControl::Return).stack == e.stack,
{
}

} // verus!
