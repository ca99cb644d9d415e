use vstd::prelude::*;
use crate::code::InstrView;
use crate::data::DataView;
use crate::data::ItemView;
use crate::data::const_data;
use crate::data::plain;
use crate::data::truthy;
use crate::engine::ops::OutcomeView;
use crate::engine::ops::arith;
use crate::engine::ops::arith_op;
use crate::engine::ops::climb;
use crate::engine::ops::compare;
use crate::engine::ops::concat;
use crate::engine::ops::negate;
use crate::engine::ops::stringify;
use crate::engine::ops::with_sup;
use crate::engine::state::ActionView;
use crate::engine::state::EngineErrorKind;
use crate::engine::state::EngineView;
use crate::engine::state::FrameKind;
use crate::engine::state::FrameView;
use crate::engine::state::PendingView;
use crate::engine::state::RequestView;
use crate::error::ExecuteControl;
use crate::heap::get_key;
use crate::heap::set_key;
use crate::token::TokenView;

verus! {

/// The state after a step, and what the step leaves for the host to do.
pub struct Stepped {
    pub state: EngineView,
    pub action: ActionView,
}

/// A step that leaves nothing to the host.
pub open spec fn next(state: EngineView) -> Stepped {
    Stepped { state, action: ActionView::Next }
}

/// The request that stands for what is pending.
pub open spec fn request_of(pending: PendingView) -> RequestView {
    match pending {
        PendingView::Convert { value, slot } => RequestView::Convert(value),
        PendingView::Arith { op, lhs, rhs } => RequestView::Arith(op, lhs, rhs),
        PendingView::Format { value, slot } => RequestView::Format(value),
        PendingView::Import(name) => RequestView::Import(name),
        PendingView::Nothing => RequestView::Convert(0),
    }
}

/// A step that waits for the host: the state stays as it was, but for what is pending.
pub open spec fn ask(e: EngineView, pending: PendingView) -> Stepped {
    Stepped { state: e.waiting(pending), action: ActionView::Ask(request_of(pending)) }
}

/// The state after an instruction found fewer operands than it takes: the operands
/// that were there are gone, and the empty-stack exception is raised.
pub open spec fn underflow(e: EngineView) -> EngineView {
    EngineView {
        stack: seq![e.empty_stack],
        signal: Some(ExecuteControl::Exception),
        ..e
    }
}

/// With the top `n` values of the data stack dropped.
pub open spec fn dropped(e: EngineView, n: int) -> EngineView {
    EngineView { stack: e.stack.take(e.stack.len() - n), ..e }
}

/// With a frame entered that runs `code` in the module and scope of the innermost frame.
pub open spec fn block(e: EngineView, code: Seq<InstrView>, kind: FrameKind) -> EngineView {
    e.enter(FrameView { code, pc: 0, kind, module: e.top().module, scope: e.top().scope })
}

/// What an instruction that only moves values does. `e` is the state before it, `a` the
/// state with the frame moved past it.
pub open spec fn run_stack(e: EngineView, a: EngineView, instr: InstrView) -> EngineView {
    match instr {
        InstrView::PushScope => a.push(e.top().scope),
        InstrView::PushConst(i) => if e.top().module >= e.mods.len() {
            a.fatal(EngineErrorKind::BadModule)
        } else if i >= e.mods[e.top().module as int].consts.len() {
            a.fatal(EngineErrorKind::BadConst)
        } else {
            a.push(plain(const_data(e.mods[e.top().module as int].consts[i as int])))
        },
        InstrView::PushFunc { id, nargs } => if e.top().module >= e.mods.len() {
            a.fatal(EngineErrorKind::BadModule)
        } else {
            a.with_table().push(
                ItemView {
                    val: DataView::Func { id, nargs, module: e.mods[e.top().module as int].name },
                    sup: Some(
                        Box::new(
                            ItemView {
                                val: DataView::Table(e.heap.len() as usize),
                                sup: Some(Box::new(e.top().scope)),
                            },
                        ),
                    ),
                },
            )
        },
        InstrView::NewTable => a.with_table().push(plain(DataView::Table(e.heap.len() as usize))),
        InstrView::Pop => if e.stack.len() < 1 {
            underflow(a)
        } else {
            a.drop_top()
        },
        InstrView::Dup => if e.stack.len() < 1 {
            underflow(a)
        } else {
            a.push(e.slot(0))
        },
        InstrView::SetKey => if e.stack.len() < 3 {
            underflow(a)
        } else {
            EngineView {
                heap: set_key(e.heap, e.slot(0), e.slot(1).val, e.slot(2)),
                ..dropped(a, 3)
            }
        },
        InstrView::Get => if e.stack.len() < 2 {
            underflow(a)
        } else {
            dropped(a, 2).push(get_key(e.heap, e.slot(0), e.slot(1).val))
        },
        InstrView::MethodGet => if e.stack.len() < 2 {
            underflow(a)
        } else {
            dropped(a, 2).push(e.slot(0)).push(get_key(e.heap, e.slot(0), e.slot(1).val))
        },
        _ => a,
    }
}

/// What an instruction that steers the flow of control does.
pub open spec fn run_flow(e: EngineView, a: EngineView, instr: InstrView) -> EngineView {
    match instr {
        InstrView::If(body) => if e.stack.len() < 1 {
            underflow(a)
        } else if truthy(e.slot(0).val) {
            block(a.drop_top(), body, FrameKind::Plain)
        } else {
            a.drop_top()
        },
        InstrView::IfElse(body, other) => if e.stack.len() < 1 {
            underflow(a)
        } else if truthy(e.slot(0).val) {
            block(a.drop_top(), body, FrameKind::Plain)
        } else {
            block(a.drop_top(), other, FrameKind::Plain)
        },
        InstrView::Loop(body) => block(a, body, FrameKind::Loop),
        InstrView::Returnable(body) => block(a, body, FrameKind::Returnable),
        InstrView::Catch(body) => block(a, body, FrameKind::Catch(e.stack.len() as usize)),
        InstrView::Block(body) => block(a, body, FrameKind::Plain),
        InstrView::Return => a.signalled(ExecuteControl::Return),
        InstrView::Break => a.signalled(ExecuteControl::Break),
        InstrView::Continue => a.signalled(ExecuteControl::Continue),
        InstrView::ForBreak => if e.stack.len() > 0 && e.slot(0).val is Null {
            a.drop_top().signalled(ExecuteControl::Break)
        } else {
            a
        },
        InstrView::LogicOp(op) => if e.stack.len() < 1 {
            underflow(a)
        } else if op is And {
            if truthy(e.slot(0).val) {
                a.drop_top()
            } else {
                a.signalled(ExecuteControl::Return)
            }
        } else if op is Or {
            if truthy(e.slot(0).val) {
                a.signalled(ExecuteControl::Return)
            } else {
                a.drop_top()
            }
        } else {
            a.drop_top().raise(e.bad_operator)
        },
        _ => a,
    }
}

/// What becomes of the state when an operator has looked at its operands: with a
/// result, the `taken` operands make way for it; where the host must help first,
/// nothing moves; where the operands or the operator are wrong, an exception is raised.
/// An operator that has done its work leaves no float held for an operand.
pub open spec fn settle(e: EngineView, a: EngineView, taken: int, out: OutcomeView) -> Stepped {
    match out {
        OutcomeView::Value(v) => next(dropped(a, taken).push(plain(v)).settled()),
        OutcomeView::Convert { slot, value } => ask(e, PendingView::Convert { value, slot }),
        OutcomeView::Arith { op, lhs, rhs } => ask(e, PendingView::Arith { op, lhs, rhs }),
        OutcomeView::Format { slot, value } => ask(e, PendingView::Format { value, slot }),
        OutcomeView::BadArguments => next(dropped(a, taken).raise(e.bad_arguments).settled()),
        OutcomeView::BadOperator => next(dropped(a, taken).raise(e.bad_operator).settled()),
    }
}

/// What a unary operator does.
pub open spec fn run_unary(e: EngineView, a: EngineView, op: TokenView) -> Stepped {
    if !(op is Mul || op is Sub || op is Not || op is Dol) {
        next(a.raise(e.bad_operator))
    } else if e.stack.len() < 1 {
        next(underflow(a))
    } else if op is Mul {
        next(a.drop_top().push(climb(e.slot(0))))
    } else if op is Sub {
        settle(e, a, 1, negate(e.slot(0).val))
    } else if op is Not {
        next(a.drop_top().push(plain(DataView::Bool(!truthy(e.slot(0).val)))))
    } else {
        settle(e, a, 1, stringify(e.slot(0).val))
    }
}

/// What a binary operator does. Arithmetic sees its operands with the floats that the
/// host gave for integers.
pub open spec fn run_binary(e: EngineView, a: EngineView, op: TokenView) -> Stepped {
    if !(op is Sup || op is Dol || arith_op(op) is Some) {
        next(a.raise(e.bad_operator))
    } else if e.stack.len() < 2 {
        next(underflow(a))
    } else if op is Sup {
        next(dropped(a, 2).push(with_sup(e.slot(1), e.slot(0))))
    } else if op is Dol {
        settle(e, a, 2, concat(e.slot(1).val, e.slot(0).val))
    } else {
        settle(e, a, 2, arith(arith_op(op)->Some_0, e.operand(1), e.operand(0)))
    }
}

/// What a comparison does. As a link of a chain it ends the chain with `false` if it
/// does not hold, and else leaves its right operand for the next link: the operand as
/// it stands on the stack, also where a float was held for it.
pub open spec fn run_compare(e: EngineView, a: EngineView, op: TokenView, chain: bool) -> Stepped {
    if e.stack.len() < 2 {
        next(underflow(a))
    } else {
        match compare(op, e.operand(1), e.operand(0)) {
            OutcomeView::Value(v) => if !chain {
                next(dropped(a, 2).push(plain(v)).settled())
            } else if v == DataView::Bool(true) {
                next(dropped(a, 2).push(e.slot(0)).settled())
            } else {
                next(
                    dropped(a, 2).push(plain(DataView::Bool(false))).signalled(
                        ExecuteControl::Return,
                    ).settled(),
                )
            },
            other => settle(e, a, 2, other),
        }
    }
}

} // verus!
