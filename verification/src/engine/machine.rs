use vstd::prelude::*;
use crate::code::InstrView;
use crate::data::DataView;
use crate::data::ItemView;
use crate::data::plain;
use crate::engine::call::run_call;
use crate::engine::rules::Stepped;
use crate::engine::rules::dropped;
use crate::engine::rules::next;
use crate::engine::rules::request_of;
use crate::engine::rules::run_binary;
use crate::engine::rules::run_compare;
use crate::engine::rules::run_flow;
use crate::engine::rules::run_stack;
use crate::engine::rules::run_unary;
use crate::engine::rules::underflow;
use crate::engine::state::ActionView;
use crate::engine::state::EngineView;
use crate::engine::state::FrameKind;
use crate::engine::state::FrameView;
use crate::engine::state::PendingView;
use crate::error::ExecuteControl;
use crate::float::Float;
use crate::module::ModuleView;
use crate::module::build;
use crate::module::error_text;
use crate::prelude::prelude;

verus! {

/// The state after a caught exception: the data stack is cut back to the depth it had
/// when the frame was entered, and holds the exception's value on top.
pub open spec fn caught(e: EngineView, depth: usize) -> EngineView {
    let rest = e.stack.drop_last();
    let kept = if depth < rest.len() {
        rest.take(depth as int)
    } else {
        rest
    };
    EngineView { stack: kept.push(e.stack.last()), ..e.leave().calm() }
}

/// What a signal does to the innermost frame: the frame catches it, or is left.
pub open spec fn unwind(e: EngineView, signal: ExecuteControl) -> EngineView {
    match (e.top().kind, signal) {
        (FrameKind::Loop, ExecuteControl::Break) => e.leave().calm(),
        (FrameKind::Loop, ExecuteControl::Continue) => e.restart().calm(),
        (FrameKind::Returnable, ExecuteControl::Return) => e.leave().calm(),
        (FrameKind::Module, ExecuteControl::Return) => e.leave().calm(),
        (FrameKind::Catch(depth), ExecuteControl::Exception) => if e.stack.len() == 0 {
            e.leave().raise(e.empty_stack)
        } else {
            caught(e, depth)
        },
        _ => e.leave(),
    }
}

/// What happens at the end of the innermost frame: a loop starts again, any other
/// frame is left.
pub open spec fn finish(e: EngineView) -> EngineView {
    if e.top().kind is Loop {
        e.restart()
    } else {
        e.leave()
    }
}

/// What an instruction does.
pub open spec fn run(e: EngineView, instr: InstrView) -> Stepped {
    let a = e.advance();
    match instr {
        InstrView::BinOp(op) => run_binary(e, a, op),
        InstrView::UnOp(op) => run_unary(e, a, op),
        InstrView::CmpOp(op, chain) => run_compare(e, a, op, chain),
        InstrView::Call => run_call(e, a),
        InstrView::PushScope => next(run_stack(e, a, instr)),
        InstrView::PushConst(_) => next(run_stack(e, a, instr)),
        InstrView::PushFunc { .. } => next(run_stack(e, a, instr)),
        InstrView::NewTable => next(run_stack(e, a, instr)),
        InstrView::Pop => next(run_stack(e, a, instr)),
        InstrView::Dup => next(run_stack(e, a, instr)),
        InstrView::SetKey => next(run_stack(e, a, instr)),
        InstrView::Get => next(run_stack(e, a, instr)),
        InstrView::MethodGet => next(run_stack(e, a, instr)),
        InstrView::Nop => next(a),
        _ => next(run_flow(e, a, instr)),
    }
}

/// One step of the machine. While something is pending, the step repeats the request.
/// With no frame left, it reports the end. A signal is taken one frame further out; a
/// frame at its end is left, or started again; else the next instruction is run.
pub open spec fn step(e: EngineView) -> Stepped {
    if !(e.pending is Nothing) {
        Stepped { state: e, action: ActionView::Ask(request_of(e.pending)) }
    } else if e.frames.len() == 0 {
        Stepped { state: e, action: ActionView::Done(e.signal) }
    } else if e.signal is Some {
        next(unwind(e, e.signal->Some_0))
    } else if e.top().pc >= e.top().code.len() {
        next(finish(e))
    } else {
        run(e, e.top().code[e.top().pc as int])
    }
}

/// Up to `fuel` steps, ending early with the first that leaves something to the host.
pub open spec fn steps(e: EngineView, fuel: nat) -> Stepped
    decreases fuel,
{
    if fuel == 0 {
        next(e)
    } else {
        let s = step(e);
        if s.action is Next {
            steps(s.state, (fuel - 1) as nat)
        } else {
            s
        }
    }
}

/// The state after the host gave a float: it is held for the integer that was to be
/// converted, which stays on the stack; or the two operands of the operator make way
/// for it.
pub open spec fn answer_float(e: EngineView, x: Float) -> EngineView {
    match e.pending {
        PendingView::Convert { value, slot } => e.lift(slot, x).waiting(PendingView::Nothing),
        PendingView::Arith { op, lhs, rhs } => if e.stack.len() < 2 {
            underflow(e.advance()).settled().waiting(PendingView::Nothing)
        } else {
            dropped(e.advance(), 2).push(plain(DataView::Float(x))).settled().waiting(
                PendingView::Nothing,
            )
        },
        _ => e,
    }
}

/// The state after the host gave the text of a float: the float is replaced by it.
pub open spec fn answer_text(e: EngineView, text: Seq<char>) -> EngineView {
    match e.pending {
        PendingView::Format { value, slot } => e.with_slot(slot as int, DataView::Str(text)).waiting(
            PendingView::Nothing,
        ),
        _ => e,
    }
}

/// The state with a module loaded: it is the last of the modules, and a frame runs its
/// top level in a fresh scope above the root scope.
pub open spec fn loaded(e: EngineView, m: ModuleView) -> EngineView {
    EngineView {
        mods: e.mods.push(m),
        pending: PendingView::Nothing,
        ..e.with_table().enter(
            FrameView {
                code: m.code,
                pc: 0,
                kind: FrameKind::Module,
                module: e.mods.len() as usize,
                scope: ItemView {
                    val: DataView::Table(e.heap.len() as usize),
                    sup: Some(Box::new(e.scope)),
                },
            },
        )
    }
}

/// The state after an import that failed with the given message.
pub open spec fn failed(e: EngineView, message: Seq<char>) -> EngineView {
    e.waiting(PendingView::Nothing).raise(plain(DataView::Str(message)))
}

/// The state after importing a source text: loaded if it compiles, else with an
/// exception that names the error.
pub open spec fn imported(e: EngineView, name: Seq<char>, source: Seq<char>, floats: Seq<Float>) -> EngineView {
    match build(name, source, floats) {
        Ok(m) => loaded(e, m),
        Err(err) => failed(e, error_text(err)),
    }
}

/// The state of a new engine: nothing loaded, nothing running, and one table, the root
/// scope, which holds the builtins.
pub open spec fn fresh() -> EngineView {
    let root = plain(DataView::Table(0));
    EngineView {
        mods: seq![],
        stack: seq![],
        heap: prelude(seq![Seq::empty()], root),
        scope: root,
        frames: seq![],
        pending: PendingView::Nothing,
        signal: None,
        fault: None,
        lifted_top: None,
        lifted_below: None,
        assertion_failure: plain(DataView::Str("Assertion failure"@)),
        bad_arguments: plain(DataView::Str("Bad arguments"@)),
        bad_operator: plain(DataView::Str("Bad operator"@)),
        empty_stack: plain(DataView::Str("Empty stack"@)),
        not_callable: plain(DataView::Str("Not callable"@)),
    }
}

} // verus!
