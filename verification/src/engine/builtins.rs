use vstd::prelude::*;
use crate::data::Builtin;
use crate::data::Data;
use crate::engine::rules::Stepped;
use crate::engine::rules::ask;
use crate::engine::rules::dropped;
use crate::engine::rules::underflow;
use crate::engine::state::Action;
use crate::engine::state::Engine;
use crate::engine::state::Pending;
use crate::error::ExecuteControl;
use crate::heap::get_key;
use crate::heap::set_key;

use crate::engine::call::run_builtin;

verus! {

/// The builtin `table`: gives a fresh empty table.
pub fn table(engine: &mut Engine) -> (r: Action)
    ensures
        (Stepped { state: final(engine)@, action: r@ }) == run_builtin(
            old(engine)@,
            old(engine)@.advance(),
            Builtin::Table,
        ),
{
    let ghost a = engine@.advance();
    engine.advance();
    if engine.data_stack.len() < 1 {
        engine.underflow();
        return Action::Next;
    }
    engine.drop_values(1);
    assert(dropped(a, 1).stack =~= a.drop_top().stack);
    let t = engine.new_table();
    engine.push(Data::Table(t).into_item());
    Action::Next
}

/// The builtin `panic`: raises an exception whose value is what lies on top of the
/// data stack.
pub fn panic(engine: &mut Engine) -> (r: Action)
    ensures
        (Stepped { state: final(engine)@, action: r@ }) == run_builtin(
            old(engine)@,
            old(engine)@.advance(),
            Builtin::Panic,
        ),
{
    let ghost a = engine@.advance();
    engine.advance();
    if engine.data_stack.len() < 1 {
        engine.underflow();
        return Action::Next;
    }
    engine.drop_values(1);
    assert(dropped(a, 1).stack =~= a.drop_top().stack);
    engine.raise_signal(ExecuteControl::Exception);
    Action::Next
}

/// The builtin `print`: hands the text of its argument to the host as a line to print,
/// and gives null.
pub fn print(engine: &mut Engine) -> (r: Action)
    ensures
        (Stepped { state: final(engine)@, action: r@ }) == run_builtin(
            old(engine)@,
            old(engine)@.advance(),
            Builtin::Print,
        ),
{
    if engine.data_stack.len() < 2 {
        engine.advance();
        engine.underflow();
        return Action::Next;
    }
    let x = engine.peek(1);
    match x.val.to_string() {
        Some(text) => {
            engine.advance();
            engine.drop_values(2);
            engine.push(Data::Null.into_item());
            Action::Print(text)
        },
        None => match x.val {
            Data::Float(value) => engine.ask(Pending::Format { value, slot: 1 }),
            _ => Action::Next,
        },
    }
}

/// The builtin `import`: asks the host for the module that its argument names.
pub fn import(engine: &mut Engine) -> (r: Action)
    ensures
        (Stepped { state: final(engine)@, action: r@ }) == run_builtin(
            old(engine)@,
            old(engine)@.advance(),
            Builtin::Import,
        ),
{
    if engine.data_stack.len() < 2 {
        engine.advance();
        engine.underflow();
        return Action::Next;
    }
    let x = engine.peek(1);
    engine.advance();
    engine.drop_values(2);
    match x.val {
        Data::Str(name) => engine.ask(Pending::Import(name)),
        _ => {
            let exc = engine.bad_arguments.copy();
            engine.push(exc);
            engine.raise_signal(ExecuteControl::Exception);
            Action::Next
        },
    }
}

/// The builtin `assert`: raises the assertion failure unless its argument counts as
/// true, and else gives null.
pub fn assert_truth(engine: &mut Engine) -> (r: Action)
    ensures
        (Stepped { state: final(engine)@, action: r@ }) == run_builtin(
            old(engine)@,
            old(engine)@.advance(),
            Builtin::Assert,
        ),
{
    if engine.data_stack.len() < 2 {
        engine.advance();
        engine.underflow();
        return Action::Next;
    }
    let x = engine.peek(1);
    engine.advance();
    engine.drop_values(2);
    if x.truth() {
        engine.push(Data::Null.into_item());
    } else {
        let exc = engine.assertion_failure.copy();
        engine.push(exc);
        engine.raise_signal(ExecuteControl::Exception);
    }
    Action::Next
}

/// The builtin `get`: gives what a scope holds under a key.
pub fn get(engine: &mut Engine) -> (r: Action)
    ensures
        (Stepped { state: final(engine)@, action: r@ }) == run_builtin(
            old(engine)@,
            old(engine)@.advance(),
            Builtin::Get,
        ),
{
    if engine.data_stack.len() < 3 {
        engine.advance();
        engine.underflow();
        return Action::Next;
    }
    let scope = engine.peek(1);
    let key = engine.peek(2);
    engine.advance();
    engine.drop_values(3);
    let val = scope.get_key(&engine.heap, &key.val);
    engine.push(val);
    Action::Next
}

/// The builtin `set`: sets a value under a key in a scope, and gives the value.
pub fn set_mask(engine: &mut Engine) -> (r: Action)
    ensures
        (Stepped { state: final(engine)@, action: r@ }) == run_builtin(
            old(engine)@,
            old(engine)@.advance(),
            Builtin::SetKey,
        ),
{
    if engine.data_stack.len() < 4 {
        engine.advance();
        engine.underflow();
        return Action::Next;
    }
    let scope = engine.peek(1);
    let key = engine.peek(2);
    let val = engine.peek(3);
    engine.advance();
    engine.drop_values(4);
    scope.set_key(&mut engine.heap, key.val, val.copy());
    engine.push(val);
    Action::Next
}

} // verus!
