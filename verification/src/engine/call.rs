use vstd::prelude::*;
use crate::code::Instr;
use crate::code::instr_views;
use crate::data::Builtin;
use crate::data::Data;
use crate::data::DataView;
use crate::data::Item;
use crate::data::ItemView;
use crate::data::data_text;
use crate::data::null_item;
use crate::data::plain;
use crate::data::truthy;
use crate::engine::rules::Stepped;
use crate::engine::rules::ask;
use crate::engine::rules::dropped;
use crate::engine::rules::next;
use crate::engine::rules::underflow;
use crate::engine::state::Action;
use crate::engine::state::ActionView;
use crate::engine::state::Engine;
use crate::engine::state::EngineErrorKind;
use crate::engine::state::EngineView;
use crate::engine::state::Frame;
use crate::engine::state::FrameKind;
use crate::engine::state::FrameView;
use crate::engine::state::PendingView;
use crate::error::ExecuteControl;
use crate::heap::get_key;
use crate::heap::set_key;
use crate::module::ModuleView;

verus! {

/// Index of the last of the first `n` modules with the given name, or the number of
/// modules if none of them has it. A module that is registered under a name replaces,
/// for every call that follows, the module that had the name before.
pub open spec fn find_module(mods: Seq<ModuleView>, name: Seq<char>, n: nat) -> nat
    decreases n,
{
    if n == 0 || n > mods.len() {
        mods.len()
    } else if mods[n - 1].name == name {
        (n - 1) as nat
    } else {
        find_module(mods, name, (n - 1) as nat)
    }
}

/// What a builtin does when it is called; the builtin itself is on top of the stack,
/// its arguments below it.
pub open spec fn run_builtin(e: EngineView, a: EngineView, b: Builtin) -> Stepped {
    match b {
        Builtin::Table => if e.stack.len() < 1 {
            next(underflow(a))
        } else {
            next(a.drop_top().with_table().push(plain(DataView::Table(e.heap.len() as usize))))
        },
        Builtin::Panic => if e.stack.len() < 1 {
            next(underflow(a))
        } else {
            next(a.drop_top().signalled(ExecuteControl::Exception))
        },
        Builtin::Print => if e.stack.len() < 2 {
            next(underflow(a))
        } else {
            match e.slot(1).val {
                DataView::Float(x) => ask(e, PendingView::Format { value: x, slot: 1 }),
                v => Stepped {
                    state: dropped(a, 2).push(null_item()),
                    action: ActionView::Print(data_text(v)->Some_0),
                },
            }
        },
        Builtin::Import => if e.stack.len() < 2 {
            next(underflow(a))
        } else {
            match e.slot(1).val {
                DataView::Str(name) => ask(dropped(a, 2), PendingView::Import(name)),
                _ => next(dropped(a, 2).raise(e.bad_arguments)),
            }
        },
        Builtin::Assert => if e.stack.len() < 2 {
            next(underflow(a))
        } else if truthy(e.slot(1).val) {
            next(dropped(a, 2).push(null_item()))
        } else {
            next(dropped(a, 2).raise(e.assertion_failure))
        },
        Builtin::Get => if e.stack.len() < 3 {
            next(underflow(a))
        } else {
            next(dropped(a, 3).push(get_key(e.heap, e.slot(1), e.slot(2).val)))
        },
        Builtin::SetKey => if e.stack.len() < 4 {
            next(underflow(a))
        } else {
            next(
                EngineView {
                    heap: set_key(e.heap, e.slot(1), e.slot(2).val, e.slot(3)),
                    ..dropped(a, 4).push(e.slot(3))
                },
            )
        },
    }
}

/// What a call does. A function runs in a fresh scope above the scope it was made in,
/// or, if it has none, in the scope of the caller.
pub open spec fn run_call(e: EngineView, a: EngineView) -> Stepped {
    if e.stack.len() < 1 {
        next(underflow(a))
    } else {
        match e.slot(0).val {
            DataView::Func { id, nargs, module } => {
                let at = find_module(e.mods, module, e.mods.len());
                if at >= e.mods.len() {
                    next(a.drop_top().fatal(EngineErrorKind::BadModule))
                } else if id >= e.mods[at as int].funcs.len() {
                    next(a.drop_top().fatal(EngineErrorKind::BadFunc))
                } else {
                    let code = seq![e.mods[at as int].funcs[id as int]];
                    match e.slot(0).sup {
                        Some(made_in) => next(
                            a.drop_top().with_table().enter(
                                FrameView {
                                    code,
                                    pc: 0,
                                    kind: FrameKind::Call,
                                    module: at as usize,
                                    scope: ItemView {
                                        val: DataView::Table(e.heap.len() as usize),
                                        sup: Some(made_in),
                                    },
                                },
                            ),
                        ),
                        None => next(
                            a.drop_top().enter(
                                FrameView {
                                    code,
                                    pc: 0,
                                    kind: FrameKind::Call,
                                    module: at as usize,
                                    scope: e.top().scope,
                                },
                            ),
                        ),
                    }
                }
            },
            DataView::Rust(f) => run_builtin(e, a, f.0),
            _ => next(a.drop_top().raise(e.not_callable)),
        }
    }
}

/// `find_module` is the last index below `n` with the name, or the length.
pub proof fn lemma_find_module(mods: Seq<ModuleView>, name: Seq<char>, n: nat, j: nat)
    requires
        n <= mods.len(),
        j < n ==> mods[j as int].name == name,
        j >= n ==> j == mods.len(),
        forall|k: int| j < k < n ==> mods[k].name != name,
        forall|k: int| j == mods.len() && 0 <= k < n ==> mods[k].name != name,
    ensures
        find_module(mods, name, n) == j,
    decreases n,
{
    if n > 0 && j != n - 1 {
        lemma_find_module(mods, name, (n - 1) as nat, j);
    }
}

/// The module that was registered last under a name is the one that is found.
pub proof fn lemma_last_registered_is_found(mods: Seq<ModuleView>, m: ModuleView)
    ensures
        find_module(mods.push(m), m.name, mods.push(m).len()) == mods.len(),
{
}

impl Engine {
    /// Index of the last module with the given name, or the number of modules.
    pub fn find_module(&self, name: &String) -> (at: usize)
        ensures
            at == find_module(self@.mods, name@, self@.mods.len()),
            at <= self.mods@.len(),
    {
        let mut i: usize = self.mods.len();
        while i > 0
            invariant
                i <= self.mods@.len(),
                forall|k: int| i <= k < self.mods@.len() ==> self@.mods[k].name != name@,
            decreases i,
        {
            if self.mods[i - 1].name == *name {
                proof {
                    lemma_find_module(self@.mods, name@, self@.mods.len(), (i - 1) as nat);
                }
                return i - 1;
            }
            i = i - 1;
        }
        proof {
            lemma_find_module(self@.mods, name@, self@.mods.len(), self@.mods.len());
        }
        self.mods.len()
    }

    /// Runs a builtin that was called.
    pub fn run_builtin(&mut self, b: Builtin) -> (r: Action)
        ensures
            (Stepped { state: final(self)@, action: r@ }) == run_builtin(
                old(self)@,
                old(self)@.advance(),
                b,
            ),
    {
        match b {
            Builtin::Table => crate::engine::builtins::table(self),
            Builtin::Panic => crate::engine::builtins::panic(self),
            Builtin::Print => crate::engine::builtins::print(self),
            Builtin::Import => crate::engine::builtins::import(self),
            Builtin::Assert => crate::engine::builtins::assert_truth(self),
            Builtin::Get => crate::engine::builtins::get(self),
            Builtin::SetKey => crate::engine::builtins::set_mask(self),
        }
    }

    /// Runs a call.
    pub fn run_call(&mut self) -> (r: Action)
        requires
            old(self).frames@.len() > 0,
        ensures
            (Stepped { state: final(self)@, action: r@ }) == run_call(
                old(self)@,
                old(self)@.advance(),
            ),
    {
        let ghost e = self@;
        let ghost a = e.advance();
        if self.data_stack.len() < 1 {
            self.advance();
            self.underflow();
            return Action::Next;
        }
        let callee = self.peek(0);
        match callee.val {
            Data::Func { id, nargs, module } => {
                let at = self.find_module(&module);
                self.advance();
                self.drop_values(1);
                assert(dropped(a, 1).stack =~= a.drop_top().stack);
                if at >= self.mods.len() {
                    self.fail(EngineErrorKind::BadModule);
                } else if id >= self.mods[at].funcs.len() {
                    self.fail(EngineErrorKind::BadFunc);
                } else {
                    let mut code: Vec<Instr> = Vec::new();
                    code.push(self.mods[at].funcs[id].copy());
                    assert(instr_views(code) =~= seq![e.mods[at as int].funcs[id as int]]);
                    let n = self.frames.len();
                    assert(n == self@.frames.len());
                    assert(self@.top().scope == e.top().scope);
                    let scope = match callee.sup {
                        Some(made_in) => {
                            let t = self.new_table();
                            let scope = Item { val: Data::Table(t), sup: Some(made_in) };
                            assert(scope@ == ItemView {
                                val: DataView::Table(t),
                                sup: e.slot(0).sup,
                            });
                            scope
                        },
                        None => {
                            assert(e.slot(0).sup is None);
                            self.frames[n - 1].scope.copy()
                        },
                    };
                    self.enter(Frame { code, pc: 0, kind: FrameKind::Call, module: at, scope });
                }
                Action::Next
            },
            Data::Rust(f) => self.run_builtin(f.0),
            _ => {
                self.advance();
                self.drop_values(1);
                assert(dropped(a, 1).stack =~= a.drop_top().stack);
                let exc = self.not_callable.copy();
                self.push(exc);
                self.raise_signal(ExecuteControl::Exception);
                Action::Next
            },
        }
    }
}

} // verus!
