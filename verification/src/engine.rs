use vstd::prelude::*;
use vstd::string::*;
use crate::code::Instr;
use crate::code::copy_instrs;
use crate::data::Data;
use crate::data::DataView;
use crate::data::Item;
use crate::data::ItemView;
use crate::data::item_views;
use crate::engine::machine::answer_float;
use crate::engine::machine::answer_text;
use crate::engine::machine::failed;
use crate::engine::machine::finish;
use crate::engine::machine::fresh;
use crate::engine::machine::imported;
use crate::engine::machine::loaded;
use crate::engine::machine::run;
use crate::engine::machine::step;
use crate::engine::machine::steps;
use crate::engine::machine::unwind;
use crate::engine::rules::Stepped;
use crate::engine::rules::next;
pub use crate::engine::state::Action;
pub use crate::engine::state::ActionView;
pub use crate::engine::state::ArithOp;
pub use crate::engine::state::Engine;
pub use crate::engine::state::EngineErrorKind;
pub use crate::engine::state::EngineView;
pub use crate::engine::state::Frame;
pub use crate::engine::state::FrameKind;
pub use crate::engine::state::FrameView;
pub use crate::engine::state::Pending;
pub use crate::engine::state::PendingView;
pub use crate::engine::state::Request;
pub use crate::engine::state::RequestView;
use crate::engine::state::module_views;
pub use crate::error::ExecuteControl;
use crate::float::Float;
use crate::heap::Heap;
use crate::module::Module;
use crate::prelude::insert_prelude;

pub mod bin;
pub mod builtins;
pub mod call;
pub mod compare;
pub mod exec;
pub mod laws;
pub mod machine;
pub mod ops;
pub mod rules;
pub mod state;
pub mod un;

verus! {

/// How running code ended: `Ok`, or the signal that stopped it.
pub type Execute = Result<(), ExecuteControl>;

impl Engine {
    /// An engine with the builtins bound in its root scope.
    pub fn new() -> (r: Engine)
        ensures
            r@ == fresh(),
    {
        let mut heap = Heap::new();
        let root = Data::new_table(&mut heap).into_item();
        insert_prelude(&root, &mut heap);
        let r = Engine {
            mods: Vec::new(),
            data_stack: Vec::new(),
            heap,
            scope: root,
            frames: Vec::new(),
            pending: Pending::Nothing,
            signal: None,
            fault: None,
            lifted_top: None,
            lifted_below: None,
            assertion_failure: Data::Str(String::from_str("Assertion failure")).into_item(),
            bad_arguments: Data::Str(String::from_str("Bad arguments")).into_item(),
            bad_operator: Data::Str(String::from_str("Bad operator")).into_item(),
            empty_stack: Data::Str(String::from_str("Empty stack")).into_item(),
            not_callable: Data::Str(String::from_str("Not callable")).into_item(),
        };
        proof {
            assert(r@.mods =~= seq![]);
            assert(r@.stack =~= seq![]);
            assert(r@.frames =~= seq![]);
            assert(Seq::<crate::heap::TableView>::empty().push(Seq::empty()) =~= seq![
                Seq::empty(),
            ]);
        }
        r
    }

    /// Takes a signal one frame further out.
    pub fn unwind(&mut self, signal: ExecuteControl)
        requires
            old(self).frames@.len() > 0,
        ensures
            final(self)@ == unwind(old(self)@, signal),
    {
        let ghost e = self@;
        let n = self.frames.len();
        let kind = self.frames[n - 1].kind;
        match (kind, signal) {
            (FrameKind::Loop, ExecuteControl::Break) => {
                self.leave();
                self.signal = None;
            },
            (FrameKind::Loop, ExecuteControl::Continue) => {
                self.restart();
                self.signal = None;
            },
            (FrameKind::Returnable, ExecuteControl::Return) => {
                self.leave();
                self.signal = None;
            },
            (FrameKind::Module, ExecuteControl::Return) => {
                self.leave();
                self.signal = None;
            },
            (FrameKind::Catch(depth), ExecuteControl::Exception) => {
                self.leave();
                match self.take() {
                    Some(exc) => {
                        self.signal = None;
                        let ghost rest = e.stack.drop_last();
                        if depth < self.data_stack.len() {
                            self.data_stack.truncate(depth);
                            assert(item_views(self.data_stack@) =~= rest.take(depth as int));
                        }
                        self.push(exc);
                    },
                    None => {
                        let exc = self.empty_stack.copy();
                        self.push(exc);
                        self.raise_signal(ExecuteControl::Exception);
                    },
                }
            },
            _ => {
                self.leave();
            },
        }
    }

    /// Ends the innermost frame, or starts it again if it is a loop.
    pub fn finish(&mut self)
        requires
            old(self).frames@.len() > 0,
        ensures
            final(self)@ == finish(old(self)@),
    {
        let n = self.frames.len();
        match self.frames[n - 1].kind {
            FrameKind::Loop => {
                self.restart();
            },
            _ => {
                self.leave();
            },
        }
    }

    /// Runs one instruction.
    pub fn ex(&mut self, instr: &Instr) -> (r: Action)
        requires
            old(self).frames@.len() > 0,
        ensures
            (Stepped { state: final(self)@, action: r@ }) == run(old(self)@, instr@),
    {
        let ghost e = self@;
        match instr {
            Instr::BinOp(op) => self.run_binary(op),
            Instr::UnOp(op) => self.run_unary(op),
            Instr::CmpOp(op, chain) => self.run_compare(op, *chain),
            Instr::Call => self.run_call(),
            Instr::Nop => {
                self.advance();
                Action::Next
            },
            Instr::PushScope | Instr::PushConst(_) | Instr::PushFunc { .. } | Instr::NewTable
            | Instr::Pop | Instr::Dup | Instr::SetKey | Instr::Get | Instr::MethodGet => {
                self.advance();
                self.run_stack(instr, Ghost(e));
                Action::Next
            },
            _ => {
                self.advance();
                self.run_flow(instr, Ghost(e));
                Action::Next
            },
        }
    }

    /// One step of the machine.
    pub fn step(&mut self) -> (r: Action)
        ensures
            (Stepped { state: final(self)@, action: r@ }) == step(old(self)@),
    {
        match &self.pending {
            Pending::Nothing => {},
            Pending::Convert { value, slot } => {
                return Action::Ask(Request::Convert(*value));
            },
            Pending::Arith { op, lhs, rhs } => {
                return Action::Ask(Request::Arith(*op, *lhs, *rhs));
            },
            Pending::Format { value, slot } => {
                return Action::Ask(Request::Format(*value));
            },
            Pending::Import(name) => {
                return Action::Ask(Request::Import(name.clone()));
            },
        }
        let n = self.frames.len();
        assert(n == self@.frames.len());
        if n == 0 {
            return Action::Done(self.signal);
        }
        match self.signal {
            Some(signal) => {
                self.unwind(signal);
                return Action::Next;
            },
            None => {},
        }
        let pc = self.frames[n - 1].pc;
        if pc >= self.frames[n - 1].code.len() {
            self.finish();
            return Action::Next;
        }
        let instr = self.frames[n - 1].code[pc].copy();
        assert(instr@ == self@.top().code[pc as int]);
        self.ex(&instr)
    }

    /// Up to `fuel` steps, ending early with the first that leaves something to the host.
    pub fn ex_many(&mut self, fuel: u64) -> (r: Action)
        ensures
            (Stepped { state: final(self)@, action: r@ }) == steps(old(self)@, fuel as nat),
    {
        let mut left = fuel;
        while left > 0
            invariant
                steps(old(self)@, fuel as nat) == steps(self@, left as nat),
            decreases left,
        {
            let action = self.step();
            match action {
                Action::Next => {},
                other => {
                    return other;
                },
            }
            left = left - 1;
        }
        Action::Next
    }

    /// Gives the engine the float that it asked for.
    pub fn answer_float(&mut self, x: Float)
        ensures
            final(self)@ == answer_float(old(self)@, x),
    {
        let (kind, slot): (u8, usize) = match &self.pending {
            Pending::Convert { value, slot } => (1, *slot),
            Pending::Arith { op, lhs, rhs } => (2, 0),
            _ => (0, 0),
        };
        if kind == 1 {
            self.lift(slot, x);
            self.pending = Pending::Nothing;
        } else if kind == 2 {
            self.advance();
            if self.data_stack.len() < 2 {
                self.underflow();
            } else {
                self.drop_values(2);
                self.push(Data::Float(x).into_item());
            }
            self.settle_operands();
            self.pending = Pending::Nothing;
        }
    }

    /// Gives the engine the text of the float that it asked for.
    pub fn answer_text(&mut self, text: String)
        ensures
            final(self)@ == answer_text(old(self)@, text@),
    {
        let (kind, slot): (u8, usize) = match &self.pending {
            Pending::Format { value, slot } => (1, *slot),
            _ => (0, 0),
        };
        if kind == 1 {
            self.set_slot(slot, Data::Str(text));
            self.pending = Pending::Nothing;
        }
    }

    /// Registers a compiled module and makes its top level the code to run next, in a
    /// fresh scope above the root scope. An import that the engine asked for is
    /// answered by this.
    pub fn load_module(&mut self, module: Module)
        ensures
            final(self)@ == loaded(old(self)@, module@),
    {
        let ghost e = self@;
        let at = self.mods.len();
        let code = copy_instrs(&module.code);
        self.mods.push(module);
        assert(module_views(self.mods@) =~= e.mods.push(module@));
        let t = self.new_table();
        let scope = Item { val: Data::Table(t), sup: Some(Box::new(self.scope.copy())) };
        assert(scope@ == ItemView { val: DataView::Table(t), sup: Some(Box::new(e.scope)) });
        self.enter(Frame { code, pc: 0, kind: FrameKind::Module, module: at, scope });
        self.pending = Pending::Nothing;
    }

    /// Compiles a source text, registers it under the file's name and makes its top
    /// level the code to run next; the float literals of the text take their values
    /// from `floats`, in order. If the text does not compile, an exception that names
    /// the error is raised instead.
    pub fn import(&mut self, filename: &str, source: &str, floats: &Vec<Float>) -> (r: Execute)
        ensures
            final(self)@ == imported(old(self)@, filename@, source@, floats@),
            r is Ok <==> crate::module::build(filename@, source@, floats@) is Ok,
            r is Err ==> r == Err::<(), ExecuteControl>(ExecuteControl::Exception),
    {
        match Module::new(filename, source, floats) {
            Ok(module) => {
                self.load_module(module);
                Ok(())
            },
            Err(why) => {
                self.pending = Pending::Nothing;
                let exc = Data::Str(why.describe()).into_item();
                self.panic(exc)
            },
        }
    }

    /// Fails the import that the engine asked for, with a message.
    pub fn fail_import(&mut self, message: String) -> (r: Execute)
        ensures
            final(self)@ == failed(old(self)@, message@),
            r == Err::<(), ExecuteControl>(ExecuteControl::Exception),
    {
        self.pending = Pending::Nothing;
        let exc = Data::Str(message).into_item();
        self.panic(exc)
    }
}

} // verus!
