use vstd::prelude::*;
use crate::code::Instr;
use crate::code::InstrView;
use crate::code::instr_views;
use crate::data::Data;
use crate::data::DataView;
use crate::data::Item;
use crate::data::ItemView;
use crate::data::item_views;
use crate::error::ExecuteControl;
use crate::float::Float;
use crate::heap::Heap;
use crate::heap::HeapView;
use crate::module::Module;
use crate::module::ModuleView;

verus! {

/// Why the engine stopped for good: the code it ran is not code that the compiler makes.
#[derive(Debug, Clone, Copy, PartialEq, Eq, Structural)]
pub enum EngineErrorKind {
    /// A constant's index is outside the module's pool.
    BadConst,
    /// A function's index is outside the module's function table.
    BadFunc,
    /// A function names a module that is not loaded.
    BadModule,
}

/// What a frame does with the signals that reach it.
#[derive(Debug, Clone, Copy, PartialEq, Eq, Structural)]
pub enum FrameKind {
    /// Lets every signal pass.
    Plain,
    /// Ends on `Break`, starts again on `Continue` and at its end.
    Loop,
    /// Ends on `Return`.
    Returnable,
    /// Turns an exception into a value; holds the depth of the data stack at its start.
    Catch(usize),
    /// The body of a called function.
    Call,
    /// The top level of a module; ends on `Return`.
    Module,
}

/// A sequence of instructions that is being run.
#[derive(Debug)]
pub struct Frame {
    pub code: Vec<Instr>,
    /// Index of the next instruction.
    pub pc: usize,
    pub kind: FrameKind,
    /// Index of the module that the code belongs to.
    pub module: usize,
    /// The scope that the code runs in.
    pub scope: Item,
}

/// The mathematical value of a [`Frame`].
pub struct FrameView {
    pub code: Seq<InstrView>,
    pub pc: usize,
    pub kind: FrameKind,
    pub module: usize,
    pub scope: ItemView,
}

impl View for Frame {
    type V = FrameView;

    open spec fn view(&self) -> FrameView {
        FrameView {
            code: instr_views(self.code),
            pc: self.pc,
            kind: self.kind,
            module: self.module,
            scope: self.scope@,
        }
    }
}

/// An arithmetic operator on two floats.
#[derive(Debug, Clone, Copy, PartialEq, Eq, Structural)]
pub enum ArithOp {
    Add,
    Sub,
    Mul,
    Div,
}

/// What the engine waits for the host to do.
#[derive(Debug)]
pub enum Pending {
    Nothing,
    /// The float nearest to the integer at the given depth of the stack; the integer
    /// stays where it is, the float is held beside the stack.
    Convert { value: i64, slot: usize },
    /// The result of an operator on the two floats on top of the stack.
    Arith { op: ArithOp, lhs: Float, rhs: Float },
    /// The text of a float, for the value at the given depth of the stack.
    Format { value: Float, slot: usize },
    /// The source text of a module.
    Import(String),
}

/// The mathematical value of a [`Pending`].
pub enum PendingView {
    Nothing,
    Convert { value: i64, slot: usize },
    Arith { op: ArithOp, lhs: Float, rhs: Float },
    Format { value: Float, slot: usize },
    Import(Seq<char>),
}

impl View for Pending {
    type V = PendingView;

    open spec fn view(&self) -> PendingView {
        match self {
            Pending::Nothing => PendingView::Nothing,
            Pending::Convert { value, slot } => PendingView::Convert { value: *value, slot: *slot },
            Pending::Arith { op, lhs, rhs } => PendingView::Arith { op: *op, lhs: *lhs, rhs: *rhs },
            Pending::Format { value, slot } => PendingView::Format { value: *value, slot: *slot },
            Pending::Import(name) => PendingView::Import(name@),
        }
    }
}

/// What the engine asks of its host.
#[derive(Debug, PartialEq, Eq)]
pub enum Request {
    /// The float nearest to the integer; answered with a float.
    Convert(i64),
    /// The result of the operator on the two floats; answered with a float.
    Arith(ArithOp, Float, Float),
    /// The text of the float; answered with a text.
    Format(Float),
    /// The source text of the module of that name; answered by loading it, or by
    /// failing the import.
    Import(String),
}

/// The mathematical value of a [`Request`].
pub enum RequestView {
    Convert(i64),
    Arith(ArithOp, Float, Float),
    Format(Float),
    Import(Seq<char>),
}

impl View for Request {
    type V = RequestView;

    open spec fn view(&self) -> RequestView {
        match self {
            Request::Convert(x) => RequestView::Convert(*x),
            Request::Arith(op, a, b) => RequestView::Arith(*op, *a, *b),
            Request::Format(x) => RequestView::Format(*x),
            Request::Import(s) => RequestView::Import(s@),
        }
    }
}

/// What a step of the engine leaves for its host to do.
#[derive(Debug, PartialEq, Eq)]
pub enum Action {
    /// Nothing: the next step can follow.
    Next,
    /// Nothing is left to run; the signal, if any, was caught by no frame.
    Done(Option<ExecuteControl>),
    /// A line to print.
    Print(String),
    /// Something that only the host can compute or fetch; no step does anything until
    /// it is answered.
    Ask(Request),
}

/// The mathematical value of an [`Action`].
pub enum ActionView {
    Next,
    Done(Option<ExecuteControl>),
    Print(Seq<char>),
    Ask(RequestView),
}

impl View for Action {
    type V = ActionView;

    open spec fn view(&self) -> ActionView {
        match self {
            Action::Next => ActionView::Next,
            Action::Done(s) => ActionView::Done(*s),
            Action::Print(s) => ActionView::Print(s@),
            Action::Ask(r) => ActionView::Ask(r@),
        }
    }
}

/// The values of a sequence of frames.
pub open spec fn frame_views(v: Seq<Frame>) -> Seq<FrameView> {
    Seq::new(v.len(), |i: int| v[i]@)
}

/// The values of a sequence of modules.
pub open spec fn module_views(v: Seq<Module>) -> Seq<ModuleView> {
    Seq::new(v.len(), |i: int| v[i]@)
}

/// The state of the stack machine.
#[derive(Debug)]
pub struct Engine {
    /// The loaded modules, in the order in which they were registered; under a name
    /// the last one is found.
    pub mods: Vec<Module>,
    pub data_stack: Vec<Item>,
    pub heap: Heap,
    /// The root scope, which holds the builtins.
    pub scope: Item,
    /// The code being run, innermost last.
    pub frames: Vec<Frame>,
    pub pending: Pending,
    /// The signal that is looking for a frame to catch it.
    pub signal: Option<ExecuteControl>,
    /// Why the engine signalled `Other`.
    pub fault: Option<EngineErrorKind>,
    /// The float that the host gave for the integer on top of the stack, while the
    /// operator that asked for it is at work; the integer itself stays on the stack.
    pub lifted_top: Option<Float>,
    /// The same for the integer below the top.
    pub lifted_below: Option<Float>,
    pub assertion_failure: Item,
    pub bad_arguments: Item,
    pub bad_operator: Item,
    pub empty_stack: Item,
    pub not_callable: Item,
}

/// The mathematical value of an [`Engine`].
pub struct EngineView {
    pub mods: Seq<ModuleView>,
    pub stack: Seq<ItemView>,
    pub heap: HeapView,
    pub scope: ItemView,
    pub frames: Seq<FrameView>,
    pub pending: PendingView,
    pub signal: Option<ExecuteControl>,
    pub fault: Option<EngineErrorKind>,
    pub lifted_top: Option<Float>,
    pub lifted_below: Option<Float>,
    pub assertion_failure: ItemView,
    pub bad_arguments: ItemView,
    pub bad_operator: ItemView,
    pub empty_stack: ItemView,
    pub not_callable: ItemView,
}

impl View for Engine {
    type V = EngineView;

    open spec fn view(&self) -> EngineView {
        EngineView {
            mods: module_views(self.mods@),
            stack: item_views(self.data_stack@),
            heap: self.heap@,
            scope: self.scope@,
            frames: frame_views(self.frames@),
            pending: self.pending@,
            signal: self.signal,
            fault: self.fault,
            lifted_top: self.lifted_top,
            lifted_below: self.lifted_below,
            assertion_failure: self.assertion_failure@,
            bad_arguments: self.bad_arguments@,
            bad_operator: self.bad_operator@,
            empty_stack: self.empty_stack@,
            not_callable: self.not_callable@,
        }
    }
}

impl EngineView {
    /// With an item pushed on the data stack.
    pub open spec fn push(self, item: ItemView) -> EngineView {
        EngineView { stack: self.stack.push(item), ..self }
    }

    /// With the top of the data stack dropped.
    pub open spec fn drop_top(self) -> EngineView {
        EngineView { stack: self.stack.drop_last(), ..self }
    }

    /// With a signal set.
    pub open spec fn signalled(self, signal: ExecuteControl) -> EngineView {
        EngineView { signal: Some(signal), ..self }
    }

    /// With an exception raised: its value pushed, the signal set.
    pub open spec fn raise(self, exc: ItemView) -> EngineView {
        self.push(exc).signalled(ExecuteControl::Exception)
    }

    /// Stopped for good.
    pub open spec fn fatal(self, why: EngineErrorKind) -> EngineView {
        EngineView { signal: Some(ExecuteControl::Other), fault: Some(why), ..self }
    }

    /// The value at a depth of the data stack, 0 being the top.
    pub open spec fn slot(self, depth: int) -> ItemView {
        self.stack[self.stack.len() - 1 - depth]
    }

    /// With the value at a depth of the data stack replaced; its super link stays.
    pub open spec fn with_slot(self, depth: int, val: DataView) -> EngineView {
        if 0 <= depth < self.stack.len() {
            let at = self.stack.len() - 1 - depth;
            EngineView {
                stack: self.stack.update(at, ItemView { val, sup: self.stack[at].sup }),
                ..self
            }
        } else {
            self
        }
    }

    /// The value that an operator sees at a depth of the data stack: the float that the
    /// host gave for the integer there, if it gave one, else the value itself.
    pub open spec fn operand(self, depth: int) -> DataView {
        if depth == 0 && self.lifted_top is Some {
            DataView::Float(self.lifted_top->Some_0)
        } else if depth == 1 && self.lifted_below is Some {
            DataView::Float(self.lifted_below->Some_0)
        } else {
            self.slot(depth).val
        }
    }

    /// With the float that the host gave for the integer at a depth of the data stack;
    /// the stack stays as it is.
    pub open spec fn lift(self, depth: usize, x: Float) -> EngineView {
        if depth == 0 {
            EngineView { lifted_top: Some(x), ..self }
        } else if depth == 1 {
            EngineView { lifted_below: Some(x), ..self }
        } else {
            self
        }
    }

    /// With no float held for an operand: the state after an operator has done its work.
    pub open spec fn settled(self) -> EngineView {
        EngineView { lifted_top: None, lifted_below: None, ..self }
    }

    /// The innermost frame.
    pub open spec fn top(self) -> FrameView {
        self.frames.last()
    }

    /// With the innermost frame moved to its next instruction.
    pub open spec fn advance(self) -> EngineView {
        if self.frames.len() > 0 {
            let f = self.top();
            EngineView {
                frames: self.frames.update(
                    self.frames.len() - 1,
                    FrameView {
                        pc: if f.pc < usize::MAX {
                            (f.pc + 1) as usize
                        } else {
                            f.pc
                        },
                        ..f
                    },
                ),
                ..self
            }
        } else {
            self
        }
    }

    /// With the innermost frame started again.
    pub open spec fn restart(self) -> EngineView {
        if self.frames.len() > 0 {
            let f = self.top();
            EngineView {
                frames: self.frames.update(self.frames.len() - 1, FrameView { pc: 0, ..f }),
                ..self
            }
        } else {
            self
        }
    }

    /// With a frame entered.
    pub open spec fn enter(self, frame: FrameView) -> EngineView {
        EngineView { frames: self.frames.push(frame), ..self }
    }

    /// With the innermost frame left.
    pub open spec fn leave(self) -> EngineView {
        if self.frames.len() > 0 {
            EngineView { frames: self.frames.drop_last(), ..self }
        } else {
            self
        }
    }

    /// With a fresh empty table in the heap.
    pub open spec fn with_table(self) -> EngineView {
        EngineView { heap: self.heap.push(Seq::empty()), ..self }
    }

    /// With no signal.
    pub open spec fn calm(self) -> EngineView {
        EngineView { signal: None, ..self }
    }

    /// With something pending.
    pub open spec fn waiting(self, pending: PendingView) -> EngineView {
        EngineView { pending, ..self }
    }
}

impl Engine {
    /// Pushes an item on the data stack.
    pub fn push(&mut self, item: Item)
        ensures
            final(self)@ == old(self)@.push(item@),
    {
        self.data_stack.push(item);
        assert(item_views(self.data_stack@) =~= item_views(old(self).data_stack@).push(item@));
    }

    /// Takes the top of the data stack, if there is one.
    pub fn take(&mut self) -> (r: Option<Item>)
        ensures
            match r {
                Some(item) => old(self)@.stack.len() > 0 && item@ == old(self)@.stack.last()
                    && final(self)@ == old(self)@.drop_top(),
                None => old(self)@.stack.len() == 0 && final(self)@ == old(self)@,
            },
    {
        let r = self.data_stack.pop();
        assert(r is Some ==> item_views(self.data_stack@) =~= item_views(
            old(self).data_stack@,
        ).drop_last());
        r
    }

    /// Takes the top of the data stack; raises the empty-stack exception if there is none.
    pub fn pop(&mut self) -> (r: Result<Item, ExecuteControl>)
        ensures
            match r {
                Ok(item) => old(self)@.stack.len() > 0 && item@ == old(self)@.stack.last()
                    && final(self)@ == old(self)@.drop_top(),
                Err(e) => e == ExecuteControl::Exception && old(self)@.stack.len() == 0 && final(self)@ == old(self)@.raise(old(self)@.empty_stack),
            },
    {
        match self.take() {
            Some(x) => Ok(x),
            None => {
                let exc = self.empty_stack.copy();
                self.panic(exc)
            },
        }
    }

    /// Raises an exception with the given value.
    pub fn panic<T>(&mut self, error: Item) -> (r: Result<T, ExecuteControl>)
        ensures
            r == Err::<T, ExecuteControl>(ExecuteControl::Exception),
            final(self)@ == old(self)@.raise(error@),
    {
        self.push(error);
        self.signal = Some(ExecuteControl::Exception);
        Err(ExecuteControl::Exception)
    }

    /// Sets a signal.
    pub fn raise_signal(&mut self, signal: ExecuteControl)
        ensures
            final(self)@ == old(self)@.signalled(signal),
    {
        self.signal = Some(signal);
    }

    /// Stops for good.
    pub fn fail(&mut self, why: EngineErrorKind)
        ensures
            final(self)@ == old(self)@.fatal(why),
    {
        self.signal = Some(ExecuteControl::Other);
        self.fault = Some(why);
    }

    /// Moves the innermost frame to its next instruction.
    pub fn advance(&mut self)
        ensures
            final(self)@ == old(self)@.advance(),
    {
        let n = self.frames.len();
        if n > 0 {
            let ghost before = frame_views(self.frames@);
            let pc = self.frames[n - 1].pc;
            let next = if pc < usize::MAX {
                pc + 1
            } else {
                pc
            };
            self.frames[n - 1].pc = next;
            assert(frame_views(self.frames@) =~= before.update(
                n - 1,
                FrameView { pc: next, ..before.last() },
            ));
        }
    }

    /// Starts the innermost frame again.
    pub fn restart(&mut self)
        ensures
            final(self)@ == old(self)@.restart(),
    {
        let n = self.frames.len();
        if n > 0 {
            let ghost before = frame_views(self.frames@);
            self.frames[n - 1].pc = 0;
            assert(frame_views(self.frames@) =~= before.update(
                n - 1,
                FrameView { pc: 0, ..before.last() },
            ));
        }
    }

    /// Enters a frame.
    pub fn enter(&mut self, frame: Frame)
        ensures
            final(self)@ == old(self)@.enter(frame@),
    {
        self.frames.push(frame);
        assert(frame_views(self.frames@) =~= frame_views(old(self).frames@).push(frame@));
    }

    /// Leaves the innermost frame.
    pub fn leave(&mut self)
        ensures
            final(self)@ == old(self)@.leave(),
    {
        if self.frames.len() > 0 {
            self.frames.pop();
            assert(frame_views(self.frames@) =~= frame_views(old(self).frames@).drop_last());
        }
    }

    /// Makes a fresh empty table and gives its handle.
    pub fn new_table(&mut self) -> (t: usize)
        ensures
            t == old(self)@.heap.len(),
            final(self)@ == old(self)@.with_table(),
    {
        self.heap.add_table()
    }

    /// The value that an operator sees at a depth of the data stack.
    pub fn operand(&self, depth: usize) -> (r: Data)
        requires
            depth < self.data_stack@.len(),
        ensures
            r@ == self@.operand(depth as int),
    {
        if depth == 0 {
            if let Some(x) = self.lifted_top {
                return Data::Float(x);
            }
        }
        if depth == 1 {
            if let Some(x) = self.lifted_below {
                return Data::Float(x);
            }
        }
        self.data_stack[self.data_stack.len() - 1 - depth].val.copy()
    }

    /// Holds the float that the host gave for the integer at a depth of the data stack.
    pub fn lift(&mut self, depth: usize, x: Float)
        ensures
            final(self)@ == old(self)@.lift(depth, x),
    {
        if depth == 0 {
            self.lifted_top = Some(x);
        } else if depth == 1 {
            self.lifted_below = Some(x);
        }
    }

    /// Forgets the floats held for operands.
    pub fn settle_operands(&mut self)
        ensures
            final(self)@ == old(self)@.settled(),
    {
        self.lifted_top = None;
        self.lifted_below = None;
    }

    /// Replaces the value at a depth of the data stack.
    pub fn set_slot(&mut self, depth: usize, val: Data)
        ensures
            final(self)@ == old(self)@.with_slot(depth as int, val@),
    {
        let n = self.data_stack.len();
        if depth < n {
            let ghost before = item_views(self.data_stack@);
            self.data_stack[n - 1 - depth].val = val;
            assert(item_views(self.data_stack@) =~= before.update(
                n - 1 - depth,
                ItemView { val: val@, sup: before[n - 1 - depth].sup },
            ));
        }
    }
}

} // verus!
