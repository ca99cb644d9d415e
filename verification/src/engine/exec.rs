use vstd::prelude::*;
use crate::code::Instr;
use crate::code::copy_instrs;
use crate::code::instr_views;
use crate::data::Data;
use crate::data::DataView;
use crate::data::Item;
use crate::data::ItemView;
use crate::data::item_views;
use crate::engine::ops::Outcome;
use crate::engine::compare::relate;
use crate::engine::ops::to_arith_op;
use crate::engine::rules::Stepped;
use crate::engine::rules::ask;
use crate::engine::rules::block;
use crate::engine::rules::dropped;
use crate::engine::rules::run_binary;
use crate::engine::rules::run_compare;
use crate::engine::rules::run_flow;
use crate::engine::rules::run_stack;
use crate::engine::rules::run_unary;
use crate::engine::rules::settle;
use crate::engine::rules::underflow;
use crate::engine::state::Action;
use crate::engine::state::ArithOp;
use crate::engine::state::Engine;
use crate::engine::state::EngineErrorKind;
use crate::engine::state::EngineView;
use crate::engine::state::Frame;
use crate::engine::state::FrameKind;
use crate::engine::state::Pending;
use crate::engine::state::Request;
use crate::error::ExecuteControl;
use crate::token::Token;

verus! {

impl Engine {
    /// Empties the data stack and raises the empty-stack exception.
    pub fn underflow(&mut self)
        ensures
            final(self)@ == underflow(old(self)@),
    {
        self.data_stack.clear();
        let exc = self.empty_stack.copy();
        self.data_stack.push(exc);
        self.signal = Some(ExecuteControl::Exception);
        assert(item_views(self.data_stack@) =~= seq![old(self)@.empty_stack]);
    }

    /// Drops the top `n` values of the data stack.
    pub fn drop_values(&mut self, n: usize)
        requires
            n <= old(self).data_stack@.len(),
        ensures
            final(self)@ == dropped(old(self)@, n as int),
    {
        let keep = self.data_stack.len() - n;
        self.data_stack.truncate(keep);
        assert(item_views(self.data_stack@) =~= item_views(old(self).data_stack@).take(
            keep as int,
        ));
    }

    /// A copy of the value at a depth of the data stack.
    pub fn peek(&self, depth: usize) -> (r: Item)
        requires
            depth < self.data_stack@.len(),
        ensures
            r@ == self@.slot(depth as int),
    {
        self.data_stack[self.data_stack.len() - 1 - depth].copy()
    }

    /// Enters a frame that runs `code` in the module and scope of the innermost frame.
    pub fn block(&mut self, code: &Vec<Instr>, kind: FrameKind)
        requires
            old(self).frames@.len() > 0,
        ensures
            final(self)@ == block(old(self)@, instr_views(*code), kind),
    {
        let n = self.frames.len();
        let frame = Frame {
            code: copy_instrs(code),
            pc: 0,
            kind,
            module: self.frames[n - 1].module,
            scope: self.frames[n - 1].scope.copy(),
        };
        self.enter(frame);
    }

    /// Asks the host for what an operator needs.
    pub fn ask(&mut self, pending: Pending) -> (r: Action)
        requires
            !(pending@ is Nothing),
        ensures
            (Stepped { state: final(self)@, action: r@ }) == ask(old(self)@, pending@),
    {
        let request = match &pending {
            Pending::Convert { value, slot } => Request::Convert(*value),
            Pending::Arith { op, lhs, rhs } => Request::Arith(*op, *lhs, *rhs),
            Pending::Format { value, slot } => Request::Format(*value),
            Pending::Import(name) => Request::Import(name.clone()),
            Pending::Nothing => Request::Convert(0),
        };
        self.pending = pending;
        Action::Ask(request)
    }

    /// Runs an instruction that only moves values, in a state whose frame has moved
    /// past it.
    pub(crate) fn run_stack(&mut self, instr: &Instr, Ghost(e): Ghost<EngineView>)
        requires
            e.frames.len() > 0,
            old(self)@ == e.advance(),
        ensures
            final(self)@ == run_stack(e, e.advance(), instr@),
    {
        let n = self.frames.len();
        let ghost a = self@;
        assert(a.stack == e.stack && a.heap == e.heap && a.mods == e.mods);
        assert(a.top().scope == e.top().scope && a.top().module == e.top().module);
        match instr {
            Instr::PushScope => {
                let scope = self.frames[n - 1].scope.copy();
                self.push(scope);
            },
            Instr::PushConst(i) => {
                let m = self.frames[n - 1].module;
                if m >= self.mods.len() {
                    self.fail(EngineErrorKind::BadModule);
                } else if *i >= self.mods[m].consts.len() {
                    self.fail(EngineErrorKind::BadConst);
                } else {
                    let item = self.mods[m].consts[*i].to_item();
                    self.push(item);
                }
            },
            Instr::PushFunc { id, nargs } => {
                let m = self.frames[n - 1].module;
                if m >= self.mods.len() {
                    self.fail(EngineErrorKind::BadModule);
                } else {
                    let name = self.mods[m].name.clone();
                    let scope = self.frames[n - 1].scope.copy();
                    let t = self.new_table();
                    let inner = Item { val: Data::Table(t), sup: Some(Box::new(scope)) };
                    let item = Item {
                        val: Data::Func { id: *id, nargs: *nargs, module: name },
                        sup: Some(Box::new(inner)),
                    };
                    assert(inner@ == ItemView {
                        val: DataView::Table(t),
                        sup: Some(Box::new(scope@)),
                    });
                    self.push(item);
                }
            },
            Instr::NewTable => {
                let t = self.new_table();
                self.push(Data::Table(t).into_item());
            },
            Instr::Pop => {
                if self.data_stack.len() < 1 {
                    self.underflow();
                } else {
                    self.drop_values(1);
                    assert(dropped(a, 1).stack =~= a.drop_top().stack);
                }
            },
            Instr::Dup => {
                if self.data_stack.len() < 1 {
                    self.underflow();
                } else {
                    let x = self.peek(0);
                    self.push(x);
                }
            },
            Instr::SetKey => {
                if self.data_stack.len() < 3 {
                    self.underflow();
                } else {
                    let scope = self.peek(0);
                    let key = self.peek(1);
                    let val = self.peek(2);
                    self.drop_values(3);
                    scope.set_key(&mut self.heap, key.val, val);
                }
            },
            Instr::Get => {
                if self.data_stack.len() < 2 {
                    self.underflow();
                } else {
                    let scope = self.peek(0);
                    let key = self.peek(1);
                    self.drop_values(2);
                    let val = scope.get_key(&self.heap, &key.val);
                    self.push(val);
                }
            },
            Instr::MethodGet => {
                if self.data_stack.len() < 2 {
                    self.underflow();
                } else {
                    let scope = self.peek(0);
                    let key = self.peek(1);
                    self.drop_values(2);
                    let val = scope.get_key(&self.heap, &key.val);
                    self.push(scope);
                    self.push(val);
                }
            },
            _ => {},
        }
    }

    /// Runs an instruction that steers the flow of control, in a state whose frame has
    /// moved past it.
    pub(crate) fn run_flow(&mut self, instr: &Instr, Ghost(e): Ghost<EngineView>)
        requires
            e.frames.len() > 0,
            old(self)@ == e.advance(),
        ensures
            final(self)@ == run_flow(e, e.advance(), instr@),
    {
        let ghost a = self@;
        assert(a.stack == e.stack && a.heap == e.heap && a.mods == e.mods);
        match instr {
            Instr::If(body) => {
                if self.data_stack.len() < 1 {
                    self.underflow();
                } else {
                    let x = self.peek(0);
                    self.drop_values(1);
                    assert(dropped(a, 1).stack =~= a.drop_top().stack);
                    if x.truth() {
                        self.block(body, FrameKind::Plain);
                    }
                }
            },
            Instr::IfElse(body, other) => {
                if self.data_stack.len() < 1 {
                    self.underflow();
                } else {
                    let x = self.peek(0);
                    self.drop_values(1);
                    assert(dropped(a, 1).stack =~= a.drop_top().stack);
                    if x.truth() {
                        self.block(body, FrameKind::Plain);
                    } else {
                        self.block(other, FrameKind::Plain);
                    }
                }
            },
            Instr::Loop(body) => {
                self.block(body, FrameKind::Loop);
            },
            Instr::Returnable(body) => {
                self.block(body, FrameKind::Returnable);
            },
            Instr::Catch(body) => {
                let depth = self.data_stack.len();
                self.block(body, FrameKind::Catch(depth));
            },
            Instr::Block(body) => {
                self.block(body, FrameKind::Plain);
            },
            Instr::Return => {
                self.raise_signal(ExecuteControl::Return);
            },
            Instr::Break => {
                self.raise_signal(ExecuteControl::Break);
            },
            Instr::Continue => {
                self.raise_signal(ExecuteControl::Continue);
            },
            Instr::ForBreak => {
                if self.data_stack.len() > 0 {
                    let x = self.peek(0);
                    if x.null() {
                        self.drop_values(1);
                        assert(dropped(a, 1).stack =~= a.drop_top().stack);
                        self.raise_signal(ExecuteControl::Break);
                    }
                }
            },
            Instr::LogicOp(op) => {
                if self.data_stack.len() < 1 {
                    self.underflow();
                } else {
                    let x = self.peek(0);
                    let kind: u8 = match op {
                        Token::And => 1,
                        Token::Or => 2,
                        _ => 0,
                    };
                    if kind == 0 {
                        self.drop_values(1);
                        assert(dropped(a, 1).stack =~= a.drop_top().stack);
                        let exc = self.bad_operator.copy();
                        self.push(exc);
                        self.raise_signal(ExecuteControl::Exception);
                    } else if (kind == 1) == x.truth() {
                        self.drop_values(1);
                        assert(dropped(a, 1).stack =~= a.drop_top().stack);
                    } else {
                        self.raise_signal(ExecuteControl::Return);
                    }
                }
            },
            _ => {},
        }
    }

    /// Does what an operator's outcome asks for.
    pub(crate) fn settle(&mut self, taken: usize, out: Outcome, Ghost(e): Ghost<EngineView>) -> (r:
        Action)
        requires
            e.frames.len() > 0,
            old(self)@ == e,
            taken <= e.stack.len(),
        ensures
            (Stepped { state: final(self)@, action: r@ }) == settle(
                e,
                e.advance(),
                taken as int,
                out@,
            ),
    {
        match out {
            Outcome::Value(v) => {
                self.advance();
                self.drop_values(taken);
                self.push(v.into_item());
                self.settle_operands();
                Action::Next
            },
            Outcome::Convert { slot, value } => self.ask(Pending::Convert { value, slot }),
            Outcome::Arith { op, lhs, rhs } => self.ask(Pending::Arith { op, lhs, rhs }),
            Outcome::Format { slot, value } => self.ask(Pending::Format { value, slot }),
            Outcome::BadArguments => {
                self.advance();
                self.drop_values(taken);
                let exc = self.bad_arguments.copy();
                self.push(exc);
                self.raise_signal(ExecuteControl::Exception);
                self.settle_operands();
                Action::Next
            },
            Outcome::BadOperator => {
                self.advance();
                self.drop_values(taken);
                let exc = self.bad_operator.copy();
                self.push(exc);
                self.raise_signal(ExecuteControl::Exception);
                self.settle_operands();
                Action::Next
            },
        }
    }

    /// Runs a unary operator.
    pub fn run_unary(&mut self, op: &Token) -> (r: Action)
        requires
            old(self).frames@.len() > 0,
        ensures
            (Stepped { state: final(self)@, action: r@ }) == run_unary(
                old(self)@,
                old(self)@.advance(),
                op@,
            ),
    {
        let ghost e = self@;
        let kind: u8 = match op {
            Token::Mul => 1,
            Token::Sub => 2,
            Token::Not => 3,
            Token::Dol => 4,
            _ => 0,
        };
        if kind == 0 {
            self.advance();
            let exc = self.bad_operator.copy();
            self.push(exc);
            self.raise_signal(ExecuteControl::Exception);
            return Action::Next;
        }
        if self.data_stack.len() < 1 {
            self.advance();
            self.underflow();
            return Action::Next;
        }
        let x = self.peek(0);
        if kind == 1 {
            self.advance();
            self.drop_values(1);
            assert(dropped(e.advance(), 1).stack =~= e.advance().drop_top().stack);
            self.push(crate::engine::un::mul(x));
            Action::Next
        } else if kind == 2 {
            let out = crate::engine::un::sub(&x.val);
            self.settle(1, out, Ghost(e))
        } else if kind == 3 {
            self.advance();
            self.drop_values(1);
            assert(dropped(e.advance(), 1).stack =~= e.advance().drop_top().stack);
            self.push(crate::engine::un::not(&x.val).into_item());
            Action::Next
        } else {
            let out = crate::engine::un::cat(&x.val);
            self.settle(1, out, Ghost(e))
        }
    }

    /// Runs a binary operator.
    pub fn run_binary(&mut self, op: &Token) -> (r: Action)
        requires
            old(self).frames@.len() > 0,
        ensures
            (Stepped { state: final(self)@, action: r@ }) == run_binary(
                old(self)@,
                old(self)@.advance(),
                op@,
            ),
    {
        let ghost e = self@;
        let arith = to_arith_op(op);
        let kind: u8 = match op {
            Token::Sup => 1,
            Token::Dol => 2,
            _ => 0,
        };
        if kind == 0 && arith.is_none() {
            self.advance();
            let exc = self.bad_operator.copy();
            self.push(exc);
            self.raise_signal(ExecuteControl::Exception);
            return Action::Next;
        }
        if self.data_stack.len() < 2 {
            self.advance();
            self.underflow();
            return Action::Next;
        }
        let rhs = self.peek(0);
        let lhs = self.peek(1);
        if kind == 1 {
            self.advance();
            self.drop_values(2);
            self.push(crate::engine::bin::sup(lhs, rhs));
            Action::Next
        } else if kind == 2 {
            let out = crate::engine::bin::cat(&lhs.val, &rhs.val);
            self.settle(2, out, Ghost(e))
        } else {
            match arith {
                Some(k) => {
                    let left = self.operand(1);
                    let right = self.operand(0);
                    let out = match k {
                        ArithOp::Add => crate::engine::bin::add(&left, &right),
                        ArithOp::Sub => crate::engine::bin::sub(&left, &right),
                        ArithOp::Mul => crate::engine::bin::mul(&left, &right),
                        ArithOp::Div => crate::engine::bin::div(&left, &right),
                    };
                    self.settle(2, out, Ghost(e))
                },
                None => Action::Next,
            }
        }
    }

    /// Runs a comparison.
    pub fn run_compare(&mut self, op: &Token, chain: bool) -> (r: Action)
        requires
            old(self).frames@.len() > 0,
        ensures
            (Stepped { state: final(self)@, action: r@ }) == run_compare(
                old(self)@,
                old(self)@.advance(),
                op@,
                chain,
            ),
    {
        let ghost e = self@;
        if self.data_stack.len() < 2 {
            self.advance();
            self.underflow();
            return Action::Next;
        }
        let rhs = self.peek(0);
        let left = self.operand(1);
        let right = self.operand(0);
        let out = relate(op, &left, &right);
        match out {
            Outcome::Value(v) => {
                self.advance();
                self.drop_values(2);
                self.settle_operands();
                if !chain {
                    self.push(v.into_item());
                } else {
                    let holds = match v {
                        Data::Bool(true) => true,
                        _ => false,
                    };
                    if holds {
                        self.push(rhs);
                    } else {
                        self.push(Data::Bool(false).into_item());
                        self.raise_signal(ExecuteControl::Return);
                    }
                }
                Action::Next
            },
            other => self.settle(2, other, Ghost(e)),
        }
    }
}

} // verus!
