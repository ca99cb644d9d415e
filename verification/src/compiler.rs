use vstd::prelude::*;
use crate::ast::Node;
use crate::ast::NodeView;
use crate::ast::Place;
use crate::ast::PlaceView;
use crate::ast::Var;
use crate::ast::VarView;
use crate::ast::node_views;
use crate::ast::string_views;
use crate::ast::token_views;
use crate::code::Const;
use crate::code::ConstView;
use crate::code::Instr;
use crate::code::InstrView;
use crate::code::const_views;
use crate::code::same_const;
use crate::code::instr_views;
use crate::error::CompileErrorKind;
use crate::token::Token;
use crate::token::TokenView;

pub mod chain;
pub mod sound;
pub mod valid;

verus! {

/// Index of the first constant of `pool` that is the same value as `c`, or the pool's
/// length if there is none.
pub open spec fn first_index(pool: Seq<ConstView>, c: ConstView) -> nat
    decreases pool.len(),
{
    if pool.len() == 0 {
        0
    } else if same_const(pool[0], c) {
        0
    } else {
        1 + first_index(pool.skip(1), c)
    }
}

/// The pool after interning `c`: unchanged if it holds `c`, else with `c` at its end.
pub open spec fn interned(pool: Seq<ConstView>, c: ConstView) -> Seq<ConstView> {
    if first_index(pool, c) < pool.len() {
        pool
    } else {
        pool.push(c)
    }
}

/// No value occurs twice: no two constants of the pool are the same value.
pub open spec fn distinct(pool: Seq<ConstView>) -> bool {
    forall|i: int, j: int| 0 <= i < j < pool.len() ==> !same_const(pool[i], pool[j])
}

/// `first_index` is the one index before which `c` does not occur and at which it does.
pub proof fn lemma_first_index(pool: Seq<ConstView>, c: ConstView, i: nat)
    requires
        i <= pool.len(),
        forall|j: int| 0 <= j < i ==> !same_const(pool[j], c),
        i < pool.len() ==> same_const(pool[i as int], c),
    ensures
        first_index(pool, c) == i,
    decreases pool.len(),
{
    if pool.len() == 0 || i == 0 {
    } else {
        let rest = pool.skip(1);
        assert forall|j: int| 0 <= j < i - 1 implies !same_const(rest[j], c) by {
            assert(rest[j] == pool[j + 1]);
        }
        lemma_first_index(rest, c, (i - 1) as nat);
    }
}

/// What `first_index` returns: an index of `c` if it is inside the pool, and no
/// occurrence of `c` before it.
pub proof fn lemma_first_index_is_first(pool: Seq<ConstView>, c: ConstView)
    ensures
        first_index(pool, c) <= pool.len(),
        first_index(pool, c) < pool.len() ==> same_const(pool[first_index(pool, c) as int], c),
        forall|j: int| 0 <= j < first_index(pool, c) ==> !same_const(pool[j], c),
    decreases pool.len(),
{
    if pool.len() == 0 || same_const(pool[0], c) {
    } else {
        let rest = pool.skip(1);
        lemma_first_index_is_first(rest, c);
        assert forall|j: int| 0 <= j < first_index(pool, c) implies !same_const(pool[j], c) by {
            if j > 0 {
                assert(rest[j - 1] == pool[j]);
            }
        }
    }
}

/// Interning keeps a pool free of duplicates.
pub proof fn lemma_interned_distinct(pool: Seq<ConstView>, c: ConstView)
    requires
        distinct(pool),
    ensures
        distinct(interned(pool, c)),
{
    lemma_first_index_is_first(pool, c);
}

/// The constants and function bodies collected so far.
pub struct Pool {
    pub consts: Seq<ConstView>,
    pub funcs: Seq<InstrView>,
}

/// Instructions emitted for a piece of the tree, and the pool after emitting them.
pub struct Emit {
    pub pool: Pool,
    pub code: Seq<InstrView>,
}

/// The instruction that pushes `c`, with `c` interned.
pub open spec fn push_const(pool: Pool, c: ConstView) -> Emit {
    Emit {
        pool: Pool { consts: interned(pool.consts, c), funcs: pool.funcs },
        code: seq![InstrView::PushConst(first_index(pool.consts, c) as usize)],
    }
}

/// `first`, then what `next` emits from the pool that `first` left.
pub open spec fn and_then(
    first: Result<Emit, CompileErrorKind>,
    next: spec_fn(Pool) -> Result<Emit, CompileErrorKind>,
) -> Result<Emit, CompileErrorKind> {
    match first {
        Ok(a) => match next(a.pool) {
            Ok(b) => Ok(Emit { pool: b.pool, code: a.code + b.code }),
            Err(e) => Err(e),
        },
        Err(e) => Err(e),
    }
}

/// `first`, then the fixed instructions `tail`.
pub open spec fn then_code(first: Result<Emit, CompileErrorKind>, tail: Seq<InstrView>) -> Result<
    Emit,
    CompileErrorKind,
> {
    match first {
        Ok(a) => Ok(Emit { pool: a.pool, code: a.code + tail }),
        Err(e) => Err(e),
    }
}

/// The one instruction that `wrap` makes of everything `body` emitted.
pub open spec fn nested(
    body: Result<Emit, CompileErrorKind>,
    wrap: spec_fn(Seq<InstrView>) -> InstrView,
) -> Result<Emit, CompileErrorKind> {
    match body {
        Ok(a) => Ok(Emit { pool: a.pool, code: seq![wrap(a.code)] }),
        Err(e) => Err(e),
    }
}

/// `count` steps up the scope chain.
pub open spec fn climbs(count: nat) -> Seq<InstrView> {
    Seq::new(count, |i: int| InstrView::UnOp(TokenView::Mul))
}

/// The instructions that bind each parameter, from index `i` on: name, scope, store.
pub open spec fn compile_params(params: Seq<Seq<char>>, i: nat, pool: Pool) -> Emit
    decreases params.len() - i,
{
    if i >= params.len() {
        Emit { pool, code: seq![] }
    } else {
        let head = push_const(pool, ConstView::Str(params[i as int]));
        let rest = compile_params(params, i + 1, head.pool);
        Emit {
            pool: rest.pool,
            code: head.code + seq![InstrView::PushScope, InstrView::SetKey] + rest.code,
        }
    }
}

/// The instructions for the nodes from index `i` on, in order.
pub open spec fn compile_seq(nodes: Seq<NodeView>, i: nat, pool: Pool) -> Result<
    Emit,
    CompileErrorKind,
>
    decreases nodes, nodes.len() - i,
{
    if i >= nodes.len() {
        Ok(Emit { pool, code: seq![] })
    } else {
        and_then(compile_node(nodes[i as int], pool), |p: Pool| compile_seq(nodes, i + 1, p))
    }
}

/// The instructions for the first `i` nodes, last node first.
pub open spec fn compile_rev(nodes: Seq<NodeView>, i: nat, pool: Pool) -> Result<
    Emit,
    CompileErrorKind,
>
    decreases nodes, i,
{
    if i == 0 || i > nodes.len() {
        Ok(Emit { pool, code: seq![] })
    } else {
        and_then(
            compile_node(nodes[i - 1], pool),
            |p: Pool| compile_rev(nodes, (i - 1) as nat, p),
        )
    }
}

/// Number of operator and operand pairs of a chain.
pub open spec fn chain_pairs(nodes: Seq<NodeView>, ops: Seq<TokenView>) -> nat {
    if ops.len() < nodes.len() - 1 {
        ops.len()
    } else {
        (nodes.len() - 1) as nat
    }
}

/// The links of a logical chain from pair `i` on: the operator, then its right operand.
pub open spec fn compile_logic(
    nodes: Seq<NodeView>,
    ops: Seq<TokenView>,
    i: nat,
    pool: Pool,
) -> Result<Emit, CompileErrorKind>
    decreases nodes, chain_pairs(nodes, ops) - i,
{
    if nodes.len() == 0 || i >= chain_pairs(nodes, ops) {
        Ok(Emit { pool, code: seq![] })
    } else {
        and_then(
            and_then(
                Ok(Emit { pool, code: seq![InstrView::LogicOp(ops[i as int])] }),
                |p: Pool| compile_node(nodes[i as int + 1], p),
            ),
            |p: Pool| compile_logic(nodes, ops, i + 1, p),
        )
    }
}

/// The links of a comparison chain from pair `i` on: the right operand, then the
/// comparison, flagged as a link unless it is the chain's last operator.
pub open spec fn compile_compare(
    nodes: Seq<NodeView>,
    ops: Seq<TokenView>,
    i: nat,
    pool: Pool,
) -> Result<Emit, CompileErrorKind>
    decreases nodes, chain_pairs(nodes, ops) - i,
{
    if nodes.len() == 0 || i >= chain_pairs(nodes, ops) {
        Ok(Emit { pool, code: seq![] })
    } else {
        and_then(
            then_code(
                compile_node(nodes[i as int + 1], pool),
                seq![InstrView::CmpOp(ops[i as int], i != ops.len() - 1)],
            ),
            |p: Pool| compile_compare(nodes, ops, i + 1, p),
        )
    }
}

/// The instructions that put an assignment target's key and owner on the stack.
pub open spec fn compile_target(place: NodeView, pool: Pool) -> Result<Emit, CompileErrorKind>
    decreases place, 0nat,
{
    match place {
        NodeView::Name(name) => then_code(
            Ok(push_const(pool, ConstView::Str(name))),
            seq![InstrView::PushScope],
        ),
        NodeView::Index { lhs, rhs } => and_then(
            compile_node(*rhs, pool),
            |p: Pool| compile_node(*lhs, p),
        ),
        NodeView::Super(count, rhs) => then_code(
            compile_node(*rhs, pool),
            seq![InstrView::PushScope] + climbs(count as nat),
        ),
        _ => Ok(Emit { pool, code: seq![] }),
    }
}

/// The instructions for one node of the tree.
pub open spec fn compile_node(n: NodeView, pool: Pool) -> Result<Emit, CompileErrorKind>
    decreases n, 0nat,
{
    match n {
        NodeView::Null => Ok(push_const(pool, ConstView::Null)),
        NodeView::Int(x) => Ok(push_const(pool, ConstView::Int(x))),
        NodeView::Float(x) => Ok(push_const(pool, ConstView::Float(x))),
        NodeView::Bool(x) => Ok(push_const(pool, ConstView::Bool(x))),
        NodeView::Str(x) => Ok(push_const(pool, ConstView::Str(x))),
        NodeView::Name(x) => then_code(
            Ok(push_const(pool, ConstView::Str(x))),
            seq![InstrView::PushScope, InstrView::Get],
        ),
        NodeView::Super(count, x) => then_code(
            compile_node(*x, pool),
            seq![InstrView::PushScope] + climbs(count as nat) + seq![InstrView::Get],
        ),
        NodeView::Index { lhs, rhs } => then_code(
            and_then(compile_node(*rhs, pool), |p: Pool| compile_node(*lhs, p)),
            seq![InstrView::Get],
        ),
        NodeView::Local => Ok(Emit { pool, code: seq![InstrView::PushScope] }),
        NodeView::Expr(x) => then_code(compile_node(*x, pool), seq![InstrView::Pop]),
        NodeView::Block(nodes) => compile_seq(nodes, 0, pool),
        NodeView::Catch { body } => nested(
            and_then(compile_node(*body, pool), |p: Pool| Ok(push_const(p, ConstView::Null))),
            |code: Seq<InstrView>| InstrView::Catch(code),
        ),
        NodeView::Assn { lhs, rhs } => match lhs {
            PlaceView::Single(place) => then_code(
                and_then(compile_node(*rhs, pool), |p: Pool| compile_target(*place, p)),
                seq![InstrView::SetKey],
            ),
            PlaceView::Multi(_) => Err(CompileErrorKind::MultiPlace),
        },
        NodeView::LogicExpr { nodes, ops } => if nodes.len() == 0 {
            Err(CompileErrorKind::EmptyChain)
        } else {
            nested(
                and_then(
                    compile_node(nodes[0], pool),
                    |p: Pool| compile_logic(nodes, ops, 0, p),
                ),
                |code: Seq<InstrView>| InstrView::Returnable(code),
            )
        },
        NodeView::CmpExpr { nodes, ops } => if nodes.len() == 0 || ops.len() == 0 {
            Err(CompileErrorKind::EmptyChain)
        } else if nodes.len() == 2 {
            then_code(
                and_then(compile_node(nodes[0], pool), |p: Pool| compile_node(nodes[1], p)),
                seq![InstrView::CmpOp(ops[0], false)],
            )
        } else {
            nested(
                and_then(compile_node(nodes[0], pool), |p: Pool| compile_compare(nodes, ops, 0, p)),
                |code: Seq<InstrView>| InstrView::Returnable(code),
            )
        },
        NodeView::BinExpr { lhs, op, rhs } => then_code(
            and_then(compile_node(*lhs, pool), |p: Pool| compile_node(*rhs, p)),
            seq![InstrView::BinOp(op)],
        ),
        NodeView::UnExpr { val, op } => then_code(
            compile_node(*val, pool),
            seq![InstrView::UnOp(op)],
        ),
        NodeView::Break => Ok(Emit { pool, code: seq![InstrView::Break] }),
        NodeView::Continue => Ok(Emit { pool, code: seq![InstrView::Continue] }),
        NodeView::Pass => Ok(Emit { pool, code: seq![] }),
        NodeView::Loop { body } => nested(
            compile_node(*body, pool),
            |code: Seq<InstrView>| InstrView::Loop(code),
        ),
        NodeView::While { expr, body } => match compile_node(*expr, pool) {
            Ok(cond) => match compile_node(*body, cond.pool) {
                Ok(inner) => Ok(
                    Emit {
                        pool: inner.pool,
                        code: seq![
                            InstrView::Loop(
                                cond.code + seq![
                                    InstrView::IfElse(inner.code, seq![InstrView::Break]),
                                ],
                            ),
                        ],
                    },
                ),
                Err(e) => Err(e),
            },
            Err(e) => Err(e),
        },
        NodeView::For { decl, expr, body } => match compile_node(*expr, pool) {
            Ok(iter) => match decl {
                VarView::Single(name) => {
                    let bind = push_const(iter.pool, ConstView::Str(name));
                    match compile_node(*body, bind.pool) {
                        Ok(inner) => Ok(
                            Emit {
                                pool: inner.pool,
                                code: iter.code + seq![
                                    InstrView::Loop(
                                        seq![InstrView::Dup, InstrView::Call, InstrView::ForBreak]
                                            + bind.code + seq![
                                            InstrView::PushScope,
                                            InstrView::SetKey,
                                        ] + inner.code,
                                    ),
                                    InstrView::Pop,
                                ],
                            },
                        ),
                        Err(e) => Err(e),
                    }
                },
                VarView::Multi(_) => Err(CompileErrorKind::MultiDecl),
            },
            Err(e) => Err(e),
        },
        NodeView::If { cond, body, els } => match compile_node(*body, pool) {
            Ok(then_part) => match compile_node(*cond, then_part.pool) {
                Ok(test) => match els {
                    Some(other) => match compile_node(*other, test.pool) {
                        Ok(else_part) => Ok(
                            Emit {
                                pool: else_part.pool,
                                code: test.code + seq![
                                    InstrView::IfElse(then_part.code, else_part.code),
                                ],
                            },
                        ),
                        Err(e) => Err(e),
                    },
                    None => Ok(
                        Emit {
                            pool: test.pool,
                            code: test.code + seq![InstrView::If(then_part.code)],
                        },
                    ),
                },
                Err(e) => Err(e),
            },
            Err(e) => Err(e),
        },
        // an `else` or `else if` that was never attached to an `if` stands for no code;
        // a tree that passed the checker holds none
        NodeView::Else { body } => Ok(Emit { pool, code: seq![] }),
        NodeView::ElseIf { cond, body } => Ok(Emit { pool, code: seq![] }),
        NodeView::FuncDef { params, body } => {
            let binds = compile_params(params, 0, pool);
            match compile_node(*body, binds.pool) {
                Ok(inner) => {
                    let last = push_const(inner.pool, ConstView::Null);
                    Ok(
                        Emit {
                            pool: Pool {
                                consts: last.pool.consts,
                                funcs: last.pool.funcs.push(
                                    InstrView::Returnable(binds.code + inner.code + last.code),
                                ),
                            },
                            code: seq![
                                InstrView::PushFunc {
                                    id: last.pool.funcs.len() as usize,
                                    nargs: params.len() as usize,
                                },
                            ],
                        },
                    )
                },
                Err(e) => Err(e),
            }
        },
        NodeView::Return(val) => match val {
            None => then_code(Ok(push_const(pool, ConstView::Null)), seq![InstrView::Return]),
            Some(x) => then_code(compile_node(*x, pool), seq![InstrView::Return]),
        },
        NodeView::FuncCall { func, args } => then_code(
            and_then(compile_rev(args, args.len(), pool), |p: Pool| compile_node(*func, p)),
            seq![InstrView::Call],
        ),
        NodeView::MethodCall { owner, method, args } => then_code(
            and_then(
                and_then(compile_rev(args, args.len(), pool), |p: Pool| compile_node(*method, p)),
                |p: Pool| compile_node(*owner, p),
            ),
            seq![InstrView::MethodGet, InstrView::Call],
        ),
    }
}

/// The whole program: the null constant interned first, the tree's instructions,
/// and a final push of null.
pub open spec fn compile_program(root: NodeView, pool: Pool) -> Result<Emit, CompileErrorKind> {
    let null = push_const(pool, ConstView::Null);
    then_code(compile_node(root, null.pool), null.code)
}


/// `code`, then what `rest` emits.
pub open spec fn after(code: Seq<InstrView>, rest: Result<Emit, CompileErrorKind>) -> Result<
    Emit,
    CompileErrorKind,
> {
    match rest {
        Ok(e) => Ok(Emit { pool: e.pool, code: code + e.code }),
        Err(k) => Err(k),
    }
}

/// What a compiling step owes: on success the pool and the appended instructions that
/// `expected` names, on failure its error.
pub open spec fn emitted(
    expected: Result<Emit, CompileErrorKind>,
    result: Result<(), CompileErrorKind>,
    pool: Pool,
    before: Seq<InstrView>,
    now: Seq<InstrView>,
) -> bool {
    match expected {
        Ok(e) => result is Ok && pool == e.pool && now == before + e.code,
        Err(k) => result == Err::<(), CompileErrorKind>(k),
    }
}

/// Appends one instruction.
fn emit(block: &mut Vec<Instr>, instr: Instr)
    ensures
        instr_views(*final(block)) == instr_views(*old(block)).push(instr@),
{
    block.push(instr);
    assert(instr_views(*block) =~= instr_views(*old(block)).push(instr@));
}

/// Lowers a syntax tree to instructions.
#[derive(Debug, PartialEq, Eq)]
pub struct Compiler {
    /// The program's top-level instructions.
    pub block: Vec<Instr>,
    /// The constant pool.
    pub consts: Vec<Const>,
    /// The body of each function, by its index.
    pub funcs: Vec<Instr>,
}

impl Compiler {
    /// The constants and function bodies collected so far.
    pub open spec fn pool(&self) -> Pool {
        Pool { consts: const_views(self.consts@), funcs: instr_views(self.funcs) }
    }

    /// The top-level instructions.
    pub open spec fn code(&self) -> Seq<InstrView> {
        instr_views(self.block)
    }

    /// A compiler that has seen nothing.
    pub fn new() -> (r: Compiler)
        ensures
            r.pool() == (Pool { consts: Seq::empty(), funcs: Seq::empty() }),
            r.code() == Seq::<InstrView>::empty(),
    {
        let r = Compiler { block: Vec::new(), consts: Vec::new(), funcs: Vec::new() };
        assert(r.pool().consts =~= Seq::empty());
        assert(r.pool().funcs =~= Seq::empty());
        assert(r.code() =~= Seq::empty());
        r
    }

    /// The index of `data` in the constant pool, adding it at the end if it is new.
    pub fn get_const(&mut self, data: Const) -> (id: usize)
        ensures
            id == first_index(old(self).pool().consts, data@),
            final(self).pool().consts == interned(old(self).pool().consts, data@),
            final(self).pool().funcs == old(self).pool().funcs,
            final(self).funcs == old(self).funcs,
            final(self).block == old(self).block,
            distinct(old(self).pool().consts) ==> distinct(final(self).pool().consts),
    {
        let ghost pool = self.pool().consts;
        let mut i: usize = 0;
        while i < self.consts.len()
            invariant
                i <= self.consts.len(),
                *self == *old(self),
                pool == const_views(self.consts@),
                forall|j: int| 0 <= j < i ==> !same_const(pool[j], data@),
            decreases self.consts.len() - i,
        {
            if self.consts[i].same(&data) {
                proof {
                    lemma_first_index(pool, data@, i as nat);
                }
                return i;
            }
            i = i + 1;
        }
        proof {
            lemma_first_index(pool, data@, i as nat);
            if distinct(pool) {
                lemma_interned_distinct(pool, data@);
            }
        }
        self.consts.push(data);
        assert(const_views(self.consts@) =~= pool.push(data@));
        self.consts.len() - 1
    }

    /// Compiles a program: the root's instructions become `block`, ending in a push of null.
    ///
    /// Fails on an assignment to a list of targets, on a `for` over a list of names, and on
    /// a chain without operands or operators; the pool may then hold constants of the part
    /// that was compiled.
    pub fn compile(&mut self, root: &Node) -> (r: Result<(), CompileErrorKind>)
        ensures
            match compile_program(root@, old(self).pool()) {
                Ok(e) => r is Ok && final(self).pool() == e.pool && final(self).code() == e.code,
                Err(k) => r == Err::<(), CompileErrorKind>(k),
            },
            distinct(old(self).pool().consts) ==> distinct(final(self).pool().consts),
    {
        let const_id = self.get_const(Const::Null);
        let mut block: Vec<Instr> = Vec::new();
        assert(instr_views(block) =~= Seq::empty());
        self.compile_aux(root, &mut block)?;
        emit(&mut block, Instr::PushConst(const_id));
        self.block = block;
        proof {
            let null = push_const(old(self).pool(), ConstView::Null);
            let e = compile_node(root@, null.pool)->Ok_0;
            assert(self.code() =~= e.code + null.code);
        }
        Ok(())
    }

    /// Compiles a node into a vector of its own.
    fn compile_block(&mut self, root: &Node) -> (r: Result<Vec<Instr>, CompileErrorKind>)
        ensures
            match compile_node(root@, old(self).pool()) {
                Ok(e) => r is Ok && final(self).pool() == e.pool && instr_views(r->Ok_0) == e.code,
                Err(k) => r == Err::<Vec<Instr>, CompileErrorKind>(k),
            },
            final(self).block == old(self).block,
            distinct(old(self).pool().consts) ==> distinct(final(self).pool().consts),
        decreases root, 2nat,
    {
        let mut block: Vec<Instr> = Vec::new();
        assert(instr_views(block) =~= Seq::empty());
        match self.compile_aux(root, &mut block) {
            Ok(()) => {
                proof {
                    let e = compile_node(root@, old(self).pool())->Ok_0;
                    assert(instr_views(block) =~= e.code);
                }
                Ok(block)
            },
            Err(k) => Err(k),
        }
    }

    /// Emits a push of `data`.
    fn push_const(&mut self, data: Const, block: &mut Vec<Instr>)
        ensures
            emitted(
                Ok(push_const(old(self).pool(), data@)),
                Ok(()),
                final(self).pool(),
                instr_views(*old(block)),
                instr_views(*final(block)),
            ),
            final(self).block == old(self).block,
            distinct(old(self).pool().consts) ==> distinct(final(self).pool().consts),
    {
        let const_id = self.get_const(data);
        emit(block, Instr::PushConst(const_id));
        assert(instr_views(*block) =~= instr_views(*old(block)) + seq![
            InstrView::PushConst(const_id),
        ]);
    }

    /// Emits `count` steps up the scope chain.
    fn emit_climbs(count: usize, block: &mut Vec<Instr>)
        ensures
            instr_views(*final(block)) == instr_views(*old(block)) + climbs(count as nat),
    {
        let mut i: usize = 0;
        assert(instr_views(*block) =~= instr_views(*old(block)) + climbs(0));
        while i < count
            invariant
                i <= count,
                instr_views(*block) == instr_views(*old(block)) + climbs(i as nat),
            decreases count - i,
        {
            emit(block, Instr::UnOp(Token::Mul));
            i = i + 1;
            assert(instr_views(*block) =~= instr_views(*old(block)) + climbs(i as nat));
        }
    }

    /// Compiles the nodes of a list in order.
    #[verifier::loop_isolation(false)]
    fn compile_seq(&mut self, nodes: &Vec<Node>, block: &mut Vec<Instr>) -> (r: Result<
        (),
        CompileErrorKind,
    >)
        ensures
            emitted(
                compile_seq(node_views(*nodes), 0, old(self).pool()),
                r,
                final(self).pool(),
                instr_views(*old(block)),
                instr_views(*final(block)),
            ),
            final(self).block == old(self).block,
            distinct(old(self).pool().consts) ==> distinct(final(self).pool().consts),
        decreases nodes,
    {
        let ghost views = node_views(*nodes);
        let ghost start = self.pool();
        let ghost mut done: Seq<InstrView> = Seq::empty();
        let mut i: usize = 0;
        assert(instr_views(*block) =~= instr_views(*old(block)) + done);
        while i < nodes.len()
            invariant
                i <= nodes.len(),
                self.block == old(self).block,
                instr_views(*block) == instr_views(*old(block)) + done,
                compile_seq(views, 0, start) == after(done, compile_seq(views, i as nat, self.pool())),
                distinct(start.consts) ==> distinct(self.pool().consts),
            decreases nodes.len() - i,
        {
            let ghost pool = self.pool();
            let ghost before = instr_views(*block);
            self.compile_aux(&nodes[i], block)?;
            proof {
                let e = compile_node(views[i as int], pool)->Ok_0;
                let rest = compile_seq(views, (i + 1) as nat, e.pool);
                match rest {
                    Ok(x) => {
                        assert(done + (e.code + x.code) =~= (done + e.code) + x.code);
                    },
                    Err(_) => {},
                }
                done = done + e.code;
                assert(instr_views(*block) =~= instr_views(*old(block)) + done);
            }
            i = i + 1;
        }
        proof {
            assert(done + Seq::<InstrView>::empty() =~= done);
        }
        Ok(())
    }

    /// Compiles the nodes of a list, last node first.
    #[verifier::loop_isolation(false)]
    fn compile_rev(&mut self, nodes: &Vec<Node>, block: &mut Vec<Instr>) -> (r: Result<
        (),
        CompileErrorKind,
    >)
        ensures
            emitted(
                compile_rev(node_views(*nodes), nodes.len() as nat, old(self).pool()),
                r,
                final(self).pool(),
                instr_views(*old(block)),
                instr_views(*final(block)),
            ),
            final(self).block == old(self).block,
            distinct(old(self).pool().consts) ==> distinct(final(self).pool().consts),
        decreases nodes,
    {
        let ghost views = node_views(*nodes);
        let ghost start = self.pool();
        let ghost mut done: Seq<InstrView> = Seq::empty();
        let mut i: usize = nodes.len();
        assert(instr_views(*block) =~= instr_views(*old(block)) + done);
        while i > 0
            invariant
                i <= nodes.len(),
                self.block == old(self).block,
                instr_views(*block) == instr_views(*old(block)) + done,
                compile_rev(views, nodes.len() as nat, start) == after(
                    done,
                    compile_rev(views, i as nat, self.pool()),
                ),
                distinct(start.consts) ==> distinct(self.pool().consts),
            decreases i,
        {
            let ghost pool = self.pool();
            self.compile_aux(&nodes[i - 1], block)?;
            proof {
                let e = compile_node(views[i - 1], pool)->Ok_0;
                let rest = compile_rev(views, (i - 1) as nat, e.pool);
                match rest {
                    Ok(x) => {
                        assert(done + (e.code + x.code) =~= (done + e.code) + x.code);
                    },
                    Err(_) => {},
                }
                done = done + e.code;
                assert(instr_views(*block) =~= instr_views(*old(block)) + done);
            }
            i = i - 1;
        }
        proof {
            assert(done + Seq::<InstrView>::empty() =~= done);
        }
        Ok(())
    }

    /// Emits the binding of each parameter.
    fn compile_params(&mut self, params: &Vec<String>, block: &mut Vec<Instr>)
        ensures
            emitted(
                Ok(compile_params(string_views(params@), 0, old(self).pool())),
                Ok(()),
                final(self).pool(),
                instr_views(*old(block)),
                instr_views(*final(block)),
            ),
            final(self).block == old(self).block,
            distinct(old(self).pool().consts) ==> distinct(final(self).pool().consts),
    {
        let ghost views = string_views(params@);
        let ghost start = self.pool();
        let ghost mut done: Seq<InstrView> = Seq::empty();
        let mut i: usize = 0;
        assert(instr_views(*block) =~= instr_views(*old(block)) + done);
        while i < params.len()
            invariant
                i <= params.len(),
                views == string_views(params@),
                self.block == old(self).block,
                instr_views(*block) == instr_views(*old(block)) + done,
                compile_params(views, 0, start).pool == compile_params(
                    views,
                    i as nat,
                    self.pool(),
                ).pool,
                compile_params(views, 0, start).code == done + compile_params(
                    views,
                    i as nat,
                    self.pool(),
                ).code,
                distinct(start.consts) ==> distinct(self.pool().consts),
            decreases params.len() - i,
        {
            let ghost pool = self.pool();
            self.push_const(Const::Str(params[i].clone()), block);
            emit(block, Instr::PushScope);
            emit(block, Instr::SetKey);
            proof {
                let head = push_const(pool, ConstView::Str(views[i as int]));
                let rest = compile_params(views, (i + 1) as nat, head.pool);
                let step = head.code + seq![InstrView::PushScope, InstrView::SetKey];
                assert(done + (step + rest.code) =~= (done + step) + rest.code);
                done = done + step;
                assert(instr_views(*block) =~= instr_views(*old(block)) + done);
            }
            i = i + 1;
        }
        proof {
            assert(done + Seq::<InstrView>::empty() =~= done);
        }
    }

    /// Emits what puts an assignment target's key and owner on the stack.
    fn compile_place_single(&mut self, place: &Node, block: &mut Vec<Instr>) -> (r: Result<
        (),
        CompileErrorKind,
    >)
        ensures
            emitted(
                compile_target(place@, old(self).pool()),
                r,
                final(self).pool(),
                instr_views(*old(block)),
                instr_views(*final(block)),
            ),
            final(self).block == old(self).block,
            distinct(old(self).pool().consts) ==> distinct(final(self).pool().consts),
        decreases place, 2nat,
    {
        let ghost before = instr_views(*block);
        match place {
            Node::Name(name) => {
                self.push_const(Const::Str(name.clone()), block);
                emit(block, Instr::PushScope);
            },
            Node::Index { lhs, rhs } => {
                self.compile_aux(rhs, block)?;
                self.compile_aux(lhs, block)?;
            },
            Node::Super(count, rhs) => {
                self.compile_aux(rhs, block)?;
                emit(block, Instr::PushScope);
                Compiler::emit_climbs(*count, block);
            },
            _ => {},
        }
        proof {
            let e = compile_target(place@, old(self).pool())->Ok_0;
            assert(instr_views(*block) =~= before + e.code);
        }
        Ok(())
    }

    /// Emits the instructions for one node.
    fn compile_aux(&mut self, root: &Node, block: &mut Vec<Instr>) -> (r: Result<
        (),
        CompileErrorKind,
    >)
        ensures
            emitted(
                compile_node(root@, old(self).pool()),
                r,
                final(self).pool(),
                instr_views(*old(block)),
                instr_views(*final(block)),
            ),
            final(self).block == old(self).block,
            distinct(old(self).pool().consts) ==> distinct(final(self).pool().consts),
        decreases root, 1nat,
    {
        match root {
            Node::Super(_, _) => self.compile_super(root, block),
            Node::Index { .. } => self.compile_index(root, block),
            Node::Expr(_) => self.compile_expr(root, block),
            Node::Block(nodes) => self.compile_seq(nodes, block),
            Node::Catch { .. } => self.compile_catch(root, block),
            Node::Assn { .. } => self.compile_assn(root, block),
            Node::LogicExpr { .. } => self.compile_logic_expr(root, block),
            Node::CmpExpr { .. } => self.compile_chain(root, block),
            Node::BinExpr { .. } => self.compile_bin(root, block),
            Node::UnExpr { .. } => self.compile_un(root, block),
            Node::Loop { .. } => self.compile_loop(root, block),
            Node::While { .. } => self.compile_while(root, block),
            Node::For { .. } => self.compile_for(root, block),
            Node::If { .. } => self.compile_if(root, block),
            Node::FuncDef { .. } => self.compile_func_def(root, block),
            Node::Return(_) => self.compile_return(root, block),
            Node::FuncCall { .. } => self.compile_func_call(root, block),
            Node::MethodCall { .. } => self.compile_method_call(root, block),
            _ => self.compile_leaf(root, block),
        }
    }

    /// Emits the instructions for a literal, a name, the scope, or a statement without parts.
    fn compile_leaf(&mut self, root: &Node, block: &mut Vec<Instr>) -> (r: Result<
        (),
        CompileErrorKind,
    >)
        requires
            root is Null || root is Int || root is Float || root is Bool || root is Str || root is Name || root is Local || root is Break || root is Continue || root is Pass || root is Else || root is ElseIf,
        ensures
            emitted(
                compile_node(root@, old(self).pool()),
                r,
                final(self).pool(),
                instr_views(*old(block)),
                instr_views(*final(block)),
            ),
            final(self).block == old(self).block,
            distinct(old(self).pool().consts) ==> distinct(final(self).pool().consts),
        decreases root, 0nat,
    {
        let ghost before = instr_views(*block);
        let ghost start = self.pool();
        match root {
            Node::Null => {
                self.push_const(Const::Null, block);
            },
            Node::Int(x) => {
                self.push_const(Const::Int(*x), block);
            },
            Node::Float(x) => {
                self.push_const(Const::Float(*x), block);
            },
            Node::Bool(x) => {
                self.push_const(Const::Bool(*x), block);
            },
            Node::Str(x) => {
                self.push_const(Const::Str(x.clone()), block);
            },
            Node::Name(x) => {
                self.push_const(Const::Str(x.clone()), block);
                emit(block, Instr::PushScope);
                emit(block, Instr::Get);
            },
            Node::Local => {
                emit(block, Instr::PushScope);
            },
            Node::Break => {
                emit(block, Instr::Break);
            },
            Node::Continue => {
                emit(block, Instr::Continue);
            },
            _ => {},
        }
        proof {
            let e = compile_node(root@, start)->Ok_0;
            assert(instr_views(*block) =~= before + e.code);
        }
        Ok(())
    }

    /// Emits the instructions for a super reference.
    fn compile_super(&mut self, root: &Node, block: &mut Vec<Instr>) -> (r: Result<
        (),
        CompileErrorKind,
    >)
        requires
            root is Super,
        ensures
            emitted(
                compile_node(root@, old(self).pool()),
                r,
                final(self).pool(),
                instr_views(*old(block)),
                instr_views(*final(block)),
            ),
            final(self).block == old(self).block,
            distinct(old(self).pool().consts) ==> distinct(final(self).pool().consts),
        decreases root, 0nat,
    {
        let ghost before = instr_views(*block);
        let ghost start = self.pool();
        if let Node::Super(count, x) = root {
            self.compile_aux(x, block)?;
            emit(block, Instr::PushScope);
            Compiler::emit_climbs(*count, block);
            emit(block, Instr::Get);
        }
        proof {
            let e = compile_node(root@, start)->Ok_0;
            assert(instr_views(*block) =~= before + e.code);
        }
        Ok(())
    }

    /// Emits the instructions for an index expression.
    fn compile_index(&mut self, root: &Node, block: &mut Vec<Instr>) -> (r: Result<
        (),
        CompileErrorKind,
    >)
        requires
            root is Index,
        ensures
            emitted(
                compile_node(root@, old(self).pool()),
                r,
                final(self).pool(),
                instr_views(*old(block)),
                instr_views(*final(block)),
            ),
            final(self).block == old(self).block,
            distinct(old(self).pool().consts) ==> distinct(final(self).pool().consts),
        decreases root, 0nat,
    {
        let ghost before = instr_views(*block);
        let ghost start = self.pool();
        if let Node::Index { lhs, rhs } = root {
            self.compile_aux(rhs, block)?;
            self.compile_aux(lhs, block)?;
            emit(block, Instr::Get);
        }
        proof {
            let e = compile_node(root@, start)->Ok_0;
            assert(instr_views(*block) =~= before + e.code);
        }
        Ok(())
    }

    /// Emits the instructions for an expression statement.
    fn compile_expr(&mut self, root: &Node, block: &mut Vec<Instr>) -> (r: Result<
        (),
        CompileErrorKind,
    >)
        requires
            root is Expr,
        ensures
            emitted(
                compile_node(root@, old(self).pool()),
                r,
                final(self).pool(),
                instr_views(*old(block)),
                instr_views(*final(block)),
            ),
            final(self).block == old(self).block,
            distinct(old(self).pool().consts) ==> distinct(final(self).pool().consts),
        decreases root, 0nat,
    {
        let ghost before = instr_views(*block);
        let ghost start = self.pool();
        if let Node::Expr(x) = root {
            self.compile_aux(x, block)?;
            emit(block, Instr::Pop);
        }
        proof {
            let e = compile_node(root@, start)->Ok_0;
            assert(instr_views(*block) =~= before + e.code);
        }
        Ok(())
    }

    /// Emits the instructions for a catch block.
    fn compile_catch(&mut self, root: &Node, block: &mut Vec<Instr>) -> (r: Result<
        (),
        CompileErrorKind,
    >)
        requires
            root is Catch,
        ensures
            emitted(
                compile_node(root@, old(self).pool()),
                r,
                final(self).pool(),
                instr_views(*old(block)),
                instr_views(*final(block)),
            ),
            final(self).block == old(self).block,
            distinct(old(self).pool().consts) ==> distinct(final(self).pool().consts),
        decreases root, 0nat,
    {
        let ghost before = instr_views(*block);
        let ghost start = self.pool();
        if let Node::Catch { body } = root {
            let mut inner = self.compile_block(body)?;
            self.push_const(Const::Null, &mut inner);
            emit(block, Instr::Catch(inner));
        }
        proof {
            let e = compile_node(root@, start)->Ok_0;
            assert(instr_views(*block) =~= before + e.code);
        }
        Ok(())
    }

    /// Emits the instructions for an assignment.
    fn compile_assn(&mut self, root: &Node, block: &mut Vec<Instr>) -> (r: Result<
        (),
        CompileErrorKind,
    >)
        requires
            root is Assn,
        ensures
            emitted(
                compile_node(root@, old(self).pool()),
                r,
                final(self).pool(),
                instr_views(*old(block)),
                instr_views(*final(block)),
            ),
            final(self).block == old(self).block,
            distinct(old(self).pool().consts) ==> distinct(final(self).pool().consts),
        decreases root, 0nat,
    {
        let ghost before = instr_views(*block);
        let ghost start = self.pool();
        if let Node::Assn { lhs, rhs } = root {
            match lhs {
                Place::Single(place) => {
                    assert(lhs@ == PlaceView::Single(Box::new(place@)));
                    self.compile_aux(rhs, block)?;
                    self.compile_place_single(place, block)?;
                    emit(block, Instr::SetKey);
                },
                Place::Multi(_) => {
                    assert(lhs@ is Multi);
                    return Err(CompileErrorKind::MultiPlace);
                },
            }
        }
        proof {
            let e = compile_node(root@, start)->Ok_0;
            assert(instr_views(*block) =~= before + e.code);
        }
        Ok(())
    }

    /// Emits the instructions for a logical chain.
    fn compile_logic_expr(&mut self, root: &Node, block: &mut Vec<Instr>) -> (r: Result<
        (),
        CompileErrorKind,
    >)
        requires
            root is LogicExpr,
        ensures
            emitted(
                compile_node(root@, old(self).pool()),
                r,
                final(self).pool(),
                instr_views(*old(block)),
                instr_views(*final(block)),
            ),
            final(self).block == old(self).block,
            distinct(old(self).pool().consts) ==> distinct(final(self).pool().consts),
        decreases root, 0nat,
    {
        let ghost before = instr_views(*block);
        let ghost start = self.pool();
        if let Node::LogicExpr { nodes, ops } = root {
            assert(node_views(*nodes).len() == nodes.len());
            if nodes.len() == 0 {
                return Err(CompileErrorKind::EmptyChain);
            }
            assert(node_views(*nodes)[0] == nodes[0]@);
            let mut inner: Vec<Instr> = Vec::new();
            assert(instr_views(inner) =~= Seq::empty());
            self.compile_aux(&nodes[0], &mut inner)?;
            self.compile_logic(nodes, ops, &mut inner)?;
            emit(block, Instr::Returnable(inner));
        }
        proof {
            let e = compile_node(root@, start)->Ok_0;
            assert(instr_views(*block) =~= before + e.code);
        }
        Ok(())
    }

    /// Emits the instructions for a comparison chain.
    fn compile_chain(&mut self, root: &Node, block: &mut Vec<Instr>) -> (r: Result<
        (),
        CompileErrorKind,
    >)
        requires
            root is CmpExpr,
        ensures
            emitted(
                compile_node(root@, old(self).pool()),
                r,
                final(self).pool(),
                instr_views(*old(block)),
                instr_views(*final(block)),
            ),
            final(self).block == old(self).block,
            distinct(old(self).pool().consts) ==> distinct(final(self).pool().consts),
        decreases root, 0nat,
    {
        let ghost before = instr_views(*block);
        let ghost start = self.pool();
        if let Node::CmpExpr { nodes, ops } = root {
            assert(node_views(*nodes).len() == nodes.len());
            assert(token_views(ops@).len() == ops.len());
            if nodes.len() == 0 || ops.len() == 0 {
                return Err(CompileErrorKind::EmptyChain);
            }
            assert(node_views(*nodes)[0] == nodes[0]@);
            assert(token_views(ops@)[0] == ops[0]@);
            if nodes.len() == 2 {
                assert(node_views(*nodes)[1] == nodes[1]@);
                self.compile_aux(&nodes[0], block)?;
                self.compile_aux(&nodes[1], block)?;
                emit(block, Instr::CmpOp(ops[0].copy(), false));
            } else {
                let mut inner: Vec<Instr> = Vec::new();
                assert(instr_views(inner) =~= Seq::empty());
                self.compile_aux(&nodes[0], &mut inner)?;
                self.compile_compare(nodes, ops, &mut inner)?;
                emit(block, Instr::Returnable(inner));
            }
        }
        proof {
            let e = compile_node(root@, start)->Ok_0;
            assert(instr_views(*block) =~= before + e.code);
        }
        Ok(())
    }

    /// Emits the instructions for a binary expression.
    fn compile_bin(&mut self, root: &Node, block: &mut Vec<Instr>) -> (r: Result<
        (),
        CompileErrorKind,
    >)
        requires
            root is BinExpr,
        ensures
            emitted(
                compile_node(root@, old(self).pool()),
                r,
                final(self).pool(),
                instr_views(*old(block)),
                instr_views(*final(block)),
            ),
            final(self).block == old(self).block,
            distinct(old(self).pool().consts) ==> distinct(final(self).pool().consts),
        decreases root, 0nat,
    {
        let ghost before = instr_views(*block);
        let ghost start = self.pool();
        if let Node::BinExpr { lhs, op, rhs } = root {
            self.compile_aux(lhs, block)?;
            self.compile_aux(rhs, block)?;
            emit(block, Instr::BinOp(op.copy()));
        }
        proof {
            let e = compile_node(root@, start)->Ok_0;
            assert(instr_views(*block) =~= before + e.code);
        }
        Ok(())
    }

    /// Emits the instructions for a unary expression.
    fn compile_un(&mut self, root: &Node, block: &mut Vec<Instr>) -> (r: Result<
        (),
        CompileErrorKind,
    >)
        requires
            root is UnExpr,
        ensures
            emitted(
                compile_node(root@, old(self).pool()),
                r,
                final(self).pool(),
                instr_views(*old(block)),
                instr_views(*final(block)),
            ),
            final(self).block == old(self).block,
            distinct(old(self).pool().consts) ==> distinct(final(self).pool().consts),
        decreases root, 0nat,
    {
        let ghost before = instr_views(*block);
        let ghost start = self.pool();
        if let Node::UnExpr { val, op } = root {
            self.compile_aux(val, block)?;
            emit(block, Instr::UnOp(op.copy()));
        }
        proof {
            let e = compile_node(root@, start)->Ok_0;
            assert(instr_views(*block) =~= before + e.code);
        }
        Ok(())
    }

    /// Emits the instructions for an endless loop.
    fn compile_loop(&mut self, root: &Node, block: &mut Vec<Instr>) -> (r: Result<
        (),
        CompileErrorKind,
    >)
        requires
            root is Loop,
        ensures
            emitted(
                compile_node(root@, old(self).pool()),
                r,
                final(self).pool(),
                instr_views(*old(block)),
                instr_views(*final(block)),
            ),
            final(self).block == old(self).block,
            distinct(old(self).pool().consts) ==> distinct(final(self).pool().consts),
        decreases root, 0nat,
    {
        let ghost before = instr_views(*block);
        let ghost start = self.pool();
        if let Node::Loop { body } = root {
            let inner = self.compile_block(body)?;
            emit(block, Instr::Loop(inner));
        }
        proof {
            let e = compile_node(root@, start)->Ok_0;
            assert(instr_views(*block) =~= before + e.code);
        }
        Ok(())
    }

    /// Emits the instructions for a while loop.
    fn compile_while(&mut self, root: &Node, block: &mut Vec<Instr>) -> (r: Result<
        (),
        CompileErrorKind,
    >)
        requires
            root is While,
        ensures
            emitted(
                compile_node(root@, old(self).pool()),
                r,
                final(self).pool(),
                instr_views(*old(block)),
                instr_views(*final(block)),
            ),
            final(self).block == old(self).block,
            distinct(old(self).pool().consts) ==> distinct(final(self).pool().consts),
        decreases root, 0nat,
    {
        let ghost before = instr_views(*block);
        let ghost start = self.pool();
        if let Node::While { expr, body } = root {
            let mut test = self.compile_block(expr)?;
            let inner = self.compile_block(body)?;
            let mut stop: Vec<Instr> = Vec::new();
            stop.push(Instr::Break);
            assert(instr_views(stop) =~= seq![InstrView::Break]);
            let ghost cond = instr_views(test);
            let ghost link = InstrView::IfElse(instr_views(inner), instr_views(stop));
            emit(&mut test, Instr::IfElse(inner, stop));
            assert(instr_views(test) =~= cond + seq![link]);
            emit(block, Instr::Loop(test));
        }
        proof {
            let e = compile_node(root@, start)->Ok_0;
            assert(instr_views(*block) =~= before + e.code);
        }
        Ok(())
    }

    /// Emits the instructions for a for loop.
    fn compile_for(&mut self, root: &Node, block: &mut Vec<Instr>) -> (r: Result<
        (),
        CompileErrorKind,
    >)
        requires
            root is For,
        ensures
            emitted(
                compile_node(root@, old(self).pool()),
                r,
                final(self).pool(),
                instr_views(*old(block)),
                instr_views(*final(block)),
            ),
            final(self).block == old(self).block,
            distinct(old(self).pool().consts) ==> distinct(final(self).pool().consts),
        decreases root, 0nat,
    {
        let ghost before = instr_views(*block);
        let ghost start = self.pool();
        if let Node::For { decl, expr, body } = root {
            self.compile_aux(expr, block)?;
            let mut inner: Vec<Instr> = Vec::new();
            inner.push(Instr::Dup);
            inner.push(Instr::Call);
            inner.push(Instr::ForBreak);
            assert(instr_views(inner) =~= seq![
                InstrView::Dup,
                InstrView::Call,
                InstrView::ForBreak,
            ]);
            match decl {
                Var::Single(name) => {
                    self.push_const(Const::Str(name.clone()), &mut inner);
                    emit(&mut inner, Instr::PushScope);
                    emit(&mut inner, Instr::SetKey);
                },
                Var::Multi(_) => {
                    return Err(CompileErrorKind::MultiDecl);
                },
            }
            self.compile_aux(body, &mut inner)?;
            proof {
                let iter = compile_node(expr@, start)->Ok_0;
                let bind = push_const(iter.pool, ConstView::Str(decl@->Single_0));
                let done = compile_node(body@, bind.pool)->Ok_0;
                assert(instr_views(inner) =~= seq![
                    InstrView::Dup,
                    InstrView::Call,
                    InstrView::ForBreak,
                ] + bind.code + seq![InstrView::PushScope, InstrView::SetKey] + done.code);
            }
            emit(block, Instr::Loop(inner));
            emit(block, Instr::Pop);
        }
        proof {
            let e = compile_node(root@, start)->Ok_0;
            assert(instr_views(*block) =~= before + e.code);
        }
        Ok(())
    }

    /// Emits the instructions for a conditional.
    fn compile_if(&mut self, root: &Node, block: &mut Vec<Instr>) -> (r: Result<
        (),
        CompileErrorKind,
    >)
        requires
            root is If,
        ensures
            emitted(
                compile_node(root@, old(self).pool()),
                r,
                final(self).pool(),
                instr_views(*old(block)),
                instr_views(*final(block)),
            ),
            final(self).block == old(self).block,
            distinct(old(self).pool().consts) ==> distinct(final(self).pool().consts),
        decreases root, 0nat,
    {
        let ghost before = instr_views(*block);
        let ghost start = self.pool();
        if let Node::If { cond, body, els } = root {
            let inner = self.compile_block(body)?;
            self.compile_aux(cond, block)?;
            match els {
                Some(other) => {
                    let other_block = self.compile_block(other)?;
                    emit(block, Instr::IfElse(inner, other_block));
                },
                None => {
                    emit(block, Instr::If(inner));
                },
            }
        }
        proof {
            let e = compile_node(root@, start)->Ok_0;
            assert(instr_views(*block) =~= before + e.code);
        }
        Ok(())
    }

    /// Emits the instructions for a function definition.
    fn compile_func_def(&mut self, root: &Node, block: &mut Vec<Instr>) -> (r: Result<
        (),
        CompileErrorKind,
    >)
        requires
            root is FuncDef,
        ensures
            emitted(
                compile_node(root@, old(self).pool()),
                r,
                final(self).pool(),
                instr_views(*old(block)),
                instr_views(*final(block)),
            ),
            final(self).block == old(self).block,
            distinct(old(self).pool().consts) ==> distinct(final(self).pool().consts),
        decreases root, 0nat,
    {
        let ghost before = instr_views(*block);
        let ghost start = self.pool();
        if let Node::FuncDef { params, body } = root {
            let mut inner: Vec<Instr> = Vec::new();
            assert(instr_views(inner) =~= Seq::empty());
            self.compile_params(params, &mut inner);
            self.compile_aux(body, &mut inner)?;
            self.push_const(Const::Null, &mut inner);
            let id = self.funcs.len();
            let ghost funcs = instr_views(self.funcs);
            assert(funcs.len() == id);
            let func = Instr::Returnable(inner);
            self.funcs.push(func);
            proof {
                let binds = compile_params(string_views(params@), 0, start);
                let done = compile_node(body@, binds.pool)->Ok_0;
                let last = push_const(done.pool, ConstView::Null);
                assert(instr_views(inner) =~= binds.code + done.code + last.code);
                assert(instr_views(self.funcs) =~= funcs.push(func@));
                assert(string_views(params@).len() == params.len());
            }
            emit(block, Instr::PushFunc { id, nargs: params.len() });
        }
        proof {
            let e = compile_node(root@, start)->Ok_0;
            assert(instr_views(*block) =~= before + e.code);
        }
        Ok(())
    }

    /// Emits the instructions for a return statement.
    fn compile_return(&mut self, root: &Node, block: &mut Vec<Instr>) -> (r: Result<
        (),
        CompileErrorKind,
    >)
        requires
            root is Return,
        ensures
            emitted(
                compile_node(root@, old(self).pool()),
                r,
                final(self).pool(),
                instr_views(*old(block)),
                instr_views(*final(block)),
            ),
            final(self).block == old(self).block,
            distinct(old(self).pool().consts) ==> distinct(final(self).pool().consts),
        decreases root, 0nat,
    {
        let ghost before = instr_views(*block);
        let ghost start = self.pool();
        if let Node::Return(val) = root {
            match val {
                None => {
                    self.push_const(Const::Null, block);
                },
                Some(x) => {
                    self.compile_aux(x, block)?;
                },
            }
            emit(block, Instr::Return);
        }
        proof {
            let e = compile_node(root@, start)->Ok_0;
            assert(instr_views(*block) =~= before + e.code);
        }
        Ok(())
    }

    /// Emits the instructions for a function call.
    fn compile_func_call(&mut self, root: &Node, block: &mut Vec<Instr>) -> (r: Result<
        (),
        CompileErrorKind,
    >)
        requires
            root is FuncCall,
        ensures
            emitted(
                compile_node(root@, old(self).pool()),
                r,
                final(self).pool(),
                instr_views(*old(block)),
                instr_views(*final(block)),
            ),
            final(self).block == old(self).block,
            distinct(old(self).pool().consts) ==> distinct(final(self).pool().consts),
        decreases root, 0nat,
    {
        let ghost before = instr_views(*block);
        let ghost start = self.pool();
        if let Node::FuncCall { func, args } = root {
            self.compile_rev(args, block)?;
            self.compile_aux(func, block)?;
            emit(block, Instr::Call);
        }
        proof {
            let e = compile_node(root@, start)->Ok_0;
            assert(instr_views(*block) =~= before + e.code);
        }
        Ok(())
    }

    /// Emits the instructions for a method call.
    fn compile_method_call(&mut self, root: &Node, block: &mut Vec<Instr>) -> (r: Result<
        (),
        CompileErrorKind,
    >)
        requires
            root is MethodCall,
        ensures
            emitted(
                compile_node(root@, old(self).pool()),
                r,
                final(self).pool(),
                instr_views(*old(block)),
                instr_views(*final(block)),
            ),
            final(self).block == old(self).block,
            distinct(old(self).pool().consts) ==> distinct(final(self).pool().consts),
        decreases root, 0nat,
    {
        let ghost before = instr_views(*block);
        let ghost start = self.pool();
        if let Node::MethodCall { owner, method, args } = root {
            self.compile_rev(args, block)?;
            self.compile_aux(method, block)?;
            self.compile_aux(owner, block)?;
            emit(block, Instr::MethodGet);
            emit(block, Instr::Call);
        }
        proof {
            let e = compile_node(root@, start)->Ok_0;
            assert(instr_views(*block) =~= before + e.code);
        }
        Ok(())
    }

    /// Emits the links of a logical chain.
    #[verifier::loop_isolation(false)]
    fn compile_logic(
        &mut self,
        nodes: &Vec<Node>,
        ops: &Vec<Token>,
        block: &mut Vec<Instr>,
    ) -> (r: Result<(), CompileErrorKind>)
        requires
            nodes.len() > 0,
        ensures
            emitted(
                compile_logic(node_views(*nodes), token_views(ops@), 0, old(self).pool()),
                r,
                final(self).pool(),
                instr_views(*old(block)),
                instr_views(*final(block)),
            ),
            final(self).block == old(self).block,
            distinct(old(self).pool().consts) ==> distinct(final(self).pool().consts),
        decreases nodes,
    {
        let ghost views = node_views(*nodes);
        let ghost opv = token_views(ops@);
        let ghost start = self.pool();
        let ghost mut done: Seq<InstrView> = Seq::empty();
        let pairs: usize = if ops.len() < nodes.len() - 1 {
            ops.len()
        } else {
            nodes.len() - 1
        };
        let mut i: usize = 0;
        assert(instr_views(*block) =~= instr_views(*old(block)) + done);
        while i < pairs
            invariant
                i <= pairs,
                pairs == chain_pairs(views, opv),
                self.block == old(self).block,
                instr_views(*block) == instr_views(*old(block)) + done,
                compile_logic(views, opv, 0, start) == after(
                    done,
                    compile_logic(views, opv, i as nat, self.pool()),
                ),
                distinct(start.consts) ==> distinct(self.pool().consts),
            decreases pairs - i,
        {
            let ghost pool = self.pool();
            emit(block, Instr::LogicOp(ops[i].copy()));
            self.compile_aux(&nodes[i + 1], block)?;
            proof {
                let e = compile_node(views[i + 1], pool)->Ok_0;
                let step = seq![InstrView::LogicOp(opv[i as int])] + e.code;
                let rest = compile_logic(views, opv, (i + 1) as nat, e.pool);
                match rest {
                    Ok(x) => {
                        assert(done + (step + x.code) =~= (done + step) + x.code);
                    },
                    Err(_) => {},
                }
                done = done + step;
                assert(instr_views(*block) =~= instr_views(*old(block)) + done);
            }
            i = i + 1;
        }
        proof {
            assert(done + Seq::<InstrView>::empty() =~= done);
        }
        Ok(())
    }

    /// Emits the links of a comparison chain.
    #[verifier::loop_isolation(false)]
    fn compile_compare(
        &mut self,
        nodes: &Vec<Node>,
        ops: &Vec<Token>,
        block: &mut Vec<Instr>,
    ) -> (r: Result<(), CompileErrorKind>)
        requires
            nodes.len() > 0,
            ops.len() > 0,
        ensures
            emitted(
                compile_compare(node_views(*nodes), token_views(ops@), 0, old(self).pool()),
                r,
                final(self).pool(),
                instr_views(*old(block)),
                instr_views(*final(block)),
            ),
            final(self).block == old(self).block,
            distinct(old(self).pool().consts) ==> distinct(final(self).pool().consts),
        decreases nodes,
    {
        let ghost views = node_views(*nodes);
        let ghost opv = token_views(ops@);
        let ghost start = self.pool();
        let ghost mut done: Seq<InstrView> = Seq::empty();
        let pairs: usize = if ops.len() < nodes.len() - 1 {
            ops.len()
        } else {
            nodes.len() - 1
        };
        let end: usize = ops.len() - 1;
        let mut i: usize = 0;
        assert(instr_views(*block) =~= instr_views(*old(block)) + done);
        while i < pairs
            invariant
                i <= pairs,
                pairs == chain_pairs(views, opv),
                self.block == old(self).block,
                instr_views(*block) == instr_views(*old(block)) + done,
                compile_compare(views, opv, 0, start) == after(
                    done,
                    compile_compare(views, opv, i as nat, self.pool()),
                ),
                distinct(start.consts) ==> distinct(self.pool().consts),
            decreases pairs - i,
        {
            let ghost pool = self.pool();
            self.compile_aux(&nodes[i + 1], block)?;
            emit(block, Instr::CmpOp(ops[i].copy(), i != end));
            proof {
                let e = compile_node(views[i + 1], pool)->Ok_0;
                let step = e.code + seq![InstrView::CmpOp(opv[i as int], i != end)];
                let rest = compile_compare(views, opv, (i + 1) as nat, e.pool);
                match rest {
                    Ok(x) => {
                        assert(done + (step + x.code) =~= (done + step) + x.code);
                    },
                    Err(_) => {},
                }
                done = done + step;
                assert(instr_views(*block) =~= instr_views(*old(block)) + done);
            }
            i = i + 1;
        }
        proof {
            assert(done + Seq::<InstrView>::empty() =~= done);
        }
        Ok(())
    }
}

} // verus!
