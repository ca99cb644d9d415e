use vstd::prelude::*;
use crate::code::ConstView;
use crate::code::InstrView;
use crate::compiler::Emit;
use crate::compiler::Pool;
use crate::compiler::first_index;
use crate::compiler::interned;
use crate::compiler::lemma_first_index_is_first;
use crate::compiler::push_const;

verus! {

/// Whether every constant and every function that an instruction names is there,
/// among so many constants and so many functions.
pub open spec fn valid_instr(i: InstrView, consts: nat, funcs: nat) -> bool
    decreases i, 0nat,
{
    match i {
        InstrView::PushConst(k) => k < consts,
        InstrView::PushFunc { id, nargs } => id < funcs,
        InstrView::Block(b) => valid_code(b, consts, funcs),
        InstrView::Catch(b) => valid_code(b, consts, funcs),
        InstrView::If(b) => valid_code(b, consts, funcs),
        InstrView::IfElse(a, b) => valid_code(a, consts, funcs) && valid_code(b, consts, funcs),
        InstrView::Loop(b) => valid_code(b, consts, funcs),
        InstrView::Returnable(b) => valid_code(b, consts, funcs),
        _ => true,
    }
}

/// Whether every instruction of a sequence is valid.
pub open spec fn valid_code(code: Seq<InstrView>, consts: nat, funcs: nat) -> bool
    decreases code, 1nat,
{
    forall|k: int| 0 <= k < code.len() ==> valid_instr(#[trigger] code[k], consts, funcs)
}

/// Whether the functions of a pool name only what the pool holds.
pub open spec fn pool_ok(pool: Pool) -> bool {
    valid_code(pool.funcs, pool.consts.len(), pool.funcs.len())
}

/// Whether the sizes of a pool are sizes that a machine can hold.
pub open spec fn fits(pool: Pool) -> bool {
    pool.consts.len() <= usize::MAX && pool.funcs.len() <= usize::MAX
}

/// Whether a pool of constants still holds, at their places, the constants that it held.
pub open spec fn kept(before: Seq<ConstView>, now: Seq<ConstView>) -> bool {
    before.len() <= now.len() && forall|k: int| 0 <= k < before.len() ==> now[k] == before[k]
}

/// Whether what was emitted is sound: the pool has only grown; and if it still fits,
/// and its functions named only what it held, they still do, and so do the instructions
/// emitted.
pub open spec fn sound(before: Pool, e: Emit) -> bool {
    &&& kept(before.consts, e.pool.consts)
    &&& before.funcs.len() <= e.pool.funcs.len()
    &&& fits(e.pool) && pool_ok(before) ==> pool_ok(e.pool) && valid_code(
        e.code,
        e.pool.consts.len(),
        e.pool.funcs.len(),
    )
}

/// What is valid among fewer constants and functions is valid among more.
pub proof fn lemma_valid_instr_grows(i: InstrView, c: nat, f: nat, c2: nat, f2: nat)
    requires
        valid_instr(i, c, f),
        c <= c2,
        f <= f2,
    ensures
        valid_instr(i, c2, f2),
    decreases i, 0nat,
{
    match i {
        InstrView::Block(b) => lemma_valid_code_grows(b, c, f, c2, f2),
        InstrView::Catch(b) => lemma_valid_code_grows(b, c, f, c2, f2),
        InstrView::If(b) => lemma_valid_code_grows(b, c, f, c2, f2),
        InstrView::IfElse(a, b) => {
            lemma_valid_code_grows(a, c, f, c2, f2);
            lemma_valid_code_grows(b, c, f, c2, f2);
        },
        InstrView::Loop(b) => lemma_valid_code_grows(b, c, f, c2, f2),
        InstrView::Returnable(b) => lemma_valid_code_grows(b, c, f, c2, f2),
        _ => {},
    }
}

/// What is valid among fewer constants and functions is valid among more.
pub proof fn lemma_valid_code_grows(code: Seq<InstrView>, c: nat, f: nat, c2: nat, f2: nat)
    requires
        valid_code(code, c, f),
        c <= c2,
        f <= f2,
    ensures
        valid_code(code, c2, f2),
    decreases code, 1nat,
{
    assert forall|k: int| 0 <= k < code.len() implies valid_instr(#[trigger] code[k], c2, f2) by {
        lemma_valid_instr_grows(code[k], c, f, c2, f2);
    }
}

/// Valid code after valid code is valid code.
pub proof fn lemma_valid_concat(a: Seq<InstrView>, b: Seq<InstrView>, c: nat, f: nat)
    requires
        valid_code(a, c, f),
        valid_code(b, c, f),
    ensures
        valid_code(a + b, c, f),
{
    assert forall|k: int| 0 <= k < (a + b).len() implies valid_instr(
        #[trigger] (a + b)[k],
        c,
        f,
    ) by {
        if k < a.len() {
            assert((a + b)[k] == a[k]);
        } else {
            assert((a + b)[k] == b[k - a.len()]);
        }
    }
}

/// Pushing a constant is sound.
pub proof fn lemma_push_const_sound(pool: Pool, c: ConstView)
    ensures
        sound(pool, push_const(pool, c)),
{
    lemma_first_index_is_first(pool.consts, c);
    let e = push_const(pool, c);
    if fits(e.pool) && pool_ok(pool) {
        lemma_valid_code_grows(
            pool.funcs,
            pool.consts.len(),
            pool.funcs.len(),
            e.pool.consts.len(),
            e.pool.funcs.len(),
        );
        assert(valid_instr(e.code[0], e.pool.consts.len(), e.pool.funcs.len()));
    }
}

/// What is sound from a pool, followed by what is sound from the pool that it left, is
/// sound from the first pool.
pub proof fn lemma_sound_then(before: Pool, a: Emit, b: Emit)
    requires
        sound(before, a),
        sound(a.pool, b),
    ensures
        sound(before, Emit { pool: b.pool, code: a.code + b.code }),
{
    if fits(b.pool) && pool_ok(before) {
        lemma_valid_code_grows(
            a.code,
            a.pool.consts.len(),
            a.pool.funcs.len(),
            b.pool.consts.len(),
            b.pool.funcs.len(),
        );
        lemma_valid_concat(a.code, b.code, b.pool.consts.len(), b.pool.funcs.len());
    }
}

/// Sound code stays sound with instructions before and after it that name nothing.
pub proof fn lemma_sound_around(
    before: Pool,
    a: Emit,
    head: Seq<InstrView>,
    tail: Seq<InstrView>,
)
    requires
        sound(before, a),
        valid_code(head, 0, 0),
        valid_code(tail, 0, 0),
    ensures
        sound(before, Emit { pool: a.pool, code: head + a.code + tail }),
        sound(before, Emit { pool: a.pool, code: a.code + tail }),
{
    if fits(a.pool) && pool_ok(before) {
        lemma_valid_code_grows(head, 0, 0, a.pool.consts.len(), a.pool.funcs.len());
        lemma_valid_code_grows(tail, 0, 0, a.pool.consts.len(), a.pool.funcs.len());
        lemma_valid_concat(head, a.code, a.pool.consts.len(), a.pool.funcs.len());
        lemma_valid_concat(head + a.code, tail, a.pool.consts.len(), a.pool.funcs.len());
        lemma_valid_concat(a.code, tail, a.pool.consts.len(), a.pool.funcs.len());
    }
}

/// Sound code stays sound when an instruction that runs it takes its place.
pub proof fn lemma_sound_nested(before: Pool, a: Emit, wrapped: InstrView)
    requires
        sound(before, a),
        wrapped == InstrView::Block(a.code) || wrapped == InstrView::Catch(a.code) || wrapped
            == InstrView::If(a.code) || wrapped == InstrView::Loop(a.code) || wrapped
            == InstrView::Returnable(a.code),
    ensures
        sound(before, Emit { pool: a.pool, code: seq![wrapped] }),
{
    if fits(a.pool) && pool_ok(before) {
        assert(valid_instr(wrapped, a.pool.consts.len(), a.pool.funcs.len()));
    }
}

/// Nothing emitted but instructions that name nothing is sound.
pub proof fn lemma_sound_plain(pool: Pool, code: Seq<InstrView>)
    requires
        valid_code(code, 0, 0),
    ensures
        sound(pool, Emit { pool, code }),
{
    if fits(pool) && pool_ok(pool) {
        lemma_valid_code_grows(code, 0, 0, pool.consts.len(), pool.funcs.len());
    }
}

} // verus!
