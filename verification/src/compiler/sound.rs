use vstd::prelude::*;
use crate::ast::NodeView;
use crate::ast::PlaceView;
use crate::ast::VarView;
use crate::code::ConstView;
use crate::code::InstrView;
use crate::code::same_const;
use crate::compiler::Emit;
use crate::compiler::Pool;
use crate::compiler::chain_pairs;
use crate::compiler::climbs;
use crate::compiler::compile_compare;
use crate::compiler::compile_logic;
use crate::compiler::compile_node;
use crate::compiler::compile_params;
use crate::compiler::compile_program;
use crate::compiler::compile_rev;
use crate::compiler::compile_seq;
use crate::compiler::compile_target;
use crate::compiler::push_const;
use crate::compiler::valid::fits;
use crate::compiler::valid::kept;
use crate::compiler::valid::lemma_push_const_sound;
use crate::compiler::valid::lemma_sound_around;
use crate::compiler::valid::lemma_sound_nested;
use crate::compiler::valid::lemma_sound_plain;
use crate::compiler::valid::lemma_sound_then;
use crate::compiler::valid::lemma_valid_code_grows;
use crate::compiler::valid::lemma_valid_concat;
use crate::compiler::valid::pool_ok;
use crate::compiler::valid::sound;
use crate::compiler::valid::valid_code;
use crate::compiler::valid::valid_instr;
use crate::token::TokenView;

verus! {

/// Steps up the scope chain name nothing.
proof fn lemma_climbs_plain(count: nat, last: Seq<InstrView>)
    requires
        valid_code(last, 0, 0),
    ensures
        valid_code(seq![InstrView::PushScope] + climbs(count) + last, 0, 0),
        valid_code(seq![InstrView::PushScope] + climbs(count), 0, 0),
{
    let a = seq![InstrView::PushScope] + climbs(count);
    assert forall|k: int| 0 <= k < a.len() implies valid_instr(#[trigger] a[k], 0, 0) by {
        if k >= 1 {
            assert(a[k] == climbs(count)[k - 1]);
        }
    }
    lemma_valid_concat(a, last, 0, 0);
}

/// What two steps emitted, one after the other, is valid among what the second left.
proof fn lemma_sound_both(before: Pool, a: Emit, b: Emit)
    requires
        sound(before, a),
        sound(a.pool, b),
    ensures
        kept(before.consts, b.pool.consts),
        before.funcs.len() <= b.pool.funcs.len(),
        fits(b.pool) && pool_ok(before) ==> pool_ok(b.pool) && valid_code(
            a.code,
            b.pool.consts.len(),
            b.pool.funcs.len(),
        ) && valid_code(b.code, b.pool.consts.len(), b.pool.funcs.len()),
{
    if fits(b.pool) && pool_ok(before) {
        lemma_valid_code_grows(
            a.code,
            a.pool.consts.len(),
            a.pool.funcs.len(),
            b.pool.consts.len(),
            b.pool.funcs.len(),
        );
    }
}

/// Binding parameters is sound.
pub proof fn lemma_params_sound(params: Seq<Seq<char>>, i: nat, pool: Pool)
    ensures
        sound(pool, compile_params(params, i, pool)),
    decreases params.len() - i,
{
    if i >= params.len() {
        lemma_sound_plain(pool, seq![]);
    } else {
        let head = push_const(pool, ConstView::Str(params[i as int]));
        lemma_push_const_sound(pool, ConstView::Str(params[i as int]));
        let bound = Emit {
            pool: head.pool,
            code: head.code + seq![InstrView::PushScope, InstrView::SetKey],
        };
        lemma_sound_around(pool, head, seq![], seq![InstrView::PushScope, InstrView::SetKey]);
        let rest = compile_params(params, i + 1, head.pool);
        lemma_params_sound(params, i + 1, head.pool);
        lemma_sound_then(pool, bound, rest);
    }
}

/// Compiling a list in order is sound.
pub proof fn lemma_seq_sound(nodes: Seq<NodeView>, i: nat, pool: Pool)
    ensures
        compile_seq(nodes, i, pool) is Ok ==> sound(pool, compile_seq(nodes, i, pool)->Ok_0),
    decreases nodes, nodes.len() - i,
{
    if i >= nodes.len() {
        lemma_sound_plain(pool, seq![]);
    } else {
        let a = compile_node(nodes[i as int], pool);
        if a is Ok {
            lemma_node_sound(nodes[i as int], pool);
            let b = compile_seq(nodes, i + 1, a->Ok_0.pool);
            if b is Ok {
                lemma_seq_sound(nodes, i + 1, a->Ok_0.pool);
                lemma_sound_then(pool, a->Ok_0, b->Ok_0);
            }
        }
    }
}

/// Compiling a list from its end is sound.
pub proof fn lemma_rev_sound(nodes: Seq<NodeView>, i: nat, pool: Pool)
    ensures
        compile_rev(nodes, i, pool) is Ok ==> sound(pool, compile_rev(nodes, i, pool)->Ok_0),
    decreases nodes, i,
{
    if i == 0 || i > nodes.len() {
        lemma_sound_plain(pool, seq![]);
    } else {
        let a = compile_node(nodes[i - 1], pool);
        if a is Ok {
            lemma_node_sound(nodes[i - 1], pool);
            let b = compile_rev(nodes, (i - 1) as nat, a->Ok_0.pool);
            if b is Ok {
                lemma_rev_sound(nodes, (i - 1) as nat, a->Ok_0.pool);
                lemma_sound_then(pool, a->Ok_0, b->Ok_0);
            }
        }
    }
}

/// Compiling the links of a logical chain is sound.
pub proof fn lemma_logic_sound(nodes: Seq<NodeView>, ops: Seq<TokenView>, i: nat, pool: Pool)
    ensures
        compile_logic(nodes, ops, i, pool) is Ok ==> sound(
            pool,
            compile_logic(nodes, ops, i, pool)->Ok_0,
        ),
    decreases nodes, chain_pairs(nodes, ops) - i,
{
    if nodes.len() == 0 || i >= chain_pairs(nodes, ops) {
        lemma_sound_plain(pool, seq![]);
    } else {
        let op = Emit { pool, code: seq![InstrView::LogicOp(ops[i as int])] };
        lemma_sound_plain(pool, op.code);
        let a = compile_node(nodes[i as int + 1], pool);
        if a is Ok {
            lemma_node_sound(nodes[i as int + 1], pool);
            lemma_sound_then(pool, op, a->Ok_0);
            let link = Emit { pool: a->Ok_0.pool, code: op.code + a->Ok_0.code };
            let b = compile_logic(nodes, ops, i + 1, link.pool);
            if b is Ok {
                lemma_logic_sound(nodes, ops, i + 1, link.pool);
                lemma_sound_then(pool, link, b->Ok_0);
            }
        }
    }
}

/// Compiling the links of a comparison chain is sound.
pub proof fn lemma_compare_sound(nodes: Seq<NodeView>, ops: Seq<TokenView>, i: nat, pool: Pool)
    ensures
        compile_compare(nodes, ops, i, pool) is Ok ==> sound(
            pool,
            compile_compare(nodes, ops, i, pool)->Ok_0,
        ),
    decreases nodes, chain_pairs(nodes, ops) - i,
{
    if nodes.len() == 0 || i >= chain_pairs(nodes, ops) {
        lemma_sound_plain(pool, seq![]);
    } else {
        let a = compile_node(nodes[i as int + 1], pool);
        if a is Ok {
            lemma_node_sound(nodes[i as int + 1], pool);
            let tail = seq![InstrView::CmpOp(ops[i as int], i != ops.len() - 1)];
            lemma_sound_around(pool, a->Ok_0, seq![], tail);
            let link = Emit { pool: a->Ok_0.pool, code: a->Ok_0.code + tail };
            let b = compile_compare(nodes, ops, i + 1, link.pool);
            if b is Ok {
                lemma_compare_sound(nodes, ops, i + 1, link.pool);
                lemma_sound_then(pool, link, b->Ok_0);
            }
        }
    }
}

/// One node after another is sound.
proof fn lemma_two_sound(x: NodeView, y: NodeView, pool: Pool, tail: Seq<InstrView>)
    requires
        valid_code(tail, 0, 0),
        compile_node(x, pool) is Ok ==> sound(pool, compile_node(x, pool)->Ok_0),
        compile_node(x, pool) is Ok && compile_node(y, compile_node(x, pool)->Ok_0.pool) is Ok
            ==> sound(
            compile_node(x, pool)->Ok_0.pool,
            compile_node(y, compile_node(x, pool)->Ok_0.pool)->Ok_0,
        ),
    ensures
        compile_node(x, pool) is Ok && compile_node(y, compile_node(x, pool)->Ok_0.pool) is Ok
            ==> sound(
            pool,
            Emit {
                pool: compile_node(y, compile_node(x, pool)->Ok_0.pool)->Ok_0.pool,
                code: compile_node(x, pool)->Ok_0.code + compile_node(
                    y,
                    compile_node(x, pool)->Ok_0.pool,
                )->Ok_0.code + tail,
            },
        ),
{
    let a = compile_node(x, pool);
    if a is Ok {
        let b = compile_node(y, a->Ok_0.pool);
        if b is Ok {
            lemma_sound_then(pool, a->Ok_0, b->Ok_0);
            lemma_sound_around(
                pool,
                Emit { pool: b->Ok_0.pool, code: a->Ok_0.code + b->Ok_0.code },
                seq![],
                tail,
            );
        }
    }
}

/// Putting an assignment target on the stack is sound.
pub proof fn lemma_target_sound(place: NodeView, pool: Pool)
    ensures
        compile_target(place, pool) is Ok ==> sound(pool, compile_target(place, pool)->Ok_0),
    decreases place, 1nat,
{
    match place {
        NodeView::Name(name) => {
            lemma_push_const_sound(pool, ConstView::Str(name));
            lemma_sound_around(
                pool,
                push_const(pool, ConstView::Str(name)),
                seq![],
                seq![InstrView::PushScope],
            );
        },
        NodeView::Index { lhs, rhs } => {
            let a = compile_node(*rhs, pool);
            lemma_node_sound(*rhs, pool);
            if a is Ok {
                lemma_node_sound(*lhs, a->Ok_0.pool);
                let b = compile_node(*lhs, a->Ok_0.pool);
                if b is Ok {
                    lemma_sound_then(pool, a->Ok_0, b->Ok_0);
                }
            }
        },
        NodeView::Super(count, rhs) => {
            let a = compile_node(*rhs, pool);
            lemma_node_sound(*rhs, pool);
            if a is Ok {
                lemma_climbs_plain(count as nat, seq![]);
                lemma_sound_around(
                    pool,
                    a->Ok_0,
                    seq![],
                    seq![InstrView::PushScope] + climbs(count as nat),
                );
            }
        },
        _ => {
            lemma_sound_plain(pool, seq![]);
        },
    }
}

/// Compiling a function definition is sound.
proof fn lemma_func_sound(params: Seq<Seq<char>>, body: NodeView, pool: Pool)
    requires
        compile_node(body, compile_params(params, 0, pool).pool) is Ok ==> sound(
            compile_params(params, 0, pool).pool,
            compile_node(body, compile_params(params, 0, pool).pool)->Ok_0,
        ),
    ensures
        compile_node(NodeView::FuncDef { params, body: Box::new(body) }, pool) is Ok ==> sound(
            pool,
            compile_node(NodeView::FuncDef { params, body: Box::new(body) }, pool)->Ok_0,
        ),
{
    let binds = compile_params(params, 0, pool);
    lemma_params_sound(params, 0, pool);
    let r = compile_node(body, binds.pool);
    if r is Ok {
        let inner = r->Ok_0;
        let last = push_const(inner.pool, ConstView::Null);
        lemma_push_const_sound(inner.pool, ConstView::Null);
        lemma_sound_then(pool, binds, inner);
        let so_far = Emit { pool: inner.pool, code: binds.code + inner.code };
        lemma_sound_then(pool, so_far, last);
        let all = Emit { pool: last.pool, code: binds.code + inner.code + last.code };
        let func = InstrView::Returnable(all.code);
        let e = compile_node(NodeView::FuncDef { params, body: Box::new(body) }, pool)->Ok_0;
        assert(e.pool.consts == last.pool.consts);
        assert(e.pool.funcs == last.pool.funcs.push(func));
        if fits(e.pool) && pool_ok(pool) {
            assert(fits(last.pool));
            lemma_valid_code_grows(
                last.pool.funcs,
                last.pool.consts.len(),
                last.pool.funcs.len(),
                e.pool.consts.len(),
                e.pool.funcs.len(),
            );
            lemma_valid_code_grows(
                all.code,
                last.pool.consts.len(),
                last.pool.funcs.len(),
                e.pool.consts.len(),
                e.pool.funcs.len(),
            );
            assert(valid_instr(func, e.pool.consts.len(), e.pool.funcs.len()));
            assert forall|k: int| 0 <= k < e.pool.funcs.len() implies valid_instr(
                #[trigger] e.pool.funcs[k],
                e.pool.consts.len(),
                e.pool.funcs.len(),
            ) by {
                if k < last.pool.funcs.len() {
                    assert(e.pool.funcs[k] == last.pool.funcs[k]);
                }
            }
            assert(valid_instr(e.code[0], e.pool.consts.len(), e.pool.funcs.len()));
        }
    }
}

/// Compiling a node is sound: the pool only grows, and among what it holds in the end
/// is every constant and every function that the emitted instructions, and the
/// functions of the pool, name.
pub proof fn lemma_node_sound(n: NodeView, pool: Pool)
    ensures
        compile_node(n, pool) is Ok ==> sound(pool, compile_node(n, pool)->Ok_0),
    decreases n, 0nat,
{
    match n {
        NodeView::Null => lemma_push_const_sound(pool, ConstView::Null),
        NodeView::Int(x) => lemma_push_const_sound(pool, ConstView::Int(x)),
        NodeView::Float(x) => lemma_push_const_sound(pool, ConstView::Float(x)),
        NodeView::Bool(x) => lemma_push_const_sound(pool, ConstView::Bool(x)),
        NodeView::Str(x) => lemma_push_const_sound(pool, ConstView::Str(x)),
        NodeView::Name(x) => {
            lemma_push_const_sound(pool, ConstView::Str(x));
            lemma_sound_around(
                pool,
                push_const(pool, ConstView::Str(x)),
                seq![],
                seq![InstrView::PushScope, InstrView::Get],
            );
        },
        NodeView::Super(count, x) => {
            lemma_node_sound(*x, pool);
            if compile_node(*x, pool) is Ok {
                lemma_climbs_plain(count as nat, seq![InstrView::Get]);
                lemma_sound_around(
                    pool,
                    compile_node(*x, pool)->Ok_0,
                    seq![],
                    seq![InstrView::PushScope] + climbs(count as nat) + seq![InstrView::Get],
                );
            }
        },
        NodeView::Index { lhs, rhs } => {
            lemma_node_sound(*rhs, pool);
            if compile_node(*rhs, pool) is Ok {
                lemma_node_sound(*lhs, compile_node(*rhs, pool)->Ok_0.pool);
            }
            lemma_two_sound(*rhs, *lhs, pool, seq![InstrView::Get]);
        },
        NodeView::Local => lemma_sound_plain(pool, seq![InstrView::PushScope]),
        NodeView::Expr(x) => {
            lemma_node_sound(*x, pool);
            if compile_node(*x, pool) is Ok {
                lemma_sound_around(
                    pool,
                    compile_node(*x, pool)->Ok_0,
                    seq![],
                    seq![InstrView::Pop],
                );
            }
        },
        NodeView::Block(nodes) => lemma_seq_sound(nodes, 0, pool),
        NodeView::Catch { body } => {
            lemma_node_sound(*body, pool);
            let a = compile_node(*body, pool);
            if a is Ok {
                let b = push_const(a->Ok_0.pool, ConstView::Null);
                lemma_push_const_sound(a->Ok_0.pool, ConstView::Null);
                lemma_sound_then(pool, a->Ok_0, b);
                let inner = Emit { pool: b.pool, code: a->Ok_0.code + b.code };
                lemma_sound_nested(pool, inner, InstrView::Catch(inner.code));
            }
        },
        NodeView::Assn { lhs, rhs } => {
            match lhs {
                PlaceView::Single(place) => {
                    lemma_node_sound(*rhs, pool);
                    let a = compile_node(*rhs, pool);
                    if a is Ok {
                        lemma_target_sound(*place, a->Ok_0.pool);
                        let b = compile_target(*place, a->Ok_0.pool);
                        if b is Ok {
                            lemma_sound_then(pool, a->Ok_0, b->Ok_0);
                            lemma_sound_around(
                                pool,
                                Emit { pool: b->Ok_0.pool, code: a->Ok_0.code + b->Ok_0.code },
                                seq![],
                                seq![InstrView::SetKey],
                            );
                        }
                    }
                },
                PlaceView::Multi(_) => {},
            }
        },
        NodeView::LogicExpr { nodes, ops } => {
            if nodes.len() > 0 {
                lemma_node_sound(nodes[0], pool);
                let a = compile_node(nodes[0], pool);
                if a is Ok {
                    lemma_logic_sound(nodes, ops, 0, a->Ok_0.pool);
                    let b = compile_logic(nodes, ops, 0, a->Ok_0.pool);
                    if b is Ok {
                        lemma_sound_then(pool, a->Ok_0, b->Ok_0);
                        let inner = Emit { pool: b->Ok_0.pool, code: a->Ok_0.code + b->Ok_0.code };
                        lemma_sound_nested(pool, inner, InstrView::Returnable(inner.code));
                    }
                }
            }
        },
        NodeView::CmpExpr { nodes, ops } => {
            if nodes.len() > 0 && ops.len() > 0 {
                lemma_node_sound(nodes[0], pool);
                let a = compile_node(nodes[0], pool);
                if a is Ok {
                    if nodes.len() == 2 {
                        lemma_node_sound(nodes[1], a->Ok_0.pool);
                        lemma_two_sound(
                            nodes[0],
                            nodes[1],
                            pool,
                            seq![InstrView::CmpOp(ops[0], false)],
                        );
                    } else {
                        lemma_compare_sound(nodes, ops, 0, a->Ok_0.pool);
                        let b = compile_compare(nodes, ops, 0, a->Ok_0.pool);
                        if b is Ok {
                            lemma_sound_then(pool, a->Ok_0, b->Ok_0);
                            let inner = Emit {
                                pool: b->Ok_0.pool,
                                code: a->Ok_0.code + b->Ok_0.code,
                            };
                            lemma_sound_nested(pool, inner, InstrView::Returnable(inner.code));
                        }
                    }
                }
            }
        },
        NodeView::BinExpr { lhs, op, rhs } => {
            lemma_node_sound(*lhs, pool);
            if compile_node(*lhs, pool) is Ok {
                lemma_node_sound(*rhs, compile_node(*lhs, pool)->Ok_0.pool);
            }
            lemma_two_sound(*lhs, *rhs, pool, seq![InstrView::BinOp(op)]);
        },
        NodeView::UnExpr { val, op } => {
            lemma_node_sound(*val, pool);
            if compile_node(*val, pool) is Ok {
                lemma_sound_around(
                    pool,
                    compile_node(*val, pool)->Ok_0,
                    seq![],
                    seq![InstrView::UnOp(op)],
                );
            }
        },
        NodeView::Break => lemma_sound_plain(pool, seq![InstrView::Break]),
        NodeView::Continue => lemma_sound_plain(pool, seq![InstrView::Continue]),
        NodeView::Pass => lemma_sound_plain(pool, seq![]),
        NodeView::Loop { body } => {
            lemma_node_sound(*body, pool);
            if compile_node(*body, pool) is Ok {
                let a = compile_node(*body, pool)->Ok_0;
                lemma_sound_nested(pool, a, InstrView::Loop(a.code));
            }
        },
        NodeView::While { expr, body } => {
            lemma_node_sound(*expr, pool);
            let a = compile_node(*expr, pool);
            if a is Ok {
                lemma_node_sound(*body, a->Ok_0.pool);
                let b = compile_node(*body, a->Ok_0.pool);
                if b is Ok {
                    lemma_sound_both(pool, a->Ok_0, b->Ok_0);
                    let end = b->Ok_0.pool;
                    if fits(end) && pool_ok(pool) {
                        let stop = seq![InstrView::Break];
                        let choice = InstrView::IfElse(b->Ok_0.code, stop);
                        assert(valid_code(stop, end.consts.len(), end.funcs.len()));
                        assert(valid_instr(choice, end.consts.len(), end.funcs.len()));
                        assert(valid_code(seq![choice], end.consts.len(), end.funcs.len()));
                        lemma_valid_concat(
                            a->Ok_0.code,
                            seq![choice],
                            end.consts.len(),
                            end.funcs.len(),
                        );
                        let whole = InstrView::Loop(a->Ok_0.code + seq![choice]);
                        assert(valid_instr(whole, end.consts.len(), end.funcs.len()));
                    }
                }
            }
        },
        NodeView::For { decl, expr, body } => {
            lemma_node_sound(*expr, pool);
            let a = compile_node(*expr, pool);
            if a is Ok {
                match decl {
                    VarView::Single(name) => {
                        let bind = push_const(a->Ok_0.pool, ConstView::Str(name));
                        lemma_push_const_sound(a->Ok_0.pool, ConstView::Str(name));
                        lemma_node_sound(*body, bind.pool);
                        let b = compile_node(*body, bind.pool);
                        if b is Ok {
                            let head = seq![
                                InstrView::Dup,
                                InstrView::Call,
                                InstrView::ForBreak,
                            ];
                            let store = seq![InstrView::PushScope, InstrView::SetKey];
                            lemma_sound_around(a->Ok_0.pool, bind, head, store);
                            let bound = Emit { pool: bind.pool, code: head + bind.code + store };
                            lemma_sound_then(a->Ok_0.pool, bound, b->Ok_0);
                            let inner = Emit { pool: b->Ok_0.pool, code: bound.code + b->Ok_0.code };
                            lemma_sound_nested(a->Ok_0.pool, inner, InstrView::Loop(inner.code));
                            let looped = Emit {
                                pool: inner.pool,
                                code: seq![InstrView::Loop(inner.code)],
                            };
                            lemma_sound_then(pool, a->Ok_0, looped);
                            lemma_sound_around(
                                pool,
                                Emit { pool: inner.pool, code: a->Ok_0.code + looped.code },
                                seq![],
                                seq![InstrView::Pop],
                            );
                            assert(a->Ok_0.code + looped.code + seq![InstrView::Pop]
                                =~= a->Ok_0.code + seq![
                                InstrView::Loop(inner.code),
                                InstrView::Pop,
                            ]);
                        }
                    },
                    VarView::Multi(_) => {},
                }
            }
        },
        NodeView::If { cond, body, els } => {
            lemma_node_sound(*body, pool);
            let a = compile_node(*body, pool);
            if a is Ok {
                lemma_node_sound(*cond, a->Ok_0.pool);
                let b = compile_node(*cond, a->Ok_0.pool);
                if b is Ok {
                    lemma_sound_both(pool, a->Ok_0, b->Ok_0);
                    match els {
                        Some(other) => {
                            lemma_node_sound(*other, b->Ok_0.pool);
                            let c = compile_node(*other, b->Ok_0.pool);
                            if c is Ok {
                                let end = c->Ok_0.pool;
                                if fits(end) && pool_ok(pool) {
                                    lemma_valid_code_grows(
                                        a->Ok_0.code,
                                        b->Ok_0.pool.consts.len(),
                                        b->Ok_0.pool.funcs.len(),
                                        end.consts.len(),
                                        end.funcs.len(),
                                    );
                                    lemma_valid_code_grows(
                                        b->Ok_0.code,
                                        b->Ok_0.pool.consts.len(),
                                        b->Ok_0.pool.funcs.len(),
                                        end.consts.len(),
                                        end.funcs.len(),
                                    );
                                    let choice = InstrView::IfElse(a->Ok_0.code, c->Ok_0.code);
                                    assert(valid_instr(choice, end.consts.len(), end.funcs.len()));
                                    assert(valid_code(
                                        seq![choice],
                                        end.consts.len(),
                                        end.funcs.len(),
                                    ));
                                    lemma_valid_concat(
                                        b->Ok_0.code,
                                        seq![choice],
                                        end.consts.len(),
                                        end.funcs.len(),
                                    );
                                }
                            }
                        },
                        None => {
                            let end = b->Ok_0.pool;
                            if fits(end) && pool_ok(pool) {
                                let choice = InstrView::If(a->Ok_0.code);
                                assert(valid_instr(choice, end.consts.len(), end.funcs.len()));
                                assert(valid_code(seq![choice], end.consts.len(), end.funcs.len()));
                                lemma_valid_concat(
                                    b->Ok_0.code,
                                    seq![choice],
                                    end.consts.len(),
                                    end.funcs.len(),
                                );
                            }
                        },
                    }
                }
            }
        },
        NodeView::Else { body } => lemma_sound_plain(pool, seq![]),
        NodeView::ElseIf { cond, body } => lemma_sound_plain(pool, seq![]),
        NodeView::FuncDef { params, body } => {
            lemma_node_sound(*body, compile_params(params, 0, pool).pool);
            lemma_func_sound(params, *body, pool);
        },
        NodeView::Return(val) => {
            match val {
                None => {
                    lemma_push_const_sound(pool, ConstView::Null);
                    lemma_sound_around(
                        pool,
                        push_const(pool, ConstView::Null),
                        seq![],
                        seq![InstrView::Return],
                    );
                },
                Some(x) => {
                    lemma_node_sound(*x, pool);
                    if compile_node(*x, pool) is Ok {
                        lemma_sound_around(
                            pool,
                            compile_node(*x, pool)->Ok_0,
                            seq![],
                            seq![InstrView::Return],
                        );
                    }
                },
            }
        },
        NodeView::FuncCall { func, args } => {
            lemma_rev_sound(args, args.len(), pool);
            let a = compile_rev(args, args.len(), pool);
            if a is Ok {
                lemma_node_sound(*func, a->Ok_0.pool);
                let b = compile_node(*func, a->Ok_0.pool);
                if b is Ok {
                    lemma_sound_then(pool, a->Ok_0, b->Ok_0);
                    lemma_sound_around(
                        pool,
                        Emit { pool: b->Ok_0.pool, code: a->Ok_0.code + b->Ok_0.code },
                        seq![],
                        seq![InstrView::Call],
                    );
                }
            }
        },
        NodeView::MethodCall { owner, method, args } => {
            lemma_rev_sound(args, args.len(), pool);
            let a = compile_rev(args, args.len(), pool);
            if a is Ok {
                lemma_node_sound(*method, a->Ok_0.pool);
                let b = compile_node(*method, a->Ok_0.pool);
                if b is Ok {
                    lemma_sound_then(pool, a->Ok_0, b->Ok_0);
                    let ab = Emit { pool: b->Ok_0.pool, code: a->Ok_0.code + b->Ok_0.code };
                    lemma_node_sound(*owner, ab.pool);
                    let c = compile_node(*owner, ab.pool);
                    if c is Ok {
                        lemma_sound_then(pool, ab, c->Ok_0);
                        lemma_sound_around(
                            pool,
                            Emit { pool: c->Ok_0.pool, code: ab.code + c->Ok_0.code },
                            seq![],
                            seq![InstrView::MethodGet, InstrView::Call],
                        );
                    }
                }
            }
        },
    }
}

/// Every compiled program names only what it holds: among the constants and functions
/// that the compiler leaves is every constant and every function that the program's
/// instructions and the bodies of its functions name.
pub proof fn lemma_program_sound(root: NodeView, pool: Pool)
    ensures
        compile_program(root, pool) is Ok ==> sound(pool, compile_program(root, pool)->Ok_0),
{
    let null = push_const(pool, ConstView::Null);
    lemma_push_const_sound(pool, ConstView::Null);
    lemma_node_sound(root, null.pool);
    let r = compile_node(root, null.pool);
    if r is Ok {
        let e = r->Ok_0;
        let whole = compile_program(root, pool)->Ok_0;
        assert(whole.pool == e.pool);
        assert(whole.code == e.code + null.code);
        if fits(e.pool) && pool_ok(pool) {
            lemma_valid_code_grows(
                null.code,
                null.pool.consts.len(),
                null.pool.funcs.len(),
                e.pool.consts.len(),
                e.pool.funcs.len(),
            );
            lemma_valid_concat(e.code, null.code, e.pool.consts.len(), e.pool.funcs.len());
        }
    }
}

/// Every compiled program ends by pushing null: its last instruction pushes a
/// constant, and that constant is null.
pub proof fn lemma_program_ends_in_null(root: NodeView, pool: Pool)
    requires
        compile_program(root, pool) is Ok,
        compile_program(root, pool)->Ok_0.pool.consts.len() <= usize::MAX,
    ensures
        ({
            let e = compile_program(root, pool)->Ok_0;
            &&& e.code.len() > 0
            &&& e.code.last() is PushConst
            &&& e.code.last()->PushConst_0 < e.pool.consts.len()
            &&& e.pool.consts[e.code.last()->PushConst_0 as int] == ConstView::Null
        }),
{
    reveal(same_const);
    let null = push_const(pool, ConstView::Null);
    crate::compiler::lemma_first_index_is_first(pool.consts, ConstView::Null);
    lemma_node_sound(root, null.pool);
}

} // verus!
