use vstd::prelude::*;
use crate::ast::NodeView;
use crate::code::InstrView;
use crate::compiler::Emit;
use crate::compiler::Pool;
use crate::compiler::chain_pairs;
use crate::compiler::compile_compare;
use crate::compiler::compile_node;
use crate::error::CompileErrorKind;
use crate::token::TokenView;

verus! {

/// A chain of two comparisons, `a o1 b o2 c`, is compiled to one frame in which each
/// operand is evaluated once, in order: `a`, `b`, the first comparison as a link of the
/// chain, `c`, and the second comparison as its end.
pub proof fn lemma_chain_of_three(
    a: NodeView,
    b: NodeView,
    c: NodeView,
    o1: TokenView,
    o2: TokenView,
    pool: Pool,
)
    requires
        compile_node(a, pool) is Ok,
        compile_node(b, compile_node(a, pool)->Ok_0.pool) is Ok,
        compile_node(c, compile_node(b, compile_node(a, pool)->Ok_0.pool)->Ok_0.pool) is Ok,
    ensures
        ({
            let ra = compile_node(a, pool)->Ok_0;
            let rb = compile_node(b, ra.pool)->Ok_0;
            let rc = compile_node(c, rb.pool)->Ok_0;
            compile_node(NodeView::CmpExpr { nodes: seq![a, b, c], ops: seq![o1, o2] }, pool)
                == Ok::<Emit, CompileErrorKind>(
                Emit {
                    pool: rc.pool,
                    code: seq![
                        InstrView::Returnable(
                            ra.code + rb.code + seq![InstrView::CmpOp(o1, true)] + rc.code + seq![
                                InstrView::CmpOp(o2, false),
                            ],
                        ),
                    ],
                },
            )
        }),
{
    let nodes = seq![a, b, c];
    let ops = seq![o1, o2];
    let ra = compile_node(a, pool)->Ok_0;
    let rb = compile_node(b, ra.pool)->Ok_0;
    let rc = compile_node(c, rb.pool)->Ok_0;
    assert(chain_pairs(nodes, ops) == 2);
    assert(nodes[0] == a && nodes[1] == b && nodes[2] == c);
    assert(ops[0] == o1 && ops[1] == o2);
    let last = compile_compare(nodes, ops, 2, rc.pool);
    assert(last == Ok::<Emit, CompileErrorKind>(Emit { pool: rc.pool, code: seq![] }));
    let second = compile_compare(nodes, ops, 1, rb.pool);
    assert(second == Ok::<Emit, CompileErrorKind>(
        Emit { pool: rc.pool, code: rc.code + seq![InstrView::CmpOp(o2, false)] + seq![] },
    ));
    let first = compile_compare(nodes, ops, 0, ra.pool);
    assert(first->Ok_0.code =~= rb.code + seq![InstrView::CmpOp(o1, true)] + rc.code + seq![
        InstrView::CmpOp(o2, false),
    ]);
    assert(ra.code + first->Ok_0.code =~= ra.code + rb.code + seq![InstrView::CmpOp(o1, true)]
        + rc.code + seq![InstrView::CmpOp(o2, false)]);
}

} // verus!
