use vstd::prelude::*;
use crate::float::Float;
use crate::lexer::blank::lemma_nodes_concat;
use crate::lexer::grammar::Layout;
use crate::lexer::grammar::Piece;
use crate::lexer::grammar::at_span;
use crate::lexer::grammar::closing;
use crate::lexer::grammar::floats_after;
use crate::lexer::grammar::lemma_step_progress;
use crate::lexer::grammar::lex_step;
use crate::lexer::grammar::lex_tokens;
use crate::lexer::grammar::next_layout;
use crate::lexer::grammar::pair_of;
use crate::lexer::grammar::piece_tokens;
use crate::lexer::grammar::source_tokens;
use crate::lexer::grammar::start_layout;
use crate::lexer::grammar::symbol;
use crate::span::Span;
use crate::span::SpannedView;
use crate::span::nodes_of;
use crate::token::TokenView;

verus! {

/// What the token before says about the token that may follow.
pub enum Before {
    /// Nothing was put out yet, or the end of a statement: no end of a statement may
    /// follow.
    Fresh,
    /// The end of a block: the end of a statement must follow.
    Closed,
    /// Any other token.
    Open,
}

/// Whether a token sequence is what may follow when `depth` blocks are open:
/// every end of a block closes a block that is open and is followed at once by the end
/// of a statement; the end of a statement never comes first and never follows another;
/// and the sequence ends with the end of the input, which comes once, when every block
/// is closed.
pub open spec fn balanced_from(ts: Seq<TokenView>, depth: nat, before: Before) -> bool
    decreases ts.len(),
{
    if ts.len() == 0 {
        false
    } else {
        match ts[0] {
            TokenView::EOF => ts.len() == 1 && depth == 0 && !(before is Closed),
            TokenView::End => !(before is Fresh) && balanced_from(ts.skip(1), depth, Before::Fresh),
            TokenView::Exit => !(before is Closed) && depth > 0 && balanced_from(
                ts.skip(1),
                (depth - 1) as nat,
                Before::Closed,
            ),
            TokenView::Enter => !(before is Closed) && balanced_from(
                ts.skip(1),
                depth + 1,
                Before::Open,
            ),
            _ => !(before is Closed) && balanced_from(ts.skip(1), depth, Before::Open),
        }
    }
}

/// Whether a whole token sequence is balanced.
pub open spec fn balanced(ts: Seq<TokenView>) -> bool {
    balanced_from(ts, 0, Before::Fresh)
}

/// Whether a layout is one that the lexer can be in: the outermost block has
/// indentation 0.
pub open spec fn layout_ok(layout: Layout) -> bool {
    layout.indents.len() > 0 && layout.indents[0] == 0
}

/// What the layout says about the token before.
pub open spec fn before_of(layout: Layout) -> Before {
    if layout.end_ok {
        Before::Open
    } else {
        Before::Fresh
    }
}

/// The tokens that close the output are balanced.
proof fn lemma_closing_balanced(layout: Layout)
    requires
        layout.indents.len() > 0,
    ensures
        balanced_from(closing(layout), (layout.indents.len() - 1) as nat, before_of(layout)),
    decreases layout.indents.len(),
{
    let depth = (layout.indents.len() - 1) as nat;
    let ends = piece_tokens(Piece::End, layout.end_ok, seq![]);
    let whole = closing(layout);
    if layout.indents.len() > 1 {
        let inner = Layout {
            indents: layout.indents.drop_last(),
            current: layout.current,
            end_ok: false,
        };
        let rest = closing(inner);
        lemma_closing_balanced(inner);
        let pair = seq![TokenView::Exit, TokenView::End];
        let tail = pair + rest;
        assert(whole == ends + pair + rest);
        assert(tail.skip(1).skip(1) =~= rest);
        assert(tail.skip(1)[0] == TokenView::End);
        assert(tail[0] == TokenView::Exit);
        assert(balanced_from(rest, (depth - 1) as nat, Before::Fresh));
        assert(balanced_from(tail.skip(1), (depth - 1) as nat, Before::Closed));
        assert(balanced_from(tail, depth, Before::Fresh));
        assert(balanced_from(tail, depth, Before::Open));
        if layout.end_ok {
            assert(whole[0] == TokenView::End);
            assert(whole.skip(1) =~= tail);
        } else {
            assert(whole =~= tail);
        }
    } else {
        let last = seq![TokenView::EOF];
        assert(whole == ends + last);
        assert(last[0] == TokenView::EOF);
        assert(balanced_from(last, 0, Before::Fresh));
        assert(balanced_from(last, 0, Before::Open));
        if layout.end_ok {
            assert(whole[0] == TokenView::End);
            assert(whole.skip(1) =~= last);
        } else {
            assert(whole =~= last);
        }
    }
}

/// A token that the lexer reads from the text is no token of the block structure but,
/// at most, the start of a block.
proof fn lemma_read_token(rest: Seq<char>, layout: Layout)
    requires
        rest.len() > 0,
        lex_step(rest, layout).piece is Token,
    ensures
        !(lex_step(rest, layout).piece->Token_0 is End),
        !(lex_step(rest, layout).piece->Token_0 is Exit),
        !(lex_step(rest, layout).piece->Token_0 is EOF),
        lex_step(rest, layout).piece->Token_0 is Enter ==> lex_step(rest, layout).indents.len()
            == layout.indents.len() + 1,
        !(lex_step(rest, layout).piece->Token_0 is Enter) ==> lex_step(rest, layout).indents
            == layout.indents,
{
    let c = rest[0];
    if pair_of(c) is Some {
    } else if symbol(c) is Some {
    }
}

/// The tokens of a text, read from a layout that the lexer can be in, are balanced.
pub proof fn lemma_lex_balanced(rest: Seq<char>, base: nat, layout: Layout, floats: Seq<Float>)
    requires
        layout_ok(layout),
    ensures
        balanced_from(
            nodes_of(lex_tokens(rest, base, layout, floats)),
            (layout.indents.len() - 1) as nat,
            before_of(layout),
        ),
    decreases rest.len(), layout.indents.len(),
{
    let depth = (layout.indents.len() - 1) as nat;
    if rest.len() == 0 {
        let span = Span { low: base as u64, high: base as u64 };
        lemma_closing_balanced(layout);
        lemma_nodes_concat(closing(layout), span, seq![]);
        assert(at_span(closing(layout), span) + Seq::<SpannedView>::empty() =~= at_span(
            closing(layout),
            span,
        ));
        assert(closing(layout) + nodes_of(Seq::<SpannedView>::empty()) =~= closing(layout));
    } else {
        lemma_step_progress(rest, layout);
        let step = lex_step(rest, layout);
        let next = base + crate::lexer::grammar::byte_len(rest.take(step.len as int));
        let span = Span { low: base as u64, high: next as u64 };
        let head = piece_tokens(step.piece, layout.end_ok, floats);
        let after = next_layout(step, layout);
        let tail = lex_tokens(
            rest.skip(step.len as int),
            next,
            after,
            floats_after(step.piece, floats),
        );
        assert(layout_ok(after)) by {
            if step.indents != layout.indents {
                if step.piece is Exit {
                    assert(layout.indents.len() > 1);
                    assert(step.indents[0] == layout.indents[0]);
                } else {
                    assert(step.indents[0] == layout.indents[0]);
                }
            }
        }
        lemma_lex_balanced(rest.skip(step.len as int), next, after, floats_after(step.piece, floats));
        lemma_nodes_concat(head, span, tail);
        let ts = head + nodes_of(tail);
        match step.piece {
            Piece::Nothing => {
                assert(ts =~= nodes_of(tail));
            },
            Piece::End => {
                if layout.end_ok {
                    assert(ts.skip(1) =~= nodes_of(tail));
                } else {
                    assert(ts =~= nodes_of(tail));
                }
            },
            Piece::Exit => {
                assert(layout.indents.len() > 1);
                assert(ts.skip(1).skip(1) =~= nodes_of(tail));
                assert(ts.skip(1)[0] == TokenView::End);
                assert(balanced_from(ts.skip(1), (depth - 1) as nat, Before::Closed));
            },
            Piece::Token(t) => {
                lemma_read_token(rest, layout);
                assert(ts.skip(1) =~= nodes_of(tail));
            },
            Piece::IntText(_) => {
                assert(ts.skip(1) =~= nodes_of(tail));
            },
            Piece::FloatText(_) => {
                assert(ts.skip(1) =~= nodes_of(tail));
            },
        }
    }
}

/// The tokens of every source text are balanced: every block that starts ends before
/// the end of the input, the end of a block is followed at once by the end of a
/// statement, no two ends of statements follow each other, and the end of the input
/// comes once, as the last token.
pub proof fn lemma_source_balanced(source: Seq<char>, floats: Seq<Float>)
    ensures
        balanced(nodes_of(source_tokens(source, floats))),
{
    lemma_lex_balanced(source, 0, start_layout(), floats);
}

} // verus!
