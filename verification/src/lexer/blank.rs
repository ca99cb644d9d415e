use vstd::prelude::*;
use crate::float::Float;
use crate::lexer::grammar::CharClass;
use crate::lexer::grammar::Layout;
use crate::lexer::grammar::at_span;
use crate::lexer::grammar::byte_len;
use crate::lexer::grammar::closing;
use crate::lexer::grammar::floats_after;
use crate::lexer::grammar::lemma_step_progress;
use crate::lexer::grammar::lex_step;
use crate::lexer::grammar::lex_tokens;
use crate::lexer::grammar::newline_step;
use crate::lexer::grammar::next_layout;
use crate::lexer::grammar::piece_tokens;
use crate::lexer::grammar::run_len;
use crate::lexer::text::lemma_run_len;
use crate::span::Span;
use crate::span::SpannedView;
use crate::span::nodes_of;
use crate::token::TokenView;

verus! {

/// A run of spaces.
pub open spec fn spaces(n: nat) -> Seq<char> {
    Seq::new(n, |i: int| ' ')
}

/// A blank line: spaces and a line break.
pub open spec fn blank_line(n: nat) -> Seq<char> {
    spaces(n) + seq!['\n']
}

/// The tokens of spanned tokens that stand at one place, then of others.
pub proof fn lemma_nodes_concat(head: Seq<TokenView>, span: Span, tail: Seq<SpannedView>)
    ensures
        nodes_of(at_span(head, span) + tail) == head + nodes_of(tail),
{
    assert(nodes_of(at_span(head, span) + tail) =~= head + nodes_of(tail));
}

/// The tokens of a text are what the first step puts out, then the tokens of the rest.
pub proof fn lemma_tokens_unfold(rest: Seq<char>, base: nat, layout: Layout, floats: Seq<Float>)
    requires
        rest.len() > 0,
    ensures
        nodes_of(lex_tokens(rest, base, layout, floats)) == piece_tokens(
            lex_step(rest, layout).piece,
            layout.end_ok,
            floats,
        ) + nodes_of(
            lex_tokens(
                rest.skip(lex_step(rest, layout).len as int),
                base + byte_len(rest.take(lex_step(rest, layout).len as int)),
                next_layout(lex_step(rest, layout), layout),
                floats_after(lex_step(rest, layout).piece, floats),
            ),
        ),
{
    let step = lex_step(rest, layout);
    let next = base + byte_len(rest.take(step.len as int));
    lemma_nodes_concat(
        piece_tokens(step.piece, layout.end_ok, floats),
        Span { low: base as u64, high: next as u64 },
        lex_tokens(
            rest.skip(step.len as int),
            next,
            next_layout(step, layout),
            floats_after(step.piece, floats),
        ),
    );
}

/// Where in its source a text starts does not matter to its tokens.
pub proof fn lemma_base_irrelevant(
    rest: Seq<char>,
    base: nat,
    other: nat,
    layout: Layout,
    floats: Seq<Float>,
)
    ensures
        nodes_of(lex_tokens(rest, base, layout, floats)) == nodes_of(
            lex_tokens(rest, other, layout, floats),
        ),
    decreases rest.len(), layout.indents.len(),
{
    if rest.len() == 0 {
        let a = Span { low: base as u64, high: base as u64 };
        let b = Span { low: other as u64, high: other as u64 };
        assert(nodes_of(at_span(closing(layout), a)) =~= nodes_of(at_span(closing(layout), b)));
    } else {
        lemma_step_progress(rest, layout);
        let step = lex_step(rest, layout);
        lemma_tokens_unfold(rest, base, layout, floats);
        lemma_tokens_unfold(rest, other, layout, floats);
        lemma_base_irrelevant(
            rest.skip(step.len as int),
            base + byte_len(rest.take(step.len as int)),
            other + byte_len(rest.take(step.len as int)),
            next_layout(step, layout),
            floats_after(step.piece, floats),
        );
    }
}

/// Spaces before something that is no space are a run of their own.
pub proof fn lemma_run_spaces(n: nat, tail: Seq<char>)
    requires
        tail.len() > 0 ==> tail[0] != ' ',
    ensures
        run_len(spaces(n) + tail, CharClass::Indent) == n,
{
    lemma_run_len(spaces(n) + tail, CharClass::Indent, n);
}

/// A blank line after a line break changes no token: the text after a line break has
/// the tokens that it has with a blank line put before it.
pub proof fn lemma_blank_line(
    after: Seq<char>,
    n: nat,
    base: nat,
    layout: Layout,
    floats: Seq<Float>,
)
    ensures
        nodes_of(lex_tokens(seq!['\n'] + blank_line(n) + after, base, layout, floats))
            == nodes_of(lex_tokens(seq!['\n'] + after, base, layout, floats)),
    decreases layout.indents.len(),
{
    let long = seq!['\n'] + blank_line(n) + after;
    let short = seq!['\n'] + after;
    lemma_tokens_unfold(long, base, layout, floats);
    lemma_tokens_unfold(short, base, layout, floats);
    let step = lex_step(long, layout);
    if layout.indents.len() > 0 && layout.current < layout.indents.last() {
        let inner = next_layout(step, layout);
        assert(long.skip(0) =~= long);
        assert(short.skip(0) =~= short);
        assert(long.take(0) =~= short.take(0));
        lemma_blank_line(after, n, base + byte_len(long.take(0)), inner, floats);
    } else {
        assert(long[0] == '\n');
        assert(long.skip(1) =~= spaces(n) + (seq!['\n'] + after));
        lemma_run_spaces(n, seq!['\n'] + after);
        assert(long[1 + n as int] == '\n');
        assert(step == newline_step(long, layout));
        assert(step.len == 1 + n);
        assert(step.piece is Nothing);
        assert(long.skip(1 + n as int) =~= short);
        assert(next_layout(step, layout) == layout);
        assert(piece_tokens(step.piece, layout.end_ok, floats) + nodes_of(
            lex_tokens(short, base + byte_len(long.take(step.len as int)), layout, floats),
        ) =~= nodes_of(
            lex_tokens(short, base + byte_len(long.take(step.len as int)), layout, floats),
        ));
        lemma_base_irrelevant(
            short,
            base + byte_len(long.take(step.len as int)),
            base,
            layout,
            floats,
        );
    }
}

} // verus!
