use vstd::prelude::*;
use crate::float::Float;
use crate::lexer::blank::blank_line;
use crate::lexer::blank::lemma_base_irrelevant;
use crate::lexer::blank::lemma_blank_line;
use crate::lexer::blank::lemma_tokens_unfold;
use crate::lexer::grammar::Layout;
use crate::lexer::grammar::byte_len;
use crate::lexer::grammar::floats_after;
use crate::lexer::grammar::lemma_step_progress;
use crate::lexer::grammar::lex_step;
use crate::lexer::grammar::lex_tokens;
use crate::lexer::grammar::next_layout;
use crate::lexer::grammar::piece_tokens;
use crate::lexer::grammar::source_tokens;
use crate::lexer::grammar::start_layout;
use crate::lexer::local::agree;
use crate::lexer::local::lemma_agree_skip;
use crate::lexer::local::lemma_step_local;
use crate::span::nodes_of;
use crate::token::TokenView;

verus! {

/// How far the lexer has come when it stands between two tokens.
pub struct Reached {
    /// The tokens put out so far.
    pub tokens: Seq<TokenView>,
    pub layout: Layout,
    /// The float values not yet used.
    pub floats: Seq<Float>,
}

/// The state in which the lexer stands before the character at index `k`, if it ever
/// stands there: if no token reaches over that place.
pub open spec fn reach(rest: Seq<char>, layout: Layout, floats: Seq<Float>, k: nat) -> Option<
    Reached,
>
    decreases k, layout.indents.len(),
{
    if k == 0 {
        Some(Reached { tokens: seq![], layout, floats })
    } else if rest.len() == 0 {
        None
    } else {
        proof {
            lemma_step_progress(rest, layout);
        }
        let step = lex_step(rest, layout);
        if step.len > k {
            None
        } else {
            match reach(
                rest.skip(step.len as int),
                next_layout(step, layout),
                floats_after(step.piece, floats),
                (k - step.len) as nat,
            ) {
                Some(r) => Some(
                    Reached {
                        tokens: piece_tokens(step.piece, layout.end_ok, floats) + r.tokens,
                        layout: r.layout,
                        floats: r.floats,
                    },
                ),
                None => None,
            }
        }
    }
}

/// Whether a line break of a source text stands between two tokens: whether a blank
/// line can be put after it.
pub open spec fn between_tokens(source: Seq<char>, floats: Seq<Float>, k: nat) -> bool {
    k < source.len() && source[k as int] == '\n' && reach(source, start_layout(), floats, k)
        is Some
}

/// A text with another put into it at an index.
pub open spec fn inserted(source: Seq<char>, at: nat, text: Seq<char>) -> Seq<char> {
    source.take(at as int) + text + source.skip(at as int)
}

/// The tokens of a text are those put out up to a place where the lexer stands, then
/// the tokens of the rest, read from the state in which it stands there.
pub proof fn lemma_reach_splits(
    rest: Seq<char>,
    base: nat,
    other: nat,
    layout: Layout,
    floats: Seq<Float>,
    k: nat,
)
    requires
        reach(rest, layout, floats, k) is Some,
    ensures
        k <= rest.len(),
        nodes_of(lex_tokens(rest, base, layout, floats)) == reach(
            rest,
            layout,
            floats,
            k,
        )->Some_0.tokens + nodes_of(
            lex_tokens(
                rest.skip(k as int),
                other,
                reach(rest, layout, floats, k)->Some_0.layout,
                reach(rest, layout, floats, k)->Some_0.floats,
            ),
        ),
    decreases k, layout.indents.len(),
{
    if k == 0 {
        assert(rest.skip(0) =~= rest);
        lemma_base_irrelevant(rest, base, other, layout, floats);
        assert(Seq::<TokenView>::empty() + nodes_of(lex_tokens(rest, other, layout, floats))
            =~= nodes_of(lex_tokens(rest, other, layout, floats)));
    } else {
        lemma_step_progress(rest, layout);
        let step = lex_step(rest, layout);
        let here = piece_tokens(step.piece, layout.end_ok, floats);
        let next = base + byte_len(rest.take(step.len as int));
        let later = rest.skip(step.len as int);
        let r = reach(
            later,
            next_layout(step, layout),
            floats_after(step.piece, floats),
            (k - step.len) as nat,
        )->Some_0;
        lemma_tokens_unfold(rest, base, layout, floats);
        lemma_reach_splits(
            later,
            next,
            other,
            next_layout(step, layout),
            floats_after(step.piece, floats),
            (k - step.len) as nat,
        );
        assert(later.skip(k - step.len) =~= rest.skip(k as int));
        let tail = nodes_of(lex_tokens(rest.skip(k as int), other, r.layout, r.floats));
        assert(here + (r.tokens + tail) =~= (here + r.tokens) + tail);
    }
}

/// Where the lexer stands before a line break depends only on the text up to it.
pub proof fn lemma_reach_local(
    a: Seq<char>,
    b: Seq<char>,
    layout: Layout,
    floats: Seq<Float>,
    k: nat,
)
    requires
        agree(a, b, k),
    ensures
        reach(a, layout, floats, k) == reach(b, layout, floats, k),
    decreases k, layout.indents.len(),
{
    if k > 0 {
        lemma_step_progress(a, layout);
        lemma_step_progress(b, layout);
        let sa = lex_step(a, layout);
        let sb = lex_step(b, layout);
        if sa.len <= k {
            lemma_step_local(a, b, layout, k);
        } else if sb.len <= k {
            assert(agree(b, a, k));
            lemma_step_local(b, a, layout, k);
        }
        if sa.len <= k {
            lemma_agree_skip(a, b, k, sa.len);
            lemma_reach_local(
                a.skip(sa.len as int),
                b.skip(sa.len as int),
                next_layout(sa, layout),
                floats_after(sa.piece, floats),
                (k - sa.len) as nat,
            );
        }
    }
}

/// Blank lines change no token: a source text with a blank line put after a line
/// break that stands between two tokens has the tokens of the text without it.
pub proof fn lemma_blank_line_inserted(source: Seq<char>, floats: Seq<Float>, k: nat, width: nat)
    requires
        between_tokens(source, floats, k),
    ensures
        nodes_of(source_tokens(inserted(source, k + 1, blank_line(width)), floats)) == nodes_of(
            source_tokens(source, floats),
        ),
        between_tokens(inserted(source, k + 1, blank_line(width)), floats, k),
{
    let longer = inserted(source, k + 1, blank_line(width));
    let after = source.skip(k as int + 1);
    assert forall|i: int| 0 <= i <= k implies source[i] == longer[i] by {
        assert(longer[i] == source.take(k as int + 1)[i]);
    }
    assert(agree(source, longer, k));
    lemma_reach_local(source, longer, start_layout(), floats, k);
    let r = reach(source, start_layout(), floats, k)->Some_0;
    lemma_reach_splits(source, 0, 0, start_layout(), floats, k);
    lemma_reach_splits(longer, 0, 0, start_layout(), floats, k);
    assert(source.skip(k as int) =~= seq!['\n'] + after);
    assert(longer.skip(k as int) =~= seq!['\n'] + blank_line(width) + after);
    lemma_blank_line(after, width, 0, r.layout, r.floats);
}

} // verus!
