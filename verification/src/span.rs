use vstd::prelude::*;
use crate::token::Token;
use crate::token::TokenView;

verus! {

/// A range of byte offsets into one source text.
#[derive(Debug, Clone, Copy, PartialEq, Eq, Hash, Structural)]
pub struct Span {
    pub low: u64,
    pub high: u64,
}

impl Span {
    /// The part of this span from `begin` to `end`, both counted from its start.
    pub fn subspan(&self, begin: u64, end: u64) -> (r: Span)
        requires
            begin <= end,
            self.low + end <= self.high,
        ensures
            r.low == self.low + begin,
            r.high == self.low + end,
    {
        Span { low: self.low + begin, high: self.low + end }
    }

    /// Number of bytes covered.
    pub fn len(&self) -> (r: u64)
        requires
            self.low <= self.high,
        ensures
            r == self.high - self.low,
    {
        self.high - self.low
    }
}

/// A token together with the place it was read from.
#[derive(Debug, Clone, PartialEq, Eq)]
pub struct Spanned {
    pub node: Token,
    pub span: Span,
}

/// The mathematical value of a [`Spanned`] token.
pub struct SpannedView {
    pub node: TokenView,
    pub span: Span,
}

impl View for Spanned {
    type V = SpannedView;

    open spec fn view(&self) -> SpannedView {
        SpannedView { node: self.node@, span: self.span }
    }
}

/// The tokens of a spanned sequence, without their spans.
pub open spec fn nodes_of(tokens: Seq<SpannedView>) -> Seq<TokenView> {
    Seq::new(tokens.len(), |i: int| tokens[i].node)
}

/// The values of a vector of spanned tokens.
pub open spec fn spanned_views(tokens: Seq<Spanned>) -> Seq<SpannedView> {
    Seq::new(tokens.len(), |i: int| tokens[i]@)
}

} // verus!
