use vstd::prelude::*;
use crate::token::Token;
use crate::token::TokenView;

verus! {

/// Why a source text could not be turned into tokens.
#[derive(Debug, Clone, Copy, PartialEq, Eq, Structural)]
pub enum LexErrorKind {
    InvalidChar(char),
    UnclosedStr,
}

/// Why a token sequence is not a program.
#[derive(Debug, Clone, PartialEq, Eq)]
pub enum ParseErrorKind {
    UnexpectedToken(Token),
    UnexpectedEOF,
    UnknownBinaryOperator,
    UnknownUnaryOperator,
    /// A bracketed list of targets that is not followed by `=`.
    UnusedPlaces,
}

/// The mathematical value of a [`ParseErrorKind`].
pub enum ParseErrorView {
    UnexpectedToken(TokenView),
    UnexpectedEOF,
    UnknownBinaryOperator,
    UnknownUnaryOperator,
    UnusedPlaces,
}

impl View for ParseErrorKind {
    type V = ParseErrorView;

    open spec fn view(&self) -> ParseErrorView {
        match self {
            ParseErrorKind::UnexpectedToken(t) => ParseErrorView::UnexpectedToken(t@),
            ParseErrorKind::UnexpectedEOF => ParseErrorView::UnexpectedEOF,
            ParseErrorKind::UnknownBinaryOperator => ParseErrorView::UnknownBinaryOperator,
            ParseErrorKind::UnknownUnaryOperator => ParseErrorView::UnknownUnaryOperator,
            ParseErrorKind::UnusedPlaces => ParseErrorView::UnusedPlaces,
        }
    }
}

/// Why a syntax tree breaks a rule of context.
#[derive(Debug, Clone, Copy, PartialEq, Eq, Structural)]
pub enum CheckErrorKind {
    /// `break` or `continue` outside a loop.
    NotInLoop,
    /// `else` or `else if` without an `if` directly before it.
    MissingIf,
    /// An assignment target that is no name, index or super reference.
    NotPlace,
}

/// Why a syntax tree cannot be lowered to instructions.
#[derive(Debug, Clone, Copy, PartialEq, Eq, Structural)]
pub enum CompileErrorKind {
    /// An assignment to a bracketed list of targets.
    MultiPlace,
    /// A `for` loop that binds a bracketed list of names.
    MultiDecl,
    /// A comparison or logical chain without operands or without operators.
    EmptyChain,
}

/// How the execution of instructions ended, when it did not simply finish.
#[derive(Debug, Clone, Copy, PartialEq, Eq, Structural)]
pub enum ExecuteControl {
    Break,
    Continue,
    /// An exception was raised; its value is on top of the data stack.
    Exception,
    Return,
    Other,
}

} // verus!
