//! The ways in which parsing a program can fail.

use crate::op::OperationId;
use vstd::prelude::*;

verus! {

/// Why one argument, or one modifier declaration, was rejected.
#[derive(Clone, Copy, Debug, PartialEq, Eq, Structural)]
pub enum ParsePerTypeError {
    /// A token at a floating-point position is not a floating-point literal.
    ParseFloatError,
    /// A token at a signed position is not a signed 32-bit integer.
    ParseIntError,
    /// A token at an unsigned position is not an unsigned 32-bit integer.
    ParseUIntError,
    /// A modifier declaration is malformed.
    InvalidModifierSyntax,
    /// A modifier was declared for a name that is no operation.
    InvalidOperationForModifier,
    /// A modifier keyword was recognised but its argument is missing.
    ModifierArgumentExpected,
    /// The argument of `sampling-filter` names no known filter.
    UnrecognizedSamplingFilterName,
}

/// The single error with which a parse ends.
#[derive(Debug, PartialEq, Eq)]
pub enum ParserError {
    /// A token that is neither an operation, a modifier nor a foreign flag.
    Unexpected(String),
    /// An argument or a modifier declaration was rejected.
    PPTE(ParsePerTypeError),
    /// A name that is not in the operation catalog.
    UnknownOperation(String),
    /// The operation did not get as many argument tokens as it takes; the
    /// number is how many it got.
    ArgumentCountMismatch(OperationId, usize),
    /// A modifier was declared for an operation that does not occur after it.
    UnboundModifier(OperationId),
}

/// The mathematical content of a [`ParserError`].
pub enum ParserErrorView {
    Unexpected(Seq<char>),
    PPTE(ParsePerTypeError),
    UnknownOperation(Seq<char>),
    ArgumentCountMismatch(OperationId, nat),
    UnboundModifier(OperationId),
}

impl View for ParserError {
    type V = ParserErrorView;

    open spec fn view(&self) -> ParserErrorView {
        match *self {
            ParserError::Unexpected(token) => ParserErrorView::Unexpected(token@),
            ParserError::PPTE(e) => ParserErrorView::PPTE(e),
            ParserError::UnknownOperation(name) => ParserErrorView::UnknownOperation(name@),
            ParserError::ArgumentCountMismatch(id, found) => ParserErrorView::ArgumentCountMismatch(
                id,
                found as nat,
            ),
            ParserError::UnboundModifier(id) => ParserErrorView::UnboundModifier(id),
        }
    }
}

impl Clone for ParserError {
    fn clone(&self) -> (copy: Self)
        ensures
            copy@ == self@,
    {
        match self {
            ParserError::Unexpected(token) => ParserError::Unexpected(token.clone()),
            ParserError::PPTE(e) => ParserError::PPTE(*e),
            ParserError::UnknownOperation(name) => ParserError::UnknownOperation(name.clone()),
            ParserError::ArgumentCountMismatch(id, found) => ParserError::ArgumentCountMismatch(
                *id,
                *found,
            ),
            ParserError::UnboundModifier(id) => ParserError::UnboundModifier(*id),
        }
    }
}

} // verus!
