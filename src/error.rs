use vstd::prelude::*;
use crate::number::NumberKind;

verus! {

/// What went wrong; the span of the error says where.
#[derive(Clone, Copy, Debug, PartialEq, Eq, Structural)]
pub enum ErrorKind {
    /// An identifier was expected.
    ExpectedIdent,
    /// A bracketed group was expected.
    ExpectedGroup,
    /// The punctuation character given was expected.
    ExpectedPunct(char),
    /// The input ended where a number was expected.
    ExpectedNumber,
    /// A top-level keyword other than `sanitize` or `validate`.
    UnknownOption,
    /// A sanitizer keyword that the type family does not know.
    UnknownSanitizer,
    /// A validator keyword that the type family does not know.
    UnknownValidator,
    /// The literal does not parse as a number of the given kind.
    NumberMismatch(NumberKind),
    /// Neither a path nor a one-argument closure follows `with =`.
    InvalidFunction,
    /// The closure's argument type is not the one its slot calls for.
    FunctionTypeMismatch,
    /// A pattern is neither a string literal nor a path.
    InvalidRegex,
    /// The keyword needs a capability that is switched off.
    MissingCapability(Capability),
    /// The validator kind was declared before.
    DuplicateValidator,
    /// The lower and upper bounds leave no value.
    InvalidRange,
}

/// An optional feature that some keywords depend on.
#[derive(Clone, Copy, Debug, PartialEq, Eq, Structural)]
pub enum Capability {
    /// Matching string values against a regular expression.
    Regex,
}

/// A located error.
#[derive(Clone, Copy, Debug, PartialEq, Eq, Structural)]
pub struct ParseError {
    pub kind: ErrorKind,
    pub span: crate::token::Span,
}

pub open spec fn err<T>(kind: ErrorKind, span: crate::token::Span) -> Result<T, ParseError> {
    Err(ParseError { kind, span })
}

} // verus!
