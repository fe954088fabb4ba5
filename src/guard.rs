use vstd::prelude::*;
use crate::error::ParseError;
use crate::token::Span;

verus! {

/// An item together with the span of the tokens it was read from.
#[derive(Clone, Copy, Debug, PartialEq, Eq)]
pub struct SpannedItem<T> {
    pub item: T,
    pub span: Span,
}

/// The checked configuration of one type family: sanitizers in the order
/// they were declared, and validators that are consistent with each other.
/// Only the semantic checks of a family construct one.
#[derive(Debug, PartialEq, Eq)]
pub struct Guard<S, V> {
    sanitizers: Vec<S>,
    validators: Vec<V>,
}

impl<S, V> Guard<S, V> {
    pub closed spec fn sanitizer_seq(&self) -> Seq<S> {
        self.sanitizers@
    }

    pub closed spec fn validator_seq(&self) -> Seq<V> {
        self.validators@
    }

    pub(crate) fn new(sanitizers: Vec<S>, validators: Vec<V>) -> (r: Self)
        ensures
            r.sanitizer_seq() == sanitizers@,
            r.validator_seq() == validators@,
    {
        Guard { sanitizers, validators }
    }

    pub fn sanitizers(&self) -> (r: &Vec<S>)
        ensures
            r@ == self.sanitizer_seq(),
    {
        &self.sanitizers
    }

    pub fn validators(&self) -> (r: &Vec<V>)
        ensures
            r@ == self.validator_seq(),
    {
        &self.validators
    }
}

pub open spec fn guard_result<S, V>(r: Result<Guard<S, V>, ParseError>) -> Result<
    (Seq<S>, Seq<V>),
    ParseError,
> {
    match r {
        Ok(g) => Ok((g.sanitizer_seq(), g.validator_seq())),
        Err(e) => Err(e),
    }
}

} // verus!
