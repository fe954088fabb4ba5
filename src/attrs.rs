use vstd::prelude::*;
use crate::error::{err, ErrorKind, ParseError};
use crate::token::{chars_eq, is_ident, is_punct, token_span, Span, Token};

verus! {

/// The grammar of one type family: how a single sanitizer and a single
/// validator are read from the inner tokens of their group.
pub trait Family {
    type Sanitizer;
    type Validator;

    /// The sanitizer at `pos` and the position after it.
    spec fn sanitizer_spec(&self, toks: Seq<Token>, pos: int) -> Result<(Self::Sanitizer, int), ParseError>;

    /// The validator at `pos` and the position after it.
    spec fn validator_spec(&self, toks: Seq<Token>, pos: int) -> Result<(Self::Validator, int), ParseError>;

    fn parse_sanitizer(&self, toks: &Vec<Token>, pos: usize) -> (r: Result<(Self::Sanitizer, usize), ParseError>)
        requires
            pos < toks@.len(),
        ensures
            match (r, self.sanitizer_spec(toks@, pos as int)) {
                (Ok((s, n)), Ok((s2, n2))) => s == s2 && n == n2 && pos < n <= toks@.len(),
                (Err(e), Err(e2)) => e == e2,
                _ => false,
            };

    fn parse_validator(&self, toks: &Vec<Token>, pos: usize) -> (r: Result<(Self::Validator, usize), ParseError>)
        requires
            pos < toks@.len(),
        ensures
            match (r, self.validator_spec(toks@, pos as int)) {
                (Ok((v, n)), Ok((v2, n2))) => v == v2 && n == n2 && pos < n <= toks@.len(),
                (Err(e), Err(e2)) => e == e2,
                _ => false,
            };
}

pub open spec fn seq_result<T>(r: Result<Vec<T>, ParseError>) -> Result<Seq<T>, ParseError> {
    match r {
        Ok(v) => Ok(v@),
        Err(e) => Err(e),
    }
}

/// What follows an item that ends before `next`: the end, or a `,` and more.
/// `Ok(None)` is the end, `Ok(Some(p))` the position of the next item.
pub open spec fn after_item(toks: Seq<Token>, next: int) -> Result<Option<int>, ParseError> {
    if next >= toks.len() {
        Ok(None)
    } else if is_punct(toks[next], ',') {
        Ok(Some(next + 1))
    } else {
        err(ErrorKind::ExpectedPunct(','), token_span(toks[next]))
    }
}

/// The comma-separated sanitizers from `pos` on (a trailing comma is allowed).
pub open spec fn sanitizers_from<F: Family>(f: F, toks: Seq<Token>, pos: int) -> Result<Seq<F::Sanitizer>, ParseError>
    decreases toks.len() - pos,
{
    if pos >= toks.len() {
        Ok(Seq::empty())
    } else {
        match f.sanitizer_spec(toks, pos) {
            Err(e) => Err(e),
            Ok((item, next)) => if next <= pos {
                err(ErrorKind::ExpectedIdent, token_span(toks[pos]))
            } else {
                match after_item(toks, next) {
                    Err(e) => Err(e),
                    Ok(None) => Ok(seq![item]),
                    Ok(Some(p)) => match sanitizers_from(f, toks, p) {
                        Ok(rest) => Ok(seq![item] + rest),
                        Err(e) => Err(e),
                    },
                }
            },
        }
    }
}

/// The comma-separated validators from `pos` on (a trailing comma is allowed).
pub open spec fn validators_from<F: Family>(f: F, toks: Seq<Token>, pos: int) -> Result<Seq<F::Validator>, ParseError>
    decreases toks.len() - pos,
{
    if pos >= toks.len() {
        Ok(Seq::empty())
    } else {
        match f.validator_spec(toks, pos) {
            Err(e) => Err(e),
            Ok((item, next)) => if next <= pos {
                err(ErrorKind::ExpectedIdent, token_span(toks[pos]))
            } else {
                match after_item(toks, next) {
                    Err(e) => Err(e),
                    Ok(None) => Ok(seq![item]),
                    Ok(Some(p)) => match validators_from(f, toks, p) {
                        Ok(rest) => Ok(seq![item] + rest),
                        Err(e) => Err(e),
                    },
                }
            },
        }
    }
}

fn step_after_item(toks: &Vec<Token>, next: usize) -> (r: Result<Option<usize>, ParseError>)
    requires
        next <= toks@.len(),
    ensures
        match (r, after_item(toks@, next as int)) {
            (Ok(None), Ok(None)) => true,
            (Ok(Some(p)), Ok(Some(q))) => p == q,
            (Err(e), Err(e2)) => e == e2,
            _ => false,
        },
{
    if next >= toks.len() {
        Ok(None)
    } else if toks[next].is_punct(',') {
        Ok(Some(next + 1))
    } else {
        Err(ParseError { kind: ErrorKind::ExpectedPunct(','), span: toks[next].span() })
    }
}

/// Reads the sanitizer list that fills a `sanitize(...)` group.
pub fn parse_sanitizers<F: Family>(f: &F, toks: &Vec<Token>) -> (r: Result<Vec<F::Sanitizer>, ParseError>)
    ensures
        seq_result(r) == sanitizers_from(*f, toks@, 0),
{
    let mut out: Vec<F::Sanitizer> = Vec::new();
    let mut pos: usize = 0;
    while pos < toks.len()
        invariant
            pos <= toks@.len(),
            sanitizers_from(*f, toks@, 0) == match sanitizers_from(*f, toks@, pos as int) {
                Ok(rest) => Ok(out@ + rest),
                Err(e) => Err(e),
            },
        decreases toks@.len() - pos,
    {
        let (item, next) = f.parse_sanitizer(toks, pos)?;
        let ghost before = out@;
        let step = step_after_item(toks, next)?;
        out.push(item);
        match step {
            None => {
                assert(out@ =~= before + seq![item]);
                assert(out@ + Seq::<F::Sanitizer>::empty() =~= out@);
                return Ok(out);
            },
            Some(p) => {
                proof {
                    match sanitizers_from(*f, toks@, p as int) {
                        Ok(rest) => assert(before + (seq![item] + rest) =~= out@ + rest),
                        Err(_) => {},
                    }
                }
                pos = p;
            },
        }
    }
    assert(out@ + Seq::<F::Sanitizer>::empty() =~= out@);
    Ok(out)
}

/// Reads the validator list that fills a `validate(...)` group.
pub fn parse_validators<F: Family>(f: &F, toks: &Vec<Token>) -> (r: Result<Vec<F::Validator>, ParseError>)
    ensures
        seq_result(r) == validators_from(*f, toks@, 0),
{
    let mut out: Vec<F::Validator> = Vec::new();
    let mut pos: usize = 0;
    while pos < toks.len()
        invariant
            pos <= toks@.len(),
            validators_from(*f, toks@, 0) == match validators_from(*f, toks@, pos as int) {
                Ok(rest) => Ok(out@ + rest),
                Err(e) => Err(e),
            },
        decreases toks@.len() - pos,
    {
        let (item, next) = f.parse_validator(toks, pos)?;
        let ghost before = out@;
        let step = step_after_item(toks, next)?;
        out.push(item);
        match step {
            None => {
                assert(out@ =~= before + seq![item]);
                assert(out@ + Seq::<F::Validator>::empty() =~= out@);
                return Ok(out);
            },
            Some(p) => {
                proof {
                    match validators_from(*f, toks@, p as int) {
                        Ok(rest) => assert(before + (seq![item] + rest) =~= out@ + rest),
                        Err(_) => {},
                    }
                }
                pos = p;
            },
        }
    }
    assert(out@ + Seq::<F::Validator>::empty() =~= out@);
    Ok(out)
}

/// The raw result of the attribute list: sanitizers and validators in
/// declaration order, not yet checked against each other.
#[derive(Debug, PartialEq, Eq)]
pub struct RawMeta<S, V> {
    pub sanitizers: Vec<S>,
    pub validators: Vec<V>,
}

/// An identifier token taken apart.
#[derive(Debug, PartialEq, Eq)]
pub struct Ident {
    pub text: Vec<char>,
    pub span: Span,
}

/// The identifier that `token` is, or an error located at it.
pub fn try_unwrap_ident(token: &Token) -> (r: Result<Ident, ParseError>)
    ensures
        match r {
            Ok(id) => is_ident(*token, id.text@) && id.span == token_span(*token),
            Err(e) => !(*token is Ident) && e == (ParseError {
                kind: ErrorKind::ExpectedIdent,
                span: token_span(*token),
            }),
        },
{
    match token {
        Token::Ident { text, span } => Ok(Ident { text: crate::token::copy_chars(text), span: *span }),
        _ => Err(ParseError { kind: ErrorKind::ExpectedIdent, span: token.span() }),
    }
}

/// The inner tokens of the group that `token` is, or an error located at it.
pub fn try_unwrap_group(token: &Token) -> (r: Result<&Vec<Token>, ParseError>)
    ensures
        match r {
            Ok(inner) => (*token matches Token::Group { stream, .. } && inner@ == stream@),
            Err(e) => !(*token is Group) && e == (ParseError {
                kind: ErrorKind::ExpectedGroup,
                span: token_span(*token),
            }),
        },
{
    match token {
        Token::Group { stream, .. } => Ok(stream),
        _ => Err(ParseError { kind: ErrorKind::ExpectedGroup, span: token.span() }),
    }
}

pub open spec fn kw_sanitize() -> Seq<char> {
    seq!['s', 'a', 'n', 'i', 't', 'i', 'z', 'e']
}

pub open spec fn kw_validate() -> Seq<char> {
    seq!['v', 'a', 'l', 'i', 'd', 'a', 't', 'e']
}

/// The inner tokens of a group token; empty for any other token.
pub open spec fn group_stream(t: Token) -> Seq<Token> {
    match t {
        Token::Group { stream, .. } => stream@,
        _ => Seq::empty(),
    }
}

/// Reads `keyword(...)` pairs from `pos` on, on top of the lists read so far.
/// A later group of the same keyword replaces the list of an earlier one.
pub open spec fn attributes_from<F: Family>(
    f: F,
    toks: Seq<Token>,
    pos: int,
    san: Seq<F::Sanitizer>,
    val: Seq<F::Validator>,
) -> Result<(Seq<F::Sanitizer>, Seq<F::Validator>), ParseError>
    decreases toks.len() - pos,
{
    if pos >= toks.len() {
        Ok((san, val))
    } else if !(toks[pos] is Ident) {
        err(ErrorKind::ExpectedIdent, token_span(toks[pos]))
    } else if is_ident(toks[pos], kw_sanitize()) || is_ident(toks[pos], kw_validate()) {
        if pos + 1 >= toks.len() {
            err(ErrorKind::ExpectedGroup, token_span(toks[pos]))
        } else if !(toks[pos + 1] is Group) {
            err(ErrorKind::ExpectedGroup, token_span(toks[pos + 1]))
        } else if is_ident(toks[pos], kw_sanitize()) {
            match sanitizers_from(f, group_stream(toks[pos + 1]), 0) {
                Ok(s) => attributes_from(f, toks, pos + 2, s, val),
                Err(e) => Err(e),
            }
        } else {
            match validators_from(f, group_stream(toks[pos + 1]), 0) {
                Ok(v) => attributes_from(f, toks, pos + 2, san, v),
                Err(e) => Err(e),
            }
        }
    } else {
        err(ErrorKind::UnknownOption, token_span(toks[pos]))
    }
}

pub open spec fn meta_result<S, V>(r: Result<RawMeta<S, V>, ParseError>) -> Result<(Seq<S>, Seq<V>), ParseError> {
    match r {
        Ok(m) => Ok((m.sanitizers@, m.validators@)),
        Err(e) => Err(e),
    }
}

/// Reads the top-level `sanitize(...)` / `validate(...)` pairs of an
/// annotation, handing each group's tokens to the family's grammar.
///
/// A `sanitize` or `validate` keyword with no group after it is reported as
/// an "expected group" error located at the keyword (or at the token that
/// stands where the group should be), so that no input makes this function
/// panic.
pub fn parse_nutype_attributes<F: Family>(f: &F, toks: &Vec<Token>) -> (r: Result<RawMeta<F::Sanitizer, F::Validator>, ParseError>)
    ensures
        meta_result(r) == attributes_from(*f, toks@, 0, Seq::empty(), Seq::empty()),
{
    let mut out = RawMeta { sanitizers: Vec::new(), validators: Vec::new() };
    let mut pos: usize = 0;
    while pos < toks.len()
        invariant
            pos <= toks@.len(),
            attributes_from(*f, toks@, 0, Seq::empty(), Seq::empty())
                == attributes_from(*f, toks@, pos as int, out.sanitizers@, out.validators@),
        decreases toks@.len() - pos,
    {
        let ident = try_unwrap_ident(&toks[pos])?;
        let is_sanitize = chars_eq(&ident.text, &['s', 'a', 'n', 'i', 't', 'i', 'z', 'e']);
        let is_validate = chars_eq(&ident.text, &['v', 'a', 'l', 'i', 'd', 'a', 't', 'e']);
        if !is_sanitize && !is_validate {
            return Err(ParseError { kind: ErrorKind::UnknownOption, span: ident.span });
        }
        if pos + 1 >= toks.len() {
            return Err(ParseError { kind: ErrorKind::ExpectedGroup, span: ident.span });
        }
        let stream = try_unwrap_group(&toks[pos + 1])?;
        if is_sanitize {
            out.sanitizers = parse_sanitizers(f, stream)?;
        } else {
            out.validators = parse_validators(f, stream)?;
        }
        pos = pos + 2;
    }
    Ok(out)
}

} // verus!
