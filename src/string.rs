use vstd::prelude::*;
use crate::attrs::{attributes_from, parse_nutype_attributes, Family, RawMeta};
use crate::consistency::{find_class, first_dup_from, first_duplicate, position_of_class};
use crate::custom::{parse_with, path_at, path_end, with_spec, CustomFunction, InputType};
use crate::error::{err, Capability, ErrorKind, ParseError};
use crate::guard::{guard_result, Guard, SpannedItem};
use crate::number::{number_arg_spec, parse_number_arg, NumberKind};
use crate::token::{is_ident, span_join, token_span, token_text, Span, Token};

verus! {

#[derive(Clone, Copy, Debug, PartialEq, Eq, Structural)]
pub enum StringSanitizer {
    Trim,
    Lowercase,
    Uppercase,
    With(CustomFunction),
}

/// Where a pattern comes from: a literal written in place, or a path to a
/// pattern defined elsewhere. The span of the surrounding item locates it.
#[derive(Clone, Copy, Debug, PartialEq, Eq, Structural)]
pub enum RegexDef {
    StringLiteral,
    Path,
}

#[derive(Clone, Copy, Debug, PartialEq, Eq, Structural)]
pub enum StringValidator {
    MinLen(usize),
    MaxLen(usize),
    NotEmpty,
    With(CustomFunction),
    Regex(RegexDef),
}

pub type SpannedStringSanitizer = SpannedItem<StringSanitizer>;

pub type SpannedStringValidator = SpannedItem<StringValidator>;

pub type SpannedRegexDef = SpannedItem<RegexDef>;

pub type StringGuard = Guard<SpannedStringSanitizer, SpannedStringValidator>;

/// The grammar of string types; `regex` says whether pattern matching is
/// available.
#[derive(Clone, Copy, Debug, PartialEq, Eq, Structural)]
pub struct StringFamily {
    pub regex: bool,
}

/// Whether a literal's text is that of a string literal (plain or raw).
pub open spec fn is_str_literal(s: Seq<char>) -> bool {
    s.len() >= 2 && (s[0] == '"' || (s[0] == 'r' && (s[1] == '"' || s[1] == '#')))
}

/// The pattern at `pos`: a string literal, else a path. `prev` locates an
/// error at the end of the input.
pub open spec fn regex_def_spec(toks: Seq<Token>, pos: int, prev: Span) -> Result<
    (SpannedRegexDef, int),
    ParseError,
> {
    if pos >= toks.len() {
        err(ErrorKind::InvalidRegex, prev)
    } else if toks[pos] is Literal && is_str_literal(token_text(toks[pos])) {
        Ok((SpannedItem { item: RegexDef::StringLiteral, span: token_span(toks[pos]) }, pos + 1))
    } else {
        match path_end(toks, pos) {
            Some(end) => Ok(
                (
                    SpannedItem {
                        item: RegexDef::Path,
                        span: span_join(token_span(toks[pos]), token_span(toks[end - 1])),
                    },
                    end,
                ),
            ),
            None => err(ErrorKind::InvalidRegex, token_span(toks[pos])),
        }
    }
}

/// Reads a pattern at `pos`; the literal form is tried first, and a failed
/// try consumes nothing.
pub fn parse_regex_def(toks: &Vec<Token>, pos: usize, prev: Span) -> (r: Result<
    (SpannedRegexDef, usize),
    ParseError,
>)
    ensures
        match (r, regex_def_spec(toks@, pos as int, prev)) {
            (Ok((d, n)), Ok((d2, n2))) => d == d2 && n == n2 && pos < n <= toks@.len(),
            (Err(e), Err(e2)) => e == e2,
            _ => false,
        },
{
    if pos >= toks.len() {
        return Err(ParseError { kind: ErrorKind::InvalidRegex, span: prev });
    }
    if let Token::Literal { text, span } = &toks[pos] {
        if text.len() >= 2 && (text[0] == '"' || (text[0] == 'r' && (text[1] == '"' || text[1]
            == '#'))) {
            return Ok((SpannedItem { item: RegexDef::StringLiteral, span: *span }, pos + 1));
        }
    }
    match path_at(toks, pos) {
        Some(end) => {
            let span = toks[pos].span().join(toks[end - 1].span());
            Ok((SpannedItem { item: RegexDef::Path, span }, end))
        },
        None => Err(ParseError { kind: ErrorKind::InvalidRegex, span: toks[pos].span() }),
    }
}

pub open spec fn kw_trim() -> Seq<char> {
    seq!['t', 'r', 'i', 'm']
}

pub open spec fn kw_lowercase() -> Seq<char> {
    seq!['l', 'o', 'w', 'e', 'r', 'c', 'a', 's', 'e']
}

pub open spec fn kw_uppercase() -> Seq<char> {
    seq!['u', 'p', 'p', 'e', 'r', 'c', 'a', 's', 'e']
}

pub open spec fn kw_with() -> Seq<char> {
    seq!['w', 'i', 't', 'h']
}

pub open spec fn kw_min_len() -> Seq<char> {
    seq!['m', 'i', 'n', '_', 'l', 'e', 'n']
}

pub open spec fn kw_max_len() -> Seq<char> {
    seq!['m', 'a', 'x', '_', 'l', 'e', 'n']
}

pub open spec fn kw_not_empty() -> Seq<char> {
    seq!['n', 'o', 't', '_', 'e', 'm', 'p', 't', 'y']
}

pub open spec fn kw_regex() -> Seq<char> {
    seq!['r', 'e', 'g', 'e', 'x']
}

/// A length bound `= n` after the keyword at `pos`, located at the number.
pub open spec fn len_bound_spec(toks: Seq<Token>, pos: int, max: bool) -> Result<
    (SpannedStringValidator, int),
    ParseError,
> {
    match number_arg_spec(toks, pos, NumberKind::Usize) {
        Err(e) => Err(e),
        Ok((v, span, next)) => Ok(
            (
                SpannedItem {
                    item: if max {
                        StringValidator::MaxLen(v as usize)
                    } else {
                        StringValidator::MinLen(v as usize)
                    },
                    span,
                },
                next,
            ),
        ),
    }
}

fn parse_len_bound(toks: &Vec<Token>, pos: usize, max: bool) -> (r: Result<
    (SpannedStringValidator, usize),
    ParseError,
>)
    requires
        pos < toks@.len(),
    ensures
        match (r, len_bound_spec(toks@, pos as int, max)) {
            (Ok((v, n)), Ok((v2, n2))) => v == v2 && n == n2 && pos < n <= toks@.len(),
            (Err(e), Err(e2)) => e == e2,
            _ => false,
        },
{
    let (v, span, next) = parse_number_arg(toks, pos, NumberKind::Usize)?;
    let n = v as usize;
    let item = if max { StringValidator::MaxLen(n) } else { StringValidator::MinLen(n) };
    Ok((SpannedItem { item, span }, next))
}

impl Family for StringFamily {
    type Sanitizer = SpannedStringSanitizer;

    type Validator = SpannedStringValidator;

    open spec fn sanitizer_spec(&self, toks: Seq<Token>, pos: int) -> Result<
        (SpannedStringSanitizer, int),
        ParseError,
    > {
        let t = toks[pos];
        let span = token_span(t);
        if !(t is Ident) {
            err(ErrorKind::ExpectedIdent, span)
        } else if is_ident(t, kw_trim()) {
            Ok((SpannedItem { item: StringSanitizer::Trim, span }, pos + 1))
        } else if is_ident(t, kw_lowercase()) {
            Ok((SpannedItem { item: StringSanitizer::Lowercase, span }, pos + 1))
        } else if is_ident(t, kw_uppercase()) {
            Ok((SpannedItem { item: StringSanitizer::Uppercase, span }, pos + 1))
        } else if is_ident(t, kw_with()) {
            match with_spec(toks, pos, InputType::OwnedString) {
                Ok((f, next)) => Ok((SpannedItem { item: StringSanitizer::With(f), span: f.span }, next)),
                Err(e) => Err(e),
            }
        } else {
            err(ErrorKind::UnknownSanitizer, span)
        }
    }

    open spec fn validator_spec(&self, toks: Seq<Token>, pos: int) -> Result<
        (SpannedStringValidator, int),
        ParseError,
    > {
        let t = toks[pos];
        let span = token_span(t);
        if !(t is Ident) {
            err(ErrorKind::ExpectedIdent, span)
        } else if is_ident(t, kw_min_len()) {
            len_bound_spec(toks, pos, false)
        } else if is_ident(t, kw_max_len()) {
            len_bound_spec(toks, pos, true)
        } else if is_ident(t, kw_not_empty()) {
            Ok((SpannedItem { item: StringValidator::NotEmpty, span }, pos + 1))
        } else if is_ident(t, kw_with()) {
            match with_spec(toks, pos, InputType::BorrowedStr) {
                Ok((f, next)) => Ok((SpannedItem { item: StringValidator::With(f), span: f.span }, next)),
                Err(e) => Err(e),
            }
        } else if is_ident(t, kw_regex()) {
            if !self.regex {
                err(ErrorKind::MissingCapability(Capability::Regex), span)
            } else if !(pos + 1 < toks.len() && crate::token::is_punct(toks[pos + 1], '=')) {
                err(
                    ErrorKind::ExpectedPunct('='),
                    if pos + 1 < toks.len() { token_span(toks[pos + 1]) } else { span },
                )
            } else {
                match regex_def_spec(toks, pos + 2, token_span(toks[pos + 1])) {
                    Ok((d, next)) => Ok((SpannedItem { item: StringValidator::Regex(d.item), span: d.span }, next)),
                    Err(e) => Err(e),
                }
            }
        } else {
            err(ErrorKind::UnknownValidator, span)
        }
    }

    fn parse_sanitizer(&self, toks: &Vec<Token>, pos: usize) -> (r: Result<
        (SpannedStringSanitizer, usize),
        ParseError,
    >) {
        let len = toks.len();
        let t = &toks[pos];
        let span = t.span();
        if !t.is_any_ident() {
            Err(ParseError { kind: ErrorKind::ExpectedIdent, span })
        } else if t.is_ident(&['t', 'r', 'i', 'm']) {
            Ok((SpannedItem { item: StringSanitizer::Trim, span }, pos + 1))
        } else if t.is_ident(&['l', 'o', 'w', 'e', 'r', 'c', 'a', 's', 'e']) {
            Ok((SpannedItem { item: StringSanitizer::Lowercase, span }, pos + 1))
        } else if t.is_ident(&['u', 'p', 'p', 'e', 'r', 'c', 'a', 's', 'e']) {
            Ok((SpannedItem { item: StringSanitizer::Uppercase, span }, pos + 1))
        } else if t.is_ident(&['w', 'i', 't', 'h']) {
            let (f, next) = parse_with(toks, pos, InputType::OwnedString)?;
            Ok((SpannedItem { item: StringSanitizer::With(f), span: f.span }, next))
        } else {
            Err(ParseError { kind: ErrorKind::UnknownSanitizer, span })
        }
    }

    fn parse_validator(&self, toks: &Vec<Token>, pos: usize) -> (r: Result<
        (SpannedStringValidator, usize),
        ParseError,
    >) {
        let len = toks.len();
        let t = &toks[pos];
        let span = t.span();
        if !t.is_any_ident() {
            Err(ParseError { kind: ErrorKind::ExpectedIdent, span })
        } else if t.is_ident(&['m', 'i', 'n', '_', 'l', 'e', 'n']) {
            parse_len_bound(toks, pos, false)
        } else if t.is_ident(&['m', 'a', 'x', '_', 'l', 'e', 'n']) {
            parse_len_bound(toks, pos, true)
        } else if t.is_ident(&['n', 'o', 't', '_', 'e', 'm', 'p', 't', 'y']) {
            Ok((SpannedItem { item: StringValidator::NotEmpty, span }, pos + 1))
        } else if t.is_ident(&['w', 'i', 't', 'h']) {
            let (f, next) = parse_with(toks, pos, InputType::BorrowedStr)?;
            Ok((SpannedItem { item: StringValidator::With(f), span: f.span }, next))
        } else if t.is_ident(&['r', 'e', 'g', 'e', 'x']) {
            if !self.regex {
                return Err(ParseError { kind: ErrorKind::MissingCapability(Capability::Regex), span });
            }
            if !(len - pos > 1 && toks[pos + 1].is_punct('=')) {
                let at = if len - pos > 1 { toks[pos + 1].span() } else { span };
                return Err(ParseError { kind: ErrorKind::ExpectedPunct('='), span: at });
            }
            let (d, next) = parse_regex_def(toks, pos + 2, toks[pos + 1].span())?;
            Ok((SpannedItem { item: StringValidator::Regex(d.item), span: d.span }, next))
        } else {
            Err(ParseError { kind: ErrorKind::UnknownValidator, span })
        }
    }
}

/// Validators of one class may not appear together.
pub open spec fn string_class(v: StringValidator) -> u8 {
    match v {
        StringValidator::MinLen(_) => 0,
        StringValidator::MaxLen(_) => 1,
        StringValidator::NotEmpty => 2,
        StringValidator::With(_) => 3,
        StringValidator::Regex(_) => 4,
    }
}

pub open spec fn string_classes(vs: Seq<SpannedStringValidator>) -> Seq<u8> {
    vs.map_values(|v: SpannedStringValidator| string_class(v.item))
}

pub open spec fn len_value(v: StringValidator) -> int {
    match v {
        StringValidator::MinLen(n) => n as int,
        StringValidator::MaxLen(n) => n as int,
        _ => 0,
    }
}

/// The semantic check of a string family: the first repeated validator kind
/// fails at its second occurrence; then `min_len` above `max_len` fails at
/// the pair; otherwise both lists pass unchanged.
pub open spec fn check_string_spec(san: Seq<SpannedStringSanitizer>, vs: Seq<SpannedStringValidator>) -> Result<
    (Seq<SpannedStringSanitizer>, Seq<SpannedStringValidator>),
    ParseError,
> {
    let c = string_classes(vs);
    match first_dup_from(c, 0) {
        Some(j) => err(ErrorKind::DuplicateValidator, vs[j].span),
        None => match (find_class(c, 0, 0), find_class(c, 1, 0)) {
            (Some(i), Some(j)) => if len_value(vs[i].item) > len_value(vs[j].item) {
                err(ErrorKind::InvalidRange, span_join(vs[i].span, vs[j].span))
            } else {
                Ok((san, vs))
            },
            _ => Ok((san, vs)),
        },
    }
}

fn class_of(v: &StringValidator) -> (r: u8)
    ensures
        r == string_class(*v),
{
    match v {
        StringValidator::MinLen(_) => 0,
        StringValidator::MaxLen(_) => 1,
        StringValidator::NotEmpty => 2,
        StringValidator::With(_) => 3,
        StringValidator::Regex(_) => 4,
    }
}

fn bound_of(v: &StringValidator) -> (r: usize)
    ensures
        r as int == len_value(*v),
{
    match v {
        StringValidator::MinLen(n) => *n,
        StringValidator::MaxLen(n) => *n,
        _ => 0,
    }
}

/// Checks the raw string items against each other and seals them in a guard.
pub fn validate_string_meta(raw: RawMeta<SpannedStringSanitizer, SpannedStringValidator>) -> (r: Result<
    StringGuard,
    ParseError,
>)
    ensures
        guard_result(r) == check_string_spec(raw.sanitizers@, raw.validators@),
{
    let vs = &raw.validators;
    let mut classes: Vec<u8> = Vec::new();
    let mut i: usize = 0;
    while i < vs.len()
        invariant
            i <= vs@.len(),
            classes@.len() == i,
            forall|k: int| 0 <= k < i ==> classes@[k] == string_class(#[trigger] vs@[k].item),
        decreases vs@.len() - i,
    {
        classes.push(class_of(&vs[i].item));
        i = i + 1;
    }
    assert(classes@ =~= string_classes(vs@));
    if let Some(j) = first_duplicate(&classes) {
        return Err(ParseError { kind: ErrorKind::DuplicateValidator, span: vs[j].span });
    }
    let lower = position_of_class(&classes, 0);
    let upper = position_of_class(&classes, 1);
    if let (Some(a), Some(b)) = (lower, upper) {
        if bound_of(&vs[a].item) > bound_of(&vs[b].item) {
            return Err(ParseError { kind: ErrorKind::InvalidRange, span: vs[a].span.join(vs[b].span) });
        }
    }
    let RawMeta { sanitizers, validators } = raw;
    Ok(Guard::new(sanitizers, validators))
}

/// What reading and checking a string annotation yields.
pub open spec fn string_attributes_spec(toks: Seq<Token>, regex: bool) -> Result<
    (Seq<SpannedStringSanitizer>, Seq<SpannedStringValidator>),
    ParseError,
> {
    match attributes_from(StringFamily { regex }, toks, 0, Seq::empty(), Seq::empty()) {
        Ok((s, v)) => check_string_spec(s, v),
        Err(e) => Err(e),
    }
}

/// Reads the annotation of a string type and checks it; `regex` says whether
/// pattern matching is available.
pub fn parse_attributes(toks: &Vec<Token>, regex: bool) -> (r: Result<StringGuard, ParseError>)
    ensures
        guard_result(r) == string_attributes_spec(toks@, regex),
{
    let raw = parse_nutype_attributes(&StringFamily { regex }, toks)?;
    validate_string_meta(raw)
}

} // verus!
