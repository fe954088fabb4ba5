use vstd::prelude::*;
use crate::attrs::{attributes_from, parse_nutype_attributes, Family, RawMeta};
use crate::consistency::{find_class, first_dup_from, first_duplicate, position_of_class};
use crate::custom::{parse_with, with_spec, CustomFunction, InputType};
use crate::error::{err, ErrorKind, ParseError};
use crate::guard::{guard_result, Guard, SpannedItem};
use crate::number::{number_arg_spec, parse_number_arg, NumberKind};
use crate::string::kw_with;
use crate::token::{is_ident, span_join, token_span, Token};

verus! {

#[derive(Clone, Copy, Debug, PartialEq, Eq, Structural)]
pub enum IntegerSanitizer {
    With(CustomFunction),
}

#[derive(Clone, Copy, Debug, PartialEq, Eq, Structural)]
pub enum IntegerValidator {
    GreaterThan(i128),
    GreaterOrEqual(i128),
    LessThan(i128),
    LessOrEqual(i128),
    Predicate(CustomFunction),
}

pub type SpannedIntegerSanitizer = SpannedItem<IntegerSanitizer>;

pub type SpannedIntegerValidator = SpannedItem<IntegerValidator>;

pub type IntegerGuard = Guard<SpannedIntegerSanitizer, SpannedIntegerValidator>;

/// The grammar of integer types whose inner type is `kind`.
#[derive(Clone, Copy, Debug, PartialEq, Eq, Structural)]
pub struct IntegerFamily {
    pub kind: NumberKind,
}

pub open spec fn kw_greater() -> Seq<char> {
    seq!['g', 'r', 'e', 'a', 't', 'e', 'r']
}

pub open spec fn kw_greater_or_equal() -> Seq<char> {
    seq!['g', 'r', 'e', 'a', 't', 'e', 'r', '_', 'o', 'r', '_', 'e', 'q', 'u', 'a', 'l']
}

pub open spec fn kw_less() -> Seq<char> {
    seq!['l', 'e', 's', 's']
}

pub open spec fn kw_less_or_equal() -> Seq<char> {
    seq!['l', 'e', 's', 's', '_', 'o', 'r', '_', 'e', 'q', 'u', 'a', 'l']
}

/// Which bound the keyword names: 0 `greater`, 1 `greater_or_equal`,
/// 2 `less`, 3 `less_or_equal`.
pub open spec fn make_bound(which: u8, v: i128) -> IntegerValidator {
    if which == 0 {
        IntegerValidator::GreaterThan(v)
    } else if which == 1 {
        IntegerValidator::GreaterOrEqual(v)
    } else if which == 2 {
        IntegerValidator::LessThan(v)
    } else {
        IntegerValidator::LessOrEqual(v)
    }
}

/// A bound `= n` after the keyword at `pos`, located at the number.
pub open spec fn bound_spec(toks: Seq<Token>, pos: int, k: NumberKind, which: u8) -> Result<
    (SpannedIntegerValidator, int),
    ParseError,
> {
    match number_arg_spec(toks, pos, k) {
        Err(e) => Err(e),
        Ok((v, span, next)) => Ok(
            (
                SpannedItem {
                    item: make_bound(which, v as i128),
                    span,
                },
                next,
            ),
        ),
    }
}

fn parse_bound(toks: &Vec<Token>, pos: usize, k: NumberKind, which: u8) -> (r: Result<
    (SpannedIntegerValidator, usize),
    ParseError,
>)
    requires
        pos < toks@.len(),
    ensures
        match (r, bound_spec(toks@, pos as int, k, which)) {
            (Ok((v, n)), Ok((v2, n2))) => v == v2 && n == n2 && pos < n <= toks@.len(),
            (Err(e), Err(e2)) => e == e2,
            _ => false,
        },
{
    let (v, span, next) = parse_number_arg(toks, pos, k)?;
    let item = if which == 0 {
        IntegerValidator::GreaterThan(v)
    } else if which == 1 {
        IntegerValidator::GreaterOrEqual(v)
    } else if which == 2 {
        IntegerValidator::LessThan(v)
    } else {
        IntegerValidator::LessOrEqual(v)
    };
    Ok((SpannedItem { item, span }, next))
}

impl Family for IntegerFamily {
    type Sanitizer = SpannedIntegerSanitizer;

    type Validator = SpannedIntegerValidator;

    open spec fn sanitizer_spec(&self, toks: Seq<Token>, pos: int) -> Result<
        (SpannedIntegerSanitizer, int),
        ParseError,
    > {
        let t = toks[pos];
        let span = token_span(t);
        if !(t is Ident) {
            err(ErrorKind::ExpectedIdent, span)
        } else if is_ident(t, kw_with()) {
            match with_spec(toks, pos, InputType::OwnedInt(self.kind)) {
                Ok((f, next)) => Ok((SpannedItem { item: IntegerSanitizer::With(f), span: f.span }, next)),
                Err(e) => Err(e),
            }
        } else {
            err(ErrorKind::UnknownSanitizer, span)
        }
    }

    open spec fn validator_spec(&self, toks: Seq<Token>, pos: int) -> Result<
        (SpannedIntegerValidator, int),
        ParseError,
    > {
        let t = toks[pos];
        let span = token_span(t);
        if !(t is Ident) {
            err(ErrorKind::ExpectedIdent, span)
        } else if is_ident(t, kw_greater()) {
            bound_spec(toks, pos, self.kind, 0)
        } else if is_ident(t, kw_greater_or_equal()) {
            bound_spec(toks, pos, self.kind, 1)
        } else if is_ident(t, kw_less()) {
            bound_spec(toks, pos, self.kind, 2)
        } else if is_ident(t, kw_less_or_equal()) {
            bound_spec(toks, pos, self.kind, 3)
        } else if is_ident(t, kw_with()) {
            match with_spec(toks, pos, InputType::BorrowedInt(self.kind)) {
                Ok((f, next)) => Ok((SpannedItem { item: IntegerValidator::Predicate(f), span: f.span }, next)),
                Err(e) => Err(e),
            }
        } else {
            err(ErrorKind::UnknownValidator, span)
        }
    }

    fn parse_sanitizer(&self, toks: &Vec<Token>, pos: usize) -> (r: Result<
        (SpannedIntegerSanitizer, usize),
        ParseError,
    >) {
        let t = &toks[pos];
        let span = t.span();
        if !t.is_any_ident() {
            Err(ParseError { kind: ErrorKind::ExpectedIdent, span })
        } else if t.is_ident(&['w', 'i', 't', 'h']) {
            let (f, next) = parse_with(toks, pos, InputType::OwnedInt(self.kind))?;
            Ok((SpannedItem { item: IntegerSanitizer::With(f), span: f.span }, next))
        } else {
            Err(ParseError { kind: ErrorKind::UnknownSanitizer, span })
        }
    }

    fn parse_validator(&self, toks: &Vec<Token>, pos: usize) -> (r: Result<
        (SpannedIntegerValidator, usize),
        ParseError,
    >) {
        let t = &toks[pos];
        let span = t.span();
        if !t.is_any_ident() {
            Err(ParseError { kind: ErrorKind::ExpectedIdent, span })
        } else if t.is_ident(&['g', 'r', 'e', 'a', 't', 'e', 'r']) {
            parse_bound(toks, pos, self.kind, 0)
        } else if t.is_ident(
            &['g', 'r', 'e', 'a', 't', 'e', 'r', '_', 'o', 'r', '_', 'e', 'q', 'u', 'a', 'l'],
        ) {
            parse_bound(toks, pos, self.kind, 1)
        } else if t.is_ident(&['l', 'e', 's', 's']) {
            parse_bound(toks, pos, self.kind, 2)
        } else if t.is_ident(&['l', 'e', 's', 's', '_', 'o', 'r', '_', 'e', 'q', 'u', 'a', 'l']) {
            parse_bound(toks, pos, self.kind, 3)
        } else if t.is_ident(&['w', 'i', 't', 'h']) {
            let (f, next) = parse_with(toks, pos, InputType::BorrowedInt(self.kind))?;
            Ok((SpannedItem { item: IntegerValidator::Predicate(f), span: f.span }, next))
        } else {
            Err(ParseError { kind: ErrorKind::UnknownValidator, span })
        }
    }
}

/// The strict and the inclusive form of one direction share a class, so
/// declaring both counts as a repeat.
pub open spec fn integer_class(v: IntegerValidator) -> u8 {
    match v {
        IntegerValidator::GreaterThan(_) | IntegerValidator::GreaterOrEqual(_) => 0,
        IntegerValidator::LessThan(_) | IntegerValidator::LessOrEqual(_) => 1,
        IntegerValidator::Predicate(_) => 2,
    }
}

pub open spec fn integer_classes(vs: Seq<SpannedIntegerValidator>) -> Seq<u8> {
    vs.map_values(|v: SpannedIntegerValidator| integer_class(v.item))
}

/// The least admitted value of a lower bound: a strict bound admits the next integer.
pub open spec fn lowest(v: IntegerValidator) -> int {
    match v {
        IntegerValidator::GreaterThan(n) => n + 1,
        IntegerValidator::GreaterOrEqual(n) => n as int,
        _ => 0,
    }
}

/// The greatest admitted value of an upper bound: a strict bound admits the one before.
pub open spec fn highest(v: IntegerValidator) -> int {
    match v {
        IntegerValidator::LessThan(n) => n - 1,
        IntegerValidator::LessOrEqual(n) => n as int,
        _ => 0,
    }
}

/// The semantic check of an integer family: the first repeated bound
/// direction or predicate fails at its second occurrence; then a lower and an
/// upper bound that admit no integer fail at the pair; otherwise both lists
/// pass unchanged. Predicates take no part in the range check.
pub open spec fn check_integer_spec(san: Seq<SpannedIntegerSanitizer>, vs: Seq<SpannedIntegerValidator>) -> Result<
    (Seq<SpannedIntegerSanitizer>, Seq<SpannedIntegerValidator>),
    ParseError,
> {
    let c = integer_classes(vs);
    match first_dup_from(c, 0) {
        Some(j) => err(ErrorKind::DuplicateValidator, vs[j].span),
        None => match (find_class(c, 0, 0), find_class(c, 1, 0)) {
            (Some(i), Some(j)) => if lowest(vs[i].item) > highest(vs[j].item) {
                err(ErrorKind::InvalidRange, span_join(vs[i].span, vs[j].span))
            } else {
                Ok((san, vs))
            },
            _ => Ok((san, vs)),
        },
    }
}

fn integer_class_of(v: &IntegerValidator) -> (r: u8)
    ensures
        r == integer_class(*v),
{
    match v {
        IntegerValidator::GreaterThan(_) | IntegerValidator::GreaterOrEqual(_) => 0,
        IntegerValidator::LessThan(_) | IntegerValidator::LessOrEqual(_) => 1,
        IntegerValidator::Predicate(_) => 2,
    }
}

/// Whether the lower bound `lo` and the upper bound `hi` admit no integer.
fn empty_interval(lo: &IntegerValidator, hi: &IntegerValidator) -> (r: bool)
    ensures
        r == (lowest(*lo) > highest(*hi)),
{
    let (a, strict_lo) = match lo {
        IntegerValidator::GreaterThan(n) => (*n, true),
        IntegerValidator::GreaterOrEqual(n) => (*n, false),
        _ => (0, false),
    };
    let (b, strict_hi) = match hi {
        IntegerValidator::LessThan(n) => (*n, true),
        IntegerValidator::LessOrEqual(n) => (*n, false),
        _ => (0, false),
    };
    let lo_is_bound = match lo {
        IntegerValidator::GreaterThan(_) | IntegerValidator::GreaterOrEqual(_) => true,
        _ => false,
    };
    let hi_is_bound = match hi {
        IntegerValidator::LessThan(_) | IntegerValidator::LessOrEqual(_) => true,
        _ => false,
    };
    let slack: i128 = if strict_lo && lo_is_bound { 1 } else { 0 };
    let slack2: i128 = if strict_hi && hi_is_bound { 1 } else { 0 };
    // a + slack > b - slack2, rearranged so that nothing overflows
    if a >= b {
        a > b || slack + slack2 > 0
    } else {
        slack + slack2 == 2 && a + 1 == b
    }
}

/// Checks the raw integer items against each other and seals them in a guard.
pub fn validate_integer_meta(raw: RawMeta<SpannedIntegerSanitizer, SpannedIntegerValidator>) -> (r: Result<
    IntegerGuard,
    ParseError,
>)
    ensures
        guard_result(r) == check_integer_spec(raw.sanitizers@, raw.validators@),
{
    let vs = &raw.validators;
    let mut classes: Vec<u8> = Vec::new();
    let mut i: usize = 0;
    while i < vs.len()
        invariant
            i <= vs@.len(),
            classes@.len() == i,
            forall|k: int| 0 <= k < i ==> classes@[k] == integer_class(#[trigger] vs@[k].item),
        decreases vs@.len() - i,
    {
        classes.push(integer_class_of(&vs[i].item));
        i = i + 1;
    }
    assert(classes@ =~= integer_classes(vs@));
    if let Some(j) = first_duplicate(&classes) {
        return Err(ParseError { kind: ErrorKind::DuplicateValidator, span: vs[j].span });
    }
    let lower = position_of_class(&classes, 0);
    let upper = position_of_class(&classes, 1);
    if let (Some(a), Some(b)) = (lower, upper) {
        if empty_interval(&vs[a].item, &vs[b].item) {
            return Err(ParseError { kind: ErrorKind::InvalidRange, span: vs[a].span.join(vs[b].span) });
        }
    }
    let RawMeta { sanitizers, validators } = raw;
    Ok(Guard::new(sanitizers, validators))
}

/// What reading and checking an integer annotation yields.
pub open spec fn integer_attributes_spec(toks: Seq<Token>, kind: NumberKind) -> Result<
    (Seq<SpannedIntegerSanitizer>, Seq<SpannedIntegerValidator>),
    ParseError,
> {
    match attributes_from(IntegerFamily { kind }, toks, 0, Seq::empty(), Seq::empty()) {
        Ok((s, v)) => check_integer_spec(s, v),
        Err(e) => Err(e),
    }
}

/// Reads the annotation of an integer type with inner type `kind` and checks it.
pub fn parse_integer_attributes(toks: &Vec<Token>, kind: NumberKind) -> (r: Result<
    IntegerGuard,
    ParseError,
>)
    ensures
        guard_result(r) == integer_attributes_spec(toks@, kind),
{
    let raw = parse_nutype_attributes(&IntegerFamily { kind }, toks)?;
    validate_integer_meta(raw)
}

} // verus!
