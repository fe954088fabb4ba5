use vstd::prelude::*;
use crate::error::{err, ErrorKind, ParseError};
use crate::token::{is_punct, span_join, token_span, token_text, Span, Token};

verus! {

/// The integer types a numeric argument can be read as.
#[derive(Clone, Copy, Debug, PartialEq, Eq, Structural)]
pub enum NumberKind {
    U8,
    U16,
    U32,
    U64,
    Usize,
    I8,
    I16,
    I32,
    I64,
    Isize,
}

impl NumberKind {
    pub open spec fn signed(self) -> bool {
        match self {
            NumberKind::I8 | NumberKind::I16 | NumberKind::I32 | NumberKind::I64
            | NumberKind::Isize => true,
            _ => false,
        }
    }

    pub open spec fn min(self) -> int {
        match self {
            NumberKind::I8 => i8::MIN as int,
            NumberKind::I16 => i16::MIN as int,
            NumberKind::I32 => i32::MIN as int,
            NumberKind::I64 => i64::MIN as int,
            NumberKind::Isize => isize::MIN as int,
            _ => 0,
        }
    }

    pub open spec fn max(self) -> int {
        match self {
            NumberKind::U8 => u8::MAX as int,
            NumberKind::U16 => u16::MAX as int,
            NumberKind::U32 => u32::MAX as int,
            NumberKind::U64 => u64::MAX as int,
            NumberKind::Usize => usize::MAX as int,
            NumberKind::I8 => i8::MAX as int,
            NumberKind::I16 => i16::MAX as int,
            NumberKind::I32 => i32::MAX as int,
            NumberKind::I64 => i64::MAX as int,
            NumberKind::Isize => isize::MAX as int,
        }
    }

    pub fn is_signed(&self) -> (r: bool)
        ensures
            r == self.signed(),
    {
        match self {
            NumberKind::I8 | NumberKind::I16 | NumberKind::I32 | NumberKind::I64
            | NumberKind::Isize => true,
            _ => false,
        }
    }

    pub fn bounds(&self) -> (r: (i128, i128))
        ensures
            r.0 as int == self.min(),
            r.1 as int == self.max(),
    {
        match self {
            NumberKind::U8 => (0, u8::MAX as i128),
            NumberKind::U16 => (0, u16::MAX as i128),
            NumberKind::U32 => (0, u32::MAX as i128),
            NumberKind::U64 => (0, u64::MAX as i128),
            NumberKind::Usize => (0, usize::MAX as i128),
            NumberKind::I8 => (i8::MIN as i128, i8::MAX as i128),
            NumberKind::I16 => (i16::MIN as i128, i16::MAX as i128),
            NumberKind::I32 => (i32::MIN as i128, i32::MAX as i128),
            NumberKind::I64 => (i64::MIN as i128, i64::MAX as i128),
            NumberKind::Isize => (isize::MIN as i128, isize::MAX as i128),
        }
    }
}

pub open spec fn is_digit(c: char) -> bool {
    '0' <= c && c <= '9'
}

pub open spec fn all_digits(s: Seq<char>) -> bool {
    forall|i: int| 0 <= i < s.len() ==> is_digit(#[trigger] s[i])
}

/// The value of a run of decimal digits.
pub open spec fn digits_value(s: Seq<char>) -> int
    decreases s.len(),
{
    if s.len() == 0 {
        0
    } else {
        10 * digits_value(s.drop_last()) + (s.last() as int - '0' as int)
    }
}

/// `s` with every underscore removed.
pub open spec fn without_underscores(s: Seq<char>) -> Seq<char>
    decreases s.len(),
{
    if s.len() == 0 {
        s
    } else if s.last() == '_' {
        without_underscores(s.drop_last())
    } else {
        without_underscores(s.drop_last()).push(s.last())
    }
}

/// The value of a non-empty digit run.
pub open spec fn magnitude(d: Seq<char>) -> Option<int> {
    if d.len() > 0 && all_digits(d) {
        Some(digits_value(d))
    } else {
        None
    }
}

pub open spec fn within(v: Option<int>, k: NumberKind) -> Option<int> {
    match v {
        Some(x) => if k.min() <= x <= k.max() { Some(x) } else { None },
        None => None,
    }
}

/// The integer that the text denotes in the given kind: an optional `+`
/// (or `-` for a signed kind) followed by at least one digit, in range.
pub open spec fn parse_int(s: Seq<char>, k: NumberKind) -> Option<int> {
    if s.len() > 0 && s[0] == '-' && k.signed() {
        match magnitude(s.drop_first()) {
            Some(m) => within(Some(-m), k),
            None => None,
        }
    } else if s.len() > 0 && s[0] == '+' {
        within(magnitude(s.drop_first()), k)
    } else {
        within(magnitude(s), k)
    }
}

/// What reading a possibly negative number at `pos` yields: its text, the
/// span of sign and literal, and the position after it. `prev` locates an
/// error at the end of the input.
pub open spec fn read_number_spec(toks: Seq<Token>, pos: int, prev: Span) -> Result<
    (Seq<char>, Span, int),
    ParseError,
> {
    if pos >= toks.len() {
        err(ErrorKind::ExpectedNumber, prev)
    } else if is_punct(toks[pos], '-') {
        if pos + 1 >= toks.len() {
            err(ErrorKind::ExpectedNumber, token_span(toks[pos]))
        } else {
            Ok(
                (
                    seq!['-'] + token_text(toks[pos + 1]),
                    span_join(token_span(toks[pos]), token_span(toks[pos + 1])),
                    pos + 2,
                ),
            )
        }
    } else {
        Ok((token_text(toks[pos]), token_span(toks[pos]), pos + 1))
    }
}

/// The number after the `=` at `pos`, read as the given kind, the span of
/// its sign and literal, and the position after it.
pub open spec fn spanned_number_spec(toks: Seq<Token>, pos: int, k: NumberKind) -> Result<
    (int, Span, int),
    ParseError,
> {
    match read_number_spec(toks, pos + 1, token_span(toks[pos])) {
        Err(e) => Err(e),
        Ok((text, span, next)) => match parse_int(without_underscores(text), k) {
            Some(v) => Ok((v, span, next)),
            None => err(ErrorKind::NumberMismatch(k), span),
        },
    }
}

/// The number after the `=` at `pos`, read as the given kind, and the
/// position after it.
pub open spec fn number_spec(toks: Seq<Token>, pos: int, k: NumberKind) -> Result<
    (int, int),
    ParseError,
> {
    match spanned_number_spec(toks, pos, k) {
        Err(e) => Err(e),
        Ok((v, _, next)) => Ok((v, next)),
    }
}

/// Reads an optionally negative number starting at `pos`.
pub fn read_number(toks: &Vec<Token>, pos: usize, prev: Span) -> (r: Result<
    (Vec<char>, Span, usize),
    ParseError,
>)
    ensures
        match (r, read_number_spec(toks@, pos as int, prev)) {
            (Ok((t, s, n)), Ok((t2, s2, n2))) => t@ == t2 && s == s2 && n == n2,
            (Err(e), Err(e2)) => e == e2,
            _ => false,
        },
{
    if pos >= toks.len() {
        return Err(ParseError { kind: ErrorKind::ExpectedNumber, span: prev });
    }
    let first = &toks[pos];
    if first.is_punct('-') {
        if pos + 1 >= toks.len() {
            return Err(ParseError { kind: ErrorKind::ExpectedNumber, span: first.span() });
        }
        let lit = &toks[pos + 1];
        let mut out: Vec<char> = Vec::new();
        out.push('-');
        let mut rest = lit.text();
        out.append(&mut rest);
        assert(out@ =~= seq!['-'] + token_text(toks@[pos + 1]));
        Ok((out, first.span().join(lit.span()), pos + 2))
    } else {
        Ok((first.text(), first.span(), pos + 1))
    }
}

/// Removes the digit separators from a numeric text.
pub fn sanitize_number(val: &Vec<char>) -> (r: Vec<char>)
    ensures
        r@ == without_underscores(val@),
{
    let mut r: Vec<char> = Vec::new();
    let mut i: usize = 0;
    while i < val.len()
        invariant
            i <= val@.len(),
            r@ == without_underscores(val@.subrange(0, i as int)),
        decreases val@.len() - i,
    {
        let ghost before = val@.subrange(0, i as int);
        assert(val@.subrange(0, i + 1).drop_last() =~= before);
        if val[i] != '_' {
            r.push(val[i]);
        }
        i = i + 1;
    }
    assert(val@.subrange(0, val@.len() as int) =~= val@);
    r
}

/// The largest magnitude worth tracking: beyond it no kind has a value.
const MAGNITUDE_LIMIT: u128 = 18446744073709551616;

/// The value of the digits `s[start..]`, if they are all digits, there is at
/// least one, and the value does not exceed `MAGNITUDE_LIMIT`.
fn read_magnitude(s: &Vec<char>, start: usize) -> (r: Option<u128>)
    requires
        start <= s@.len(),
    ensures
        match r {
            Some(v) => magnitude(s@.subrange(start as int, s@.len() as int)) == Some(v as int)
                && v <= MAGNITUDE_LIMIT,
            None => match magnitude(s@.subrange(start as int, s@.len() as int)) {
                Some(m) => m > MAGNITUDE_LIMIT,
                None => true,
            },
        },
{
    if start >= s.len() {
        return None;
    }
    let mut acc: u128 = 0;
    let mut big = false;
    let mut i: usize = start;
    while i < s.len()
        invariant
            start <= i <= s@.len(),
            all_digits(s@.subrange(start as int, i as int)),
            !big ==> acc as int == digits_value(s@.subrange(start as int, i as int)),
            !big ==> acc <= MAGNITUDE_LIMIT,
            big ==> digits_value(s@.subrange(start as int, i as int)) > MAGNITUDE_LIMIT,
        decreases s@.len() - i,
    {
        let c = s[i];
        let ghost prefix = s@.subrange(start as int, i as int);
        let ghost next = s@.subrange(start as int, i + 1);
        assert(next.drop_last() =~= prefix);
        assert(next.last() == c);
        if !('0' <= c && c <= '9') {
            assert(!all_digits(s@.subrange(start as int, s@.len() as int))) by {
                assert(s@.subrange(start as int, s@.len() as int)[i - start] == c);
            }
            return None;
        }
        let d = (c as u32 - '0' as u32) as u128;
        if !big {
            if acc > MAGNITUDE_LIMIT / 10 {
                big = true;
            } else {
                acc = acc * 10 + d;
                if acc > MAGNITUDE_LIMIT {
                    big = true;
                }
            }
        }
        i = i + 1;
        assert(all_digits(s@.subrange(start as int, i as int))) by {
            assert forall|j: int| 0 <= j < next.len() implies is_digit(#[trigger] next[j]) by {
                if j < prefix.len() {
                    assert(next[j] == prefix[j]);
                }
            }
        }
    }
    if big {
        None
    } else {
        Some(acc)
    }
}

/// Reads a numeric text (sign, digits, no separators) as the given kind.
pub fn parse_int_text(s: &Vec<char>, k: NumberKind) -> (r: Option<i128>)
    ensures
        match r {
            Some(v) => parse_int(s@, k) == Some(v as int),
            None => parse_int(s@, k) is None,
        },
{
    let (lo, hi) = k.bounds();
    let negative = s.len() > 0 && s[0] == '-' && k.is_signed();
    let start: usize = if negative || (s.len() > 0 && s[0] == '+') { 1 } else { 0 };
    assert(start == 1 ==> s@.subrange(1, s@.len() as int) =~= s@.drop_first());
    assert(s@.subrange(0, s@.len() as int) =~= s@);
    match read_magnitude(s, start) {
        None => None,
        Some(m) => {
            let v: i128 = if negative { -(m as i128) } else { m as i128 };
            if lo <= v && v <= hi {
                Some(v)
            } else {
                None
            }
        },
    }
}

/// Reads `= <number>` at `pos` as `parse_value_as_number` does, and also
/// returns the span of the sign and literal.
pub fn parse_spanned_number(toks: &Vec<Token>, pos: usize, k: NumberKind) -> (r: Result<
    (i128, Span, usize),
    ParseError,
>)
    requires
        pos < toks@.len(),
        is_punct(toks@[pos as int], '='),
    ensures
        match (r, spanned_number_spec(toks@, pos as int, k)) {
            (Ok((v, s, n)), Ok((v2, s2, n2))) => v == v2 && s == s2 && n == n2
                && pos + 1 < n <= toks@.len() && k.min() <= v <= k.max(),
            (Err(e), Err(e2)) => e == e2,
            _ => false,
        },
{
    let len = toks.len();
    assert(pos < len);
    let (num_str, span, next) = read_number(toks, pos + 1, toks[pos].span())?;
    let cleaned = sanitize_number(&num_str);
    match parse_int_text(&cleaned, k) {
        Some(v) => Ok((v, span, next)),
        None => Err(ParseError { kind: ErrorKind::NumberMismatch(k), span }),
    }
}

/// Reads `= <number>` at `pos`: an optional `-`, then a literal whose digit
/// separators are dropped, as a number of kind `k`. Returns the value and the
/// position after the literal.
pub fn parse_value_as_number(toks: &Vec<Token>, pos: usize, k: NumberKind) -> (r: Result<
    (i128, usize),
    ParseError,
>)
    requires
        pos < toks@.len(),
        is_punct(toks@[pos as int], '='),
    ensures
        match (r, number_spec(toks@, pos as int, k)) {
            (Ok((v, n)), Ok((v2, n2))) => v == v2 && n == n2 && pos + 1 < n <= toks@.len(),
            (Err(e), Err(e2)) => e == e2,
            _ => false,
        },
{
    let (v, _, next) = parse_spanned_number(toks, pos, k)?;
    Ok((v, next))
}

/// `= <number>` after the keyword at `pos`: the value read as `k`, the span
/// of its sign and literal, and the position after it.
pub open spec fn number_arg_spec(toks: Seq<Token>, pos: int, k: NumberKind) -> Result<
    (int, Span, int),
    ParseError,
> {
    if !(pos + 1 < toks.len() && is_punct(toks[pos + 1], '=')) {
        err(
            ErrorKind::ExpectedPunct('='),
            if pos + 1 < toks.len() { token_span(toks[pos + 1]) } else { token_span(toks[pos]) },
        )
    } else {
        spanned_number_spec(toks, pos + 1, k)
    }
}

/// Reads `= <number>` after the keyword at `pos`.
pub fn parse_number_arg(toks: &Vec<Token>, pos: usize, k: NumberKind) -> (r: Result<
    (i128, Span, usize),
    ParseError,
>)
    requires
        pos < toks@.len(),
    ensures
        match (r, number_arg_spec(toks@, pos as int, k)) {
            (Ok((v, s, n)), Ok((v2, s2, n2))) => v == v2 && s == s2 && n == n2 && pos < n <= toks@.len()
                && k.min() <= v <= k.max(),
            (Err(e), Err(e2)) => e == e2,
            _ => false,
        },
{
    let len = toks.len();
    if !(len - pos > 1 && toks[pos + 1].is_punct('=')) {
        let span = if len - pos > 1 { toks[pos + 1].span() } else { toks[pos].span() };
        return Err(ParseError { kind: ErrorKind::ExpectedPunct('='), span });
    }
    parse_spanned_number(toks, pos + 1, k)
}

} // verus!
