use vstd::prelude::*;
use crate::error::{err, ErrorKind, ParseError};
use crate::number::NumberKind;
use crate::token::{chars_eq, is_ident, is_punct, span_join, token_span, Span, Token};

verus! {

/// The type a custom function must accept.
#[derive(Clone, Copy, Debug, PartialEq, Eq, Structural)]
pub enum InputType {
    /// An owned `String`.
    OwnedString,
    /// A borrowed `&str`.
    BorrowedStr,
    /// An owned integer of the given kind.
    OwnedInt(NumberKind),
    /// A borrowed integer of the given kind.
    BorrowedInt(NumberKind),
}

pub open spec fn kind_name(k: NumberKind) -> Seq<char> {
    match k {
        NumberKind::U8 => seq!['u', '8'],
        NumberKind::U16 => seq!['u', '1', '6'],
        NumberKind::U32 => seq!['u', '3', '2'],
        NumberKind::U64 => seq!['u', '6', '4'],
        NumberKind::Usize => seq!['u', 's', 'i', 'z', 'e'],
        NumberKind::I8 => seq!['i', '8'],
        NumberKind::I16 => seq!['i', '1', '6'],
        NumberKind::I32 => seq!['i', '3', '2'],
        NumberKind::I64 => seq!['i', '6', '4'],
        NumberKind::Isize => seq!['i', 's', 'i', 'z', 'e'],
    }
}

/// The name of the type, without the `&` of a borrow.
pub open spec fn base_name(t: InputType) -> Seq<char> {
    match t {
        InputType::OwnedString => seq!['S', 't', 'r', 'i', 'n', 'g'],
        InputType::BorrowedStr => seq!['s', 't', 'r'],
        InputType::OwnedInt(k) => kind_name(k),
        InputType::BorrowedInt(k) => kind_name(k),
    }
}

pub open spec fn borrowed(t: InputType) -> bool {
    t is BorrowedStr || t is BorrowedInt
}

/// Whether the tokens `toks[a..b]` spell the type `t`.
pub open spec fn spells_type(toks: Seq<Token>, a: int, b: int, t: InputType) -> bool {
    if borrowed(t) {
        b == a + 2 && is_punct(toks[a], '&') && is_ident(toks[a + 1], base_name(t))
    } else {
        b == a + 1 && is_ident(toks[a], base_name(t))
    }
}

/// The first position at or after `from` that holds the punctuation `c`,
/// or the length of `toks` if there is none.
pub open spec fn find_punct(toks: Seq<Token>, from: int, c: char) -> int
    decreases toks.len() - from,
{
    if from >= toks.len() {
        toks.len() as int
    } else if is_punct(toks[from], c) {
        from
    } else {
        find_punct(toks, from + 1, c)
    }
}

/// The end of the `::ident` segments that follow an identifier ending before `i`.
pub open spec fn path_tail_end(toks: Seq<Token>, i: int) -> int
    decreases toks.len() - i,
{
    if 0 <= i && i + 2 < toks.len() && is_punct(toks[i], ':') && is_punct(toks[i + 1], ':')
        && toks[i + 2] is Ident {
        path_tail_end(toks, i + 3)
    } else {
        i
    }
}

/// The end of a path `[::]ident(::ident)*` starting at `pos`, if one starts there.
pub open spec fn path_end(toks: Seq<Token>, pos: int) -> Option<int> {
    let s = if pos + 1 < toks.len() && is_punct(toks[pos], ':') && is_punct(toks[pos + 1], ':') {
        pos + 2
    } else {
        pos
    };
    if 0 <= s < toks.len() && toks[s] is Ident {
        Some(path_tail_end(toks, s + 1))
    } else {
        None
    }
}

#[derive(Clone, Copy, Debug, PartialEq, Eq, Structural)]
pub enum FunctionForm {
    /// A path naming a function.
    Path,
    /// A closure of one argument.
    Closure,
}

/// A reference to a user function: its form, the span of its tokens and the
/// type it is bound to accept.
#[derive(Clone, Copy, Debug, PartialEq, Eq, Structural)]
pub struct CustomFunction {
    pub form: FunctionForm,
    pub span: Span,
    pub input: InputType,
}

/// The custom function that starts at `pos`, bound to accept `input`, and the
/// position after it; `prev` locates an error at the end of the input.
///
/// A closure `|x| body` or `|x: T| body` runs up to the next `,` or the end;
/// its argument type, when written, must spell `input`.
pub open spec fn custom_function_spec(toks: Seq<Token>, pos: int, input: InputType, prev: Span) -> Result<
    (CustomFunction, int),
    ParseError,
> {
    if pos >= toks.len() {
        err(ErrorKind::InvalidFunction, prev)
    } else if is_punct(toks[pos], '|') {
        if !(pos + 2 < toks.len() && toks[pos + 1] is Ident) {
            err(ErrorKind::InvalidFunction, token_span(toks[pos]))
        } else {
            let close = if is_punct(toks[pos + 2], ':') {
                find_punct(toks, pos + 3, '|')
            } else {
                pos + 2
            };
            let end = find_punct(toks, close + 1, ',');
            if !(close < toks.len() && is_punct(toks[close], '|')) || end <= close + 1 {
                err(ErrorKind::InvalidFunction, token_span(toks[pos]))
            } else {
                let span = span_join(token_span(toks[pos]), token_span(toks[end - 1]));
                if close != pos + 2 && !spells_type(toks, pos + 3, close, input) {
                    err(ErrorKind::FunctionTypeMismatch, span)
                } else {
                    Ok((CustomFunction { form: FunctionForm::Closure, span, input }, end))
                }
            }
        }
    } else {
        match path_end(toks, pos) {
            Some(end) => Ok(
                (
                    CustomFunction {
                        form: FunctionForm::Path,
                        span: span_join(token_span(toks[pos]), token_span(toks[end - 1])),
                        input,
                    },
                    end,
                ),
            ),
            None => err(ErrorKind::InvalidFunction, token_span(toks[pos])),
        }
    }
}

fn base_name_is(text: &Vec<char>, t: InputType) -> (r: bool)
    ensures
        r == (text@ == base_name(t)),
{
    match t {
        InputType::OwnedString => chars_eq(text, &['S', 't', 'r', 'i', 'n', 'g']),
        InputType::BorrowedStr => chars_eq(text, &['s', 't', 'r']),
        InputType::OwnedInt(k) | InputType::BorrowedInt(k) => match k {
            NumberKind::U8 => chars_eq(text, &['u', '8']),
            NumberKind::U16 => chars_eq(text, &['u', '1', '6']),
            NumberKind::U32 => chars_eq(text, &['u', '3', '2']),
            NumberKind::U64 => chars_eq(text, &['u', '6', '4']),
            NumberKind::Usize => chars_eq(text, &['u', 's', 'i', 'z', 'e']),
            NumberKind::I8 => chars_eq(text, &['i', '8']),
            NumberKind::I16 => chars_eq(text, &['i', '1', '6']),
            NumberKind::I32 => chars_eq(text, &['i', '3', '2']),
            NumberKind::I64 => chars_eq(text, &['i', '6', '4']),
            NumberKind::Isize => chars_eq(text, &['i', 's', 'i', 'z', 'e']),
        },
    }
}

fn spells(toks: &Vec<Token>, a: usize, b: usize, t: InputType) -> (r: bool)
    requires
        a <= b <= toks@.len(),
    ensures
        r == spells_type(toks@, a as int, b as int, t),
{
    let is_borrowed = match t {
        InputType::BorrowedStr | InputType::BorrowedInt(_) => true,
        _ => false,
    };
    if a >= b {
        return false;
    }
    let name_at = if is_borrowed { a + 1 } else { a };
    if name_at >= b || b - name_at != 1 {
        return false;
    }
    if is_borrowed && !toks[a].is_punct('&') {
        return false;
    }
    match &toks[name_at] {
        Token::Ident { text, .. } => base_name_is(text, t),
        _ => false,
    }
}

/// The first position at or after `from` holding the punctuation `c`, or the length.
pub fn find_punct_from(toks: &Vec<Token>, from: usize, c: char) -> (r: usize)
    requires
        from <= toks@.len(),
    ensures
        r as int == find_punct(toks@, from as int, c),
        from <= r <= toks@.len(),
{
    let mut i = from;
    while i < toks.len()
        invariant
            from <= i <= toks@.len(),
            find_punct(toks@, from as int, c) == find_punct(toks@, i as int, c),
        decreases toks@.len() - i,
    {
        if toks[i].is_punct(c) {
            return i;
        }
        i = i + 1;
    }
    i
}

fn path_tail(toks: &Vec<Token>, start: usize) -> (r: usize)
    requires
        start <= toks@.len(),
    ensures
        r as int == path_tail_end(toks@, start as int),
        start <= r <= toks@.len(),
{
    let mut i = start;
    while toks.len() - i > 2 && toks[i].is_punct(':') && toks[i + 1].is_punct(':')
        && toks[i + 2].is_any_ident()
        invariant
            start <= i <= toks@.len(),
            path_tail_end(toks@, start as int) == path_tail_end(toks@, i as int),
        decreases toks@.len() - i,
    {
        i = i + 3;
    }
    i
}

/// The end of the path that starts at `pos`, if one does.
pub fn path_at(toks: &Vec<Token>, pos: usize) -> (r: Option<usize>)
    requires
        pos < toks@.len(),
    ensures
        match r {
            Some(end) => path_end(toks@, pos as int) == Some(end as int) && pos < end <= toks@.len(),
            None => path_end(toks@, pos as int) is None,
        },
{
    let len = toks.len();
    let s = if len - pos > 1 && toks[pos].is_punct(':') && toks[pos + 1].is_punct(':') {
        pos + 2
    } else {
        pos
    };
    if s < len && toks[s].is_any_ident() {
        Some(path_tail(toks, s + 1))
    } else {
        None
    }
}

/// Reads a custom function at `pos` and binds it to the input type of its slot.
pub fn parse_custom_function(toks: &Vec<Token>, pos: usize, input: InputType, prev: Span) -> (r: Result<
    (CustomFunction, usize),
    ParseError,
>)
    ensures
        match (r, custom_function_spec(toks@, pos as int, input, prev)) {
            (Ok((f, n)), Ok((f2, n2))) => f == f2 && n == n2 && pos < n <= toks@.len(),
            (Err(e), Err(e2)) => e == e2,
            _ => false,
        },
{
    let len = toks.len();
    if pos >= len {
        return Err(ParseError { kind: ErrorKind::InvalidFunction, span: prev });
    }
    let first = toks[pos].span();
    if toks[pos].is_punct('|') {
        if !(len - pos > 2 && toks[pos + 1].is_any_ident()) {
            return Err(ParseError { kind: ErrorKind::InvalidFunction, span: first });
        }
        let typed = toks[pos + 2].is_punct(':');
        let close = if typed { find_punct_from(toks, pos + 3, '|') } else { pos + 2 };
        if !(close < len && toks[close].is_punct('|')) {
            return Err(ParseError { kind: ErrorKind::InvalidFunction, span: first });
        }
        let end = find_punct_from(toks, close + 1, ',');
        if end <= close + 1 {
            return Err(ParseError { kind: ErrorKind::InvalidFunction, span: first });
        }
        let span = first.join(toks[end - 1].span());
        if typed && !spells(toks, pos + 3, close, input) {
            return Err(ParseError { kind: ErrorKind::FunctionTypeMismatch, span });
        }
        Ok((CustomFunction { form: FunctionForm::Closure, span, input }, end))
    } else {
        match path_at(toks, pos) {
            Some(end) => {
                let span = first.join(toks[end - 1].span());
                Ok((CustomFunction { form: FunctionForm::Path, span, input }, end))
            },
            None => Err(ParseError { kind: ErrorKind::InvalidFunction, span: first }),
        }
    }
}

/// `= <function>` after the keyword at `pos`: the function bound to `input`
/// and the position after it.
pub open spec fn with_spec(toks: Seq<Token>, pos: int, input: InputType) -> Result<
    (CustomFunction, int),
    ParseError,
> {
    if !(pos + 1 < toks.len() && is_punct(toks[pos + 1], '=')) {
        err(
            ErrorKind::ExpectedPunct('='),
            if pos + 1 < toks.len() { token_span(toks[pos + 1]) } else { token_span(toks[pos]) },
        )
    } else {
        custom_function_spec(toks, pos + 2, input, token_span(toks[pos + 1]))
    }
}

/// Reads `= <function>` after the keyword at `pos`.
pub fn parse_with(toks: &Vec<Token>, pos: usize, input: InputType) -> (r: Result<
    (CustomFunction, usize),
    ParseError,
>)
    requires
        pos < toks@.len(),
    ensures
        match (r, with_spec(toks@, pos as int, input)) {
            (Ok((f, n)), Ok((f2, n2))) => f == f2 && n == n2 && pos < n <= toks@.len(),
            (Err(e), Err(e2)) => e == e2,
            _ => false,
        },
{
    let len = toks.len();
    if !(len - pos > 1 && toks[pos + 1].is_punct('=')) {
        let span = if len - pos > 1 { toks[pos + 1].span() } else { toks[pos].span() };
        return Err(ParseError { kind: ErrorKind::ExpectedPunct('='), span });
    }
    parse_custom_function(toks, pos + 2, input, toks[pos + 1].span())
}

} // verus!
