use vstd::prelude::*;
use crate::attrs::{attributes_from, group_stream, kw_sanitize, kw_validate, sanitizers_from, validators_from, Family};
use crate::consistency::{dup_before, find_class, first_dup_from};
use crate::error::{Capability, ErrorKind, ParseError};
use crate::guard::SpannedItem;
use crate::integer::{kw_greater, kw_greater_or_equal, kw_less, kw_less_or_equal, integer_attributes_spec, make_bound, IntegerFamily, check_integer_spec, integer_class, integer_classes, IntegerValidator, SpannedIntegerSanitizer, SpannedIntegerValidator};
use crate::string::{check_string_spec, kw_max_len, kw_min_len, kw_regex, string_attributes_spec, string_class, string_classes, SpannedStringSanitizer, SpannedStringValidator, StringFamily, StringValidator};
use crate::number::{spanned_number_spec, parse_int, all_digits, digits_value, is_digit, number_spec, without_underscores, NumberKind};
use crate::token::{is_punct, token_text, is_ident, span_join, token_span, Span, Token};

verus! {

/// Whether `x` lies between `lo` and `hi`, both included.
pub open spec fn between(lo: int, x: int, hi: int) -> bool {
    lo <= x <= hi
}

/// A repeat found at `j` makes the search from any earlier start find one.
proof fn lemma_dup_found(c: Seq<u8>, from: int, j: int)
    requires
        0 <= from <= j < c.len(),
        dup_before(c, j),
    ensures
        first_dup_from(c, from) is Some,
    decreases j - from,
{
    if !dup_before(c, from) {
        lemma_dup_found(c, from + 1, j);
    }
}

/// When `j` is the first position whose class repeats an earlier one, the
/// search finds exactly `j`.
proof fn lemma_first_dup_is(c: Seq<u8>, from: int, j: int)
    requires
        0 <= from <= j < c.len(),
        dup_before(c, j),
        forall|h: int| from <= h < j ==> !#[trigger] dup_before(c, h),
    ensures
        first_dup_from(c, from) == Some(j),
    decreases j - from,
{
    if from < j {
        assert(!dup_before(c, from));
        lemma_first_dup_is(c, from + 1, j);
    }
}

/// Two integer validators of the same kind, whatever their arguments and
/// wherever they stand, make the check fail with a duplicate-validator error.
pub proof fn law_integer_duplicate_fails(
    san: Seq<SpannedIntegerSanitizer>,
    vs: Seq<SpannedIntegerValidator>,
    i: int,
    j: int,
)
    requires
        0 <= i < j < vs.len(),
        integer_class(vs[i].item) == integer_class(vs[j].item),
    ensures
        check_integer_spec(san, vs) matches Err(e) && e.kind == ErrorKind::DuplicateValidator,
        (forall|h: int| 0 <= h < j ==> !#[trigger] dup_before(integer_classes(vs), h))
            ==> (check_integer_spec(san, vs) matches Err(e) && e.span == vs[j].span),
{
    let c = integer_classes(vs);
    assert(c[i] == c[j]);
    assert(dup_before(c, j));
    lemma_dup_found(c, 0, j);
    if forall|h: int| 0 <= h < j ==> !#[trigger] dup_before(c, h) {
        lemma_first_dup_is(c, 0, j);
    }
}

/// Two string validators of the same kind, whatever their arguments and
/// wherever they stand, make the check fail with a duplicate-validator error.
pub proof fn law_string_duplicate_fails(
    san: Seq<SpannedStringSanitizer>,
    vs: Seq<SpannedStringValidator>,
    i: int,
    j: int,
)
    requires
        0 <= i < j < vs.len(),
        string_class(vs[i].item) == string_class(vs[j].item),
    ensures
        check_string_spec(san, vs) matches Err(e) && e.kind == ErrorKind::DuplicateValidator,
        (forall|h: int| 0 <= h < j ==> !#[trigger] dup_before(string_classes(vs), h))
            ==> (check_string_spec(san, vs) matches Err(e) && e.span == vs[j].span),
{
    let c = string_classes(vs);
    assert(c[i] == c[j]);
    assert(dup_before(c, j));
    lemma_dup_found(c, 0, j);
    if forall|h: int| 0 <= h < j ==> !#[trigger] dup_before(c, h) {
        lemma_first_dup_is(c, 0, j);
    }
}

/// Facts about the class sequence of a lower and an upper bound.
proof fn lemma_two_classes(c: Seq<u8>)
    requires
        c =~= seq![0u8, 1u8],
    ensures
        first_dup_from(c, 0) is None,
        find_class(c, 0, 0) == Some(0int),
        find_class(c, 1, 0) == Some(1int),
{
    assert(!dup_before(c, 0));
    assert(!dup_before(c, 1));
    assert(first_dup_from(c, 2) is None);
    assert(first_dup_from(c, 1) is None);
    assert(find_class(c, 1, 1) == Some(1int));
}

/// `greater_or_equal = a` with `less_or_equal = b` fails with an
/// invalid-range error exactly when no integer `x` has `a <= x <= b`.
pub proof fn law_inclusive_bounds(
    san: Seq<SpannedIntegerSanitizer>,
    a: i128,
    b: i128,
    sa: Span,
    sb: Span,
)
    ensures
        ({
            let vs = seq![
                SpannedItem { item: IntegerValidator::GreaterOrEqual(a), span: sa },
                SpannedItem { item: IntegerValidator::LessOrEqual(b), span: sb },
            ];
            (check_integer_spec(san, vs) == Err::<(Seq<SpannedIntegerSanitizer>, Seq<SpannedIntegerValidator>), ParseError>(
                ParseError { kind: ErrorKind::InvalidRange, span: span_join(sa, sb) },
            )) == (forall|x: int| !#[trigger] between(a as int, x, b as int))
                && (check_integer_spec(san, vs) is Ok) == !(forall|x: int| !#[trigger] between(a as int, x, b as int))
        }),
{
    let vs = seq![
        SpannedItem { item: IntegerValidator::GreaterOrEqual(a), span: sa },
        SpannedItem { item: IntegerValidator::LessOrEqual(b), span: sb },
    ];
    lemma_two_classes(integer_classes(vs));
    if a <= b {
        assert(between(a as int, a as int, b as int));
    }
}

/// `greater = a` with `less = b` fails with an invalid-range error exactly
/// when no integer `x` has `a < x < b`.
pub proof fn law_strict_bounds(
    san: Seq<SpannedIntegerSanitizer>,
    a: i128,
    b: i128,
    sa: Span,
    sb: Span,
)
    ensures
        ({
            let vs = seq![
                SpannedItem { item: IntegerValidator::GreaterThan(a), span: sa },
                SpannedItem { item: IntegerValidator::LessThan(b), span: sb },
            ];
            (check_integer_spec(san, vs) == Err::<(Seq<SpannedIntegerSanitizer>, Seq<SpannedIntegerValidator>), ParseError>(
                ParseError { kind: ErrorKind::InvalidRange, span: span_join(sa, sb) },
            )) == (forall|x: int| !#[trigger] between(a + 1, x, b - 1))
                && (check_integer_spec(san, vs) is Ok) == !(forall|x: int| !#[trigger] between(a + 1, x, b - 1))
        }),
{
    let vs = seq![
        SpannedItem { item: IntegerValidator::GreaterThan(a), span: sa },
        SpannedItem { item: IntegerValidator::LessThan(b), span: sb },
    ];
    lemma_two_classes(integer_classes(vs));
    if a + 1 <= b - 1 {
        assert(between(a + 1, a + 1, b - 1));
    }
}

/// `min_len = a` with `max_len = b` fails with an invalid-range error exactly
/// when no length `n` has `a <= n <= b`.
pub proof fn law_length_bounds(
    san: Seq<SpannedStringSanitizer>,
    a: usize,
    b: usize,
    sa: Span,
    sb: Span,
)
    ensures
        ({
            let vs = seq![
                SpannedItem { item: StringValidator::MinLen(a), span: sa },
                SpannedItem { item: StringValidator::MaxLen(b), span: sb },
            ];
            (check_string_spec(san, vs) == Err::<(Seq<SpannedStringSanitizer>, Seq<SpannedStringValidator>), ParseError>(
                ParseError { kind: ErrorKind::InvalidRange, span: span_join(sa, sb) },
            )) == (forall|n: int| !#[trigger] between(a as int, n, b as int))
                && (check_string_spec(san, vs) is Ok) == !(forall|n: int| !#[trigger] between(a as int, n, b as int))
        }),
{
    let vs = seq![
        SpannedItem { item: StringValidator::MinLen(a), span: sa },
        SpannedItem { item: StringValidator::MaxLen(b), span: sb },
    ];
    lemma_two_classes(string_classes(vs));
    if a <= b {
        assert(between(a as int, a as int, b as int));
    }
}

/// An annotation `sanitize(...) validate(...)` whose groups read as the
/// lists `s` and `v`, and whose validators pass the check, yields a guard that
/// holds exactly `s`, in the order the sanitize group declares them, and `v`.
pub proof fn law_sanitizer_order(
    toks: Seq<Token>,
    regex: bool,
    s: Seq<SpannedStringSanitizer>,
    v: Seq<SpannedStringValidator>,
)
    requires
        toks.len() == 4,
        is_ident(toks[0], kw_sanitize()),
        (toks[1] is Group),
        is_ident(toks[2], kw_validate()),
        (toks[3] is Group),
        sanitizers_from((StringFamily { regex }), group_stream(toks[1]), 0) == (Ok::<Seq<SpannedStringSanitizer>, ParseError>(s)),
        validators_from((StringFamily { regex }), group_stream(toks[3]), 0) == (Ok::<Seq<SpannedStringValidator>, ParseError>(v)),
        (check_string_spec(s, v) is Ok),
    ensures
        string_attributes_spec(toks, regex) == (Ok::<(Seq<SpannedStringSanitizer>, Seq<SpannedStringValidator>), ParseError>((s, v))),
{
    let f = StringFamily { regex };
    assert(!is_ident(toks[2], kw_sanitize())) by {
        assert(kw_sanitize()[0] != kw_validate()[0]);
    }
    assert(attributes_from(f, toks, 4, s, v) == Ok::<(Seq<SpannedStringSanitizer>, Seq<SpannedStringValidator>), ParseError>((s, v)));
    assert(attributes_from(f, toks, 2, s, Seq::empty()) == attributes_from(f, toks, 4, s, v));
    assert(attributes_from(f, toks, 0, Seq::empty(), Seq::empty()) == attributes_from(f, toks, 2, s, Seq::empty()));
    assert(check_string_spec(s, v) == Ok::<(Seq<SpannedStringSanitizer>, Seq<SpannedStringValidator>), ParseError>((s, v)));
}

/// An annotation with only a `sanitize(...)` group that reads as the list `s`
/// yields a guard that holds exactly `s`, in the order the group declares
/// them, and no validators.
pub proof fn law_sanitizer_order_alone(toks: Seq<Token>, regex: bool, s: Seq<SpannedStringSanitizer>)
    requires
        toks.len() == 2,
        is_ident(toks[0], kw_sanitize()),
        (toks[1] is Group),
        sanitizers_from((StringFamily { regex }), group_stream(toks[1]), 0) == (Ok::<Seq<SpannedStringSanitizer>, ParseError>(s)),
    ensures
        string_attributes_spec(toks, regex) == (Ok::<(Seq<SpannedStringSanitizer>, Seq<SpannedStringValidator>), ParseError>((s, Seq::empty()))),
{
    let f = StringFamily { regex };
    let none = Seq::<SpannedStringValidator>::empty();
    assert(attributes_from(f, toks, 2, s, none) == Ok::<(Seq<SpannedStringSanitizer>, Seq<SpannedStringValidator>), ParseError>((s, none)));
    assert(attributes_from(f, toks, 0, Seq::empty(), none) == attributes_from(f, toks, 2, s, none));
    let c = crate::string::string_classes(none);
    assert(c =~= Seq::<u8>::empty());
    assert(first_dup_from(c, 0) is None);
    assert(find_class(c, 0, 0) is None);
}

/// Whether `t` is a number literal whose value in `usize` is `n`.
pub open spec fn usize_literal(t: Token, n: usize) -> bool {
    t is Literal && parse_int(without_underscores(token_text(t)), NumberKind::Usize) == Some(n as int)
}

/// The annotation `validate(min_len = a, max_len = b)`, read from tokens,
/// fails with an invalid-range error at the two numbers exactly when no
/// length lies between `a` and `b`; otherwise its guard holds the two bounds.
pub proof fn law_length_bounds_from_tokens(toks: Seq<Token>, regex: bool, a: usize, b: usize)
    requires
        toks.len() == 2,
        is_ident(toks[0], kw_validate()),
        (toks[1] is Group),
        group_stream(toks[1]).len() == 7,
        is_ident(group_stream(toks[1])[0], kw_min_len()),
        is_punct(group_stream(toks[1])[1], '='),
        usize_literal(group_stream(toks[1])[2], a),
        is_punct(group_stream(toks[1])[3], ','),
        is_ident(group_stream(toks[1])[4], kw_max_len()),
        is_punct(group_stream(toks[1])[5], '='),
        usize_literal(group_stream(toks[1])[6], b),
    ensures
        ({
            let g = group_stream(toks[1]);
            let sa = token_span(g[2]);
            let sb = token_span(g[6]);
            let vs = seq![
                SpannedItem { item: StringValidator::MinLen(a), span: sa },
                SpannedItem { item: StringValidator::MaxLen(b), span: sb },
            ];
            &&& (a > b) ==> string_attributes_spec(toks, regex) == (Err::<(Seq<SpannedStringSanitizer>, Seq<SpannedStringValidator>), ParseError>(
                ParseError { kind: ErrorKind::InvalidRange, span: span_join(sa, sb) },
            ))
            &&& (a <= b) ==> string_attributes_spec(toks, regex) == (Ok::<(Seq<SpannedStringSanitizer>, Seq<SpannedStringValidator>), ParseError>(
                (Seq::empty(), vs),
            ))
        }),
{
    let f = StringFamily { regex };
    let g = group_stream(toks[1]);
    let sa = token_span(g[2]);
    let sb = token_span(g[6]);
    let ia = SpannedItem { item: StringValidator::MinLen(a), span: sa };
    let ib = SpannedItem { item: StringValidator::MaxLen(b), span: sb };
    assert(!is_ident(toks[0], kw_sanitize())) by {
        assert(kw_sanitize()[0] != kw_validate()[0]);
    }
    assert(!is_ident(g[4], kw_min_len())) by {
        assert(kw_min_len()[1] != kw_max_len()[1]);
    }
    assert(f.validator_spec(g, 4) == Ok::<(SpannedStringValidator, int), ParseError>((ib, 7)));
    assert(validators_from(f, g, 4) == Ok::<Seq<SpannedStringValidator>, ParseError>(seq![ib]));
    assert(f.validator_spec(g, 0) == Ok::<(SpannedStringValidator, int), ParseError>((ia, 3)));
    let vs = seq![ia, ib];
    assert(seq![ia] + seq![ib] =~= vs);
    assert(validators_from(f, g, 0) == Ok::<Seq<SpannedStringValidator>, ParseError>(vs));
    let none = Seq::<SpannedStringSanitizer>::empty();
    assert(attributes_from(f, toks, 2, none, vs) == Ok::<(Seq<SpannedStringSanitizer>, Seq<SpannedStringValidator>), ParseError>((none, vs)));
    assert(attributes_from(f, toks, 0, none, Seq::empty()) == attributes_from(f, toks, 2, none, vs));
    lemma_two_classes(string_classes(vs));
}

/// The keyword of a bound: 0 `greater`, 1 `greater_or_equal`, 2 `less`,
/// 3 `less_or_equal`.
pub open spec fn bound_keyword(which: u8) -> Seq<char> {
    if which == 0 {
        kw_greater()
    } else if which == 1 {
        kw_greater_or_equal()
    } else if which == 2 {
        kw_less()
    } else {
        kw_less_or_equal()
    }
}

/// Whether `g` reads as `lower = a, upper = b`, where the first number ends
/// before the `,` at `p`.
pub open spec fn two_bounds(g: Seq<Token>, k: NumberKind, lw: u8, uw: u8, a: int, sa: Span, b: int, sb: Span, p: int) -> bool {
    &&& 3 <= p && p + 3 < g.len()
    &&& is_ident(g[0], bound_keyword(lw))
    &&& is_punct(g[1], '=')
    &&& spanned_number_spec(g, 1, k) == Ok::<(int, Span, int), ParseError>((a, sa, p))
    &&& is_punct(g[p], ',')
    &&& is_ident(g[p + 1], bound_keyword(uw))
    &&& is_punct(g[p + 2], '=')
    &&& spanned_number_spec(g, p + 2, k) == Ok::<(int, Span, int), ParseError>((b, sb, g.len() as int))
}

proof fn lemma_read_two_bounds(
    toks: Seq<Token>,
    k: NumberKind,
    lw: u8,
    uw: u8,
    a: int,
    sa: Span,
    b: int,
    sb: Span,
    p: int,
)
    requires
        lw <= 1,
        2 <= uw <= 3,
        toks.len() == 2,
        is_ident(toks[0], kw_validate()),
        (toks[1] is Group),
        two_bounds(group_stream(toks[1]), k, lw, uw, a, sa, b, sb, p),
        k.min() <= a <= k.max(),
        k.min() <= b <= k.max(),
    ensures
        integer_attributes_spec(toks, k) == check_integer_spec(
            Seq::empty(),
            seq![
                SpannedItem { item: make_bound(lw, a as i128), span: sa },
                SpannedItem { item: make_bound(uw, b as i128), span: sb },
            ],
        ),
{
    let f = IntegerFamily { kind: k };
    let g = group_stream(toks[1]);
    let ia = SpannedItem { item: make_bound(lw, a as i128), span: sa };
    let ib = SpannedItem { item: make_bound(uw, b as i128), span: sb };
    assert(!is_ident(toks[0], kw_sanitize())) by {
        assert(kw_sanitize()[0] != kw_validate()[0]);
    }
    assert(kw_greater().len() != kw_greater_or_equal().len());
    assert(kw_less().len() != kw_less_or_equal().len());
    assert(kw_greater()[0] != kw_less()[0]);
    assert(kw_greater_or_equal()[0] != kw_less_or_equal()[0]);
    assert(kw_greater()[0] != kw_less_or_equal()[0]);
    assert(kw_greater_or_equal()[0] != kw_less()[0]);
    assert(f.validator_spec(g, p + 1) == Ok::<(SpannedIntegerValidator, int), ParseError>((ib, g.len() as int)));
    assert(validators_from(f, g, p + 1) == Ok::<Seq<SpannedIntegerValidator>, ParseError>(seq![ib]));
    assert(f.validator_spec(g, 0) == Ok::<(SpannedIntegerValidator, int), ParseError>((ia, p)));
    let vs = seq![ia, ib];
    assert(seq![ia] + seq![ib] =~= vs);
    assert(validators_from(f, g, 0) == Ok::<Seq<SpannedIntegerValidator>, ParseError>(vs));
    let none = Seq::<SpannedIntegerSanitizer>::empty();
    assert(attributes_from(f, toks, 2, none, vs) == Ok::<(Seq<SpannedIntegerSanitizer>, Seq<SpannedIntegerValidator>), ParseError>((none, vs)));
    assert(attributes_from(f, toks, 0, none, Seq::empty()) == attributes_from(f, toks, 2, none, vs));
}

/// The annotation `validate(greater_or_equal = a, less_or_equal = b)`, read
/// from tokens (either number may carry a `-`), fails with an invalid-range
/// error at the two numbers exactly when no integer lies between `a` and `b`.
pub proof fn law_inclusive_bounds_from_tokens(toks: Seq<Token>, k: NumberKind, a: int, sa: Span, b: int, sb: Span, p: int)
    requires
        toks.len() == 2,
        is_ident(toks[0], kw_validate()),
        (toks[1] is Group),
        two_bounds(group_stream(toks[1]), k, 1, 3, a, sa, b, sb, p),
        k.min() <= a <= k.max(),
        k.min() <= b <= k.max(),
    ensures
        (integer_attributes_spec(toks, k) == (Err::<(Seq<SpannedIntegerSanitizer>, Seq<SpannedIntegerValidator>), ParseError>(
            ParseError { kind: ErrorKind::InvalidRange, span: span_join(sa, sb) },
        ))) == (forall|x: int| !#[trigger] between(a, x, b)),
        (integer_attributes_spec(toks, k) is Ok) == !(forall|x: int| !#[trigger] between(a, x, b)),
{
    lemma_read_two_bounds(toks, k, 1, 3, a, sa, b, sb, p);
    law_inclusive_bounds(Seq::empty(), a as i128, b as i128, sa, sb);
}

/// The annotation `validate(greater = a, less = b)`, read from tokens (either
/// number may carry a `-`), fails with an invalid-range error at the two
/// numbers exactly when no integer lies strictly between `a` and `b`.
pub proof fn law_strict_bounds_from_tokens(toks: Seq<Token>, k: NumberKind, a: int, sa: Span, b: int, sb: Span, p: int)
    requires
        toks.len() == 2,
        is_ident(toks[0], kw_validate()),
        (toks[1] is Group),
        two_bounds(group_stream(toks[1]), k, 0, 2, a, sa, b, sb, p),
        k.min() <= a <= k.max(),
        k.min() <= b <= k.max(),
    ensures
        (integer_attributes_spec(toks, k) == (Err::<(Seq<SpannedIntegerSanitizer>, Seq<SpannedIntegerValidator>), ParseError>(
            ParseError { kind: ErrorKind::InvalidRange, span: span_join(sa, sb) },
        ))) == (forall|x: int| !#[trigger] between(a + 1, x, b - 1)),
        (integer_attributes_spec(toks, k) is Ok) == !(forall|x: int| !#[trigger] between(a + 1, x, b - 1)),
{
    lemma_read_two_bounds(toks, k, 0, 2, a, sa, b, sb, p);
    law_strict_bounds(Seq::empty(), a as i128, b as i128, sa, sb);
}

/// A `validate(...)` annotation whose group reads as validators among which
/// two share a kind fails with a duplicate-validator error, located at the
/// second of them when no kind repeats before it.
pub proof fn law_duplicate_from_tokens(toks: Seq<Token>, regex: bool, vs: Seq<SpannedStringValidator>, i: int, j: int)
    requires
        toks.len() == 2,
        is_ident(toks[0], kw_validate()),
        (toks[1] is Group),
        validators_from((StringFamily { regex }), group_stream(toks[1]), 0) == (Ok::<Seq<SpannedStringValidator>, ParseError>(vs)),
        0 <= i < j < vs.len(),
        string_class(vs[i].item) == string_class(vs[j].item),
    ensures
        string_attributes_spec(toks, regex) matches Err(e) && e.kind == ErrorKind::DuplicateValidator,
        (forall|h: int| 0 <= h < j ==> !#[trigger] dup_before(string_classes(vs), h))
            ==> (string_attributes_spec(toks, regex) matches Err(e) && e.span == vs[j].span),
{
    let f = StringFamily { regex };
    let none = Seq::<SpannedStringSanitizer>::empty();
    assert(!is_ident(toks[0], kw_sanitize())) by {
        assert(kw_sanitize()[0] != kw_validate()[0]);
    }
    assert(attributes_from(f, toks, 2, none, vs) == Ok::<(Seq<SpannedStringSanitizer>, Seq<SpannedStringValidator>), ParseError>((none, vs)));
    assert(attributes_from(f, toks, 0, none, Seq::empty()) == attributes_from(f, toks, 2, none, vs));
    law_string_duplicate_fails(none, vs, i, j);
}

/// With pattern matching switched off, the `regex` validator fails at its
/// keyword with an error that names the capability; every other validator
/// reads the same whether the capability is on or off.
pub proof fn law_regex_capability(toks: Seq<Token>, pos: int)
    requires
        0 <= pos < toks.len(),
    ensures
        is_ident(toks[pos], kw_regex()) ==> (StringFamily { regex: false }).validator_spec(toks, pos)
            == (Err::<(SpannedStringValidator, int), ParseError>(ParseError {
                kind: ErrorKind::MissingCapability(Capability::Regex),
                span: token_span(toks[pos]),
            })),
        !is_ident(toks[pos], kw_regex()) ==> (StringFamily { regex: false }).validator_spec(toks, pos)
            == (StringFamily { regex: true }).validator_spec(toks, pos),
{
}

/// The character of a decimal digit.
pub open spec fn digit_char(n: int) -> char {
    if n == 0 {
        '0'
    } else if n == 1 {
        '1'
    } else if n == 2 {
        '2'
    } else if n == 3 {
        '3'
    } else if n == 4 {
        '4'
    } else if n == 5 {
        '5'
    } else if n == 6 {
        '6'
    } else if n == 7 {
        '7'
    } else if n == 8 {
        '8'
    } else {
        '9'
    }
}

/// The decimal form of a natural number, without leading zeros.
pub open spec fn decimal(n: nat) -> Seq<char>
    decreases n,
{
    if n < 10 {
        seq![digit_char(n as int)]
    } else {
        decimal(n / 10).push(digit_char((n % 10) as int))
    }
}

/// The decimal form of an integer, with a `-` before a negative one.
pub open spec fn format_int(v: int) -> Seq<char> {
    if v < 0 {
        seq!['-'] + decimal((-v) as nat)
    } else {
        decimal(v as nat)
    }
}

/// Digits with `_` separators.
pub open spec fn separated_digits(t: Seq<char>) -> bool {
    forall|i: int| 0 <= i < t.len() ==> is_digit(#[trigger] t[i]) || t[i] == '_'
}

/// The digits of a literal carry no leading zero (a lone `0` aside).
pub open spec fn canonical_digits(d: Seq<char>) -> bool {
    d.len() > 0 && (d[0] != '0' || d.len() == 1)
}

pub open spec fn signed_text(neg: bool, t: Seq<char>) -> Seq<char> {
    if neg {
        seq!['-'] + t
    } else {
        t
    }
}

pub open spec fn literal_value(neg: bool, t: Seq<char>) -> int {
    if neg {
        -digits_value(without_underscores(t))
    } else {
        digits_value(without_underscores(t))
    }
}

proof fn lemma_digit_char(c: char)
    requires
        is_digit(c),
    ensures
        digit_char(c as int - '0' as int) == c,
        0 <= c as int - '0' as int <= 9,
{
}

proof fn lemma_value_nonneg(d: Seq<char>)
    requires
        all_digits(d),
    ensures
        digits_value(d) >= 0,
    decreases d.len(),
{
    if d.len() > 0 {
        assert(is_digit(d[d.len() - 1]));
        lemma_value_nonneg(d.drop_last());
    }
}

proof fn lemma_value_positive(d: Seq<char>)
    requires
        all_digits(d),
        d.len() > 0,
        d[0] != '0',
    ensures
        digits_value(d) >= 1,
    decreases d.len(),
{
    assert(is_digit(d[d.len() - 1]));
    if d.len() == 1 {
        assert(is_digit(d[0]));
        assert(d.drop_last().len() == 0);
        assert(digits_value(d.drop_last()) == 0);
        assert(d[0] as int != '0' as int);
    } else {
        let p = d.drop_last();
        assert(p[0] == d[0]);
        lemma_value_positive(p);
    }
}

proof fn lemma_decimal_of_digits(d: Seq<char>)
    requires
        all_digits(d),
        canonical_digits(d),
    ensures
        digits_value(d) >= 0,
        decimal(digits_value(d) as nat) == d,
    decreases d.len(),
{
    lemma_value_nonneg(d);
    let c = d[d.len() - 1];
    assert(is_digit(c));
    lemma_digit_char(c);
    let k = c as int - '0' as int;
    if d.len() == 1 {
        assert(digits_value(d.drop_last()) == 0);
        assert(decimal(digits_value(d) as nat) =~= d);
    } else {
        let p = d.drop_last();
        assert(p[0] == d[0]);
        lemma_value_positive(p);
        lemma_decimal_of_digits(p);
        let v = digits_value(p);
        let n = digits_value(d);
        assert(n == 10 * v + k);
        assert(n / 10 == v && n % 10 == k) by (nonlinear_arith)
            requires
                n == 10 * v + k,
                0 <= k <= 9,
                v >= 1,
        ;
        assert(decimal(n as nat) == decimal(v as nat).push(digit_char(k)));
        assert(decimal(n as nat) =~= d);
    }
}

proof fn lemma_strip_sign(t: Seq<char>)
    ensures
        without_underscores(seq!['-'] + t) == seq!['-'] + without_underscores(t),
    decreases t.len(),
{
    if t.len() == 0 {
        assert(seq!['-'] + t =~= seq!['-']);
        assert(seq!['-'].drop_last() =~= Seq::<char>::empty());
        assert(seq!['-'].last() == '-');
        assert(without_underscores(Seq::<char>::empty()) =~= Seq::<char>::empty());
        assert(seq!['-'] + without_underscores(t) =~= seq!['-']);
        assert(without_underscores(seq!['-']) =~= Seq::<char>::empty().push('-'));
    } else {
        let s = seq!['-'] + t;
        assert(s.drop_last() =~= seq!['-'] + t.drop_last());
        assert(s.last() == t.last());
        lemma_strip_sign(t.drop_last());
        if t.last() != '_' {
            assert((seq!['-'] + without_underscores(t.drop_last())).push(t.last())
                =~= seq!['-'] + without_underscores(t.drop_last()).push(t.last()));
        }
    }
}

proof fn lemma_strip_digits(t: Seq<char>)
    requires
        separated_digits(t),
    ensures
        all_digits(without_underscores(t)),
    decreases t.len(),
{
    if t.len() > 0 {
        let p = t.drop_last();
        assert(separated_digits(p)) by {
            assert forall|i: int| 0 <= i < p.len() implies is_digit(#[trigger] p[i]) || p[i] == '_' by {
                assert(p[i] == t[i]);
            }
        }
        lemma_strip_digits(p);
        assert(is_digit(t[t.len() - 1]) || t[t.len() - 1] == '_');
        if t.last() != '_' {
            let w = without_underscores(p).push(t.last());
            assert(all_digits(w)) by {
                assert forall|i: int| 0 <= i < w.len() implies is_digit(#[trigger] w[i]) by {
                    if i < w.len() - 1 {
                        assert(w[i] == without_underscores(p)[i]);
                    }
                }
            }
        }
    }
}

/// Reading `= [-]literal`, where the literal is digits with `_` separators,
/// gives the value of its digits (negated after a `-`), and writing that value
/// in decimal gives back the text with the separators removed.
pub proof fn law_number_round_trip(toks: Seq<Token>, pos: int, k: NumberKind, neg: bool, t: Seq<char>)
    requires
        0 <= pos,
        pos + 2 + (if neg { 1int } else { 0int }) <= toks.len(),
        is_punct(toks[pos], '='),
        neg ==> is_punct(toks[pos + 1], '-') && k.signed(),
        token_text(toks[pos + 1 + (if neg { 1int } else { 0int })]) == t,
        separated_digits(t),
        canonical_digits(without_underscores(t)),
        neg ==> without_underscores(t)[0] != '0',
        k.min() <= literal_value(neg, t) <= k.max(),
    ensures
        number_spec(toks, pos, k) == (Ok::<(int, int), ParseError>(
            (literal_value(neg, t), pos + 2 + (if neg { 1int } else { 0int })),
        )),
        format_int(literal_value(neg, t)) == without_underscores(signed_text(neg, t)),
{
    let d = without_underscores(t);
    lemma_strip_digits(t);
    lemma_decimal_of_digits(d);
    assert(t.len() > 0);
    if !neg {
        assert(is_digit(t[0]) || t[0] == '_');
        assert(!is_punct(toks[pos + 1], '-')) by {
            if is_punct(toks[pos + 1], '-') {
                assert(t =~= seq!['-']);
            }
        }
        assert(is_digit(d[0]));
    } else {
        lemma_strip_sign(t);
        lemma_value_positive(d);
        assert((seq!['-'] + d).drop_first() =~= d);
    }
}

proof fn lemma_sanitizers_ignore_capability(toks: Seq<Token>, pos: int)
    requires
        0 <= pos,
    ensures
        sanitizers_from((StringFamily { regex: false }), toks, pos)
            == sanitizers_from((StringFamily { regex: true }), toks, pos),
    decreases toks.len() - pos,
{
    let off = StringFamily { regex: false };
    let on = StringFamily { regex: true };
    if pos < toks.len() {
        assert(off.sanitizer_spec(toks, pos) == on.sanitizer_spec(toks, pos));
        match off.sanitizer_spec(toks, pos) {
            Ok((_, next)) => if next > pos && next < toks.len() {
                lemma_sanitizers_ignore_capability(toks, next + 1);
            },
            Err(_) => {},
        }
    }
}

proof fn lemma_validators_gain_capability(toks: Seq<Token>, pos: int)
    requires
        0 <= pos,
        (validators_from((StringFamily { regex: false }), toks, pos) is Ok),
    ensures
        validators_from((StringFamily { regex: false }), toks, pos)
            == validators_from((StringFamily { regex: true }), toks, pos),
    decreases toks.len() - pos,
{
    let off = StringFamily { regex: false };
    let on = StringFamily { regex: true };
    if pos < toks.len() {
        law_regex_capability(toks, pos);
        assert(off.validator_spec(toks, pos) == on.validator_spec(toks, pos));
        match off.validator_spec(toks, pos) {
            Ok((_, next)) => if next > pos && next < toks.len() && is_punct(toks[next], ',') {
                lemma_validators_gain_capability(toks, next + 1);
            },
            Err(_) => {},
        }
    }
}

proof fn lemma_attributes_gain_capability(
    toks: Seq<Token>,
    pos: int,
    san: Seq<SpannedStringSanitizer>,
    val: Seq<SpannedStringValidator>,
)
    requires
        0 <= pos,
        (attributes_from((StringFamily { regex: false }), toks, pos, san, val) is Ok),
    ensures
        attributes_from((StringFamily { regex: false }), toks, pos, san, val)
            == attributes_from((StringFamily { regex: true }), toks, pos, san, val),
    decreases toks.len() - pos,
{
    let off = StringFamily { regex: false };
    let on = StringFamily { regex: true };
    if pos < toks.len() && (is_ident(toks[pos], kw_sanitize()) || is_ident(toks[pos], kw_validate()))
        && pos + 1 < toks.len() && toks[pos + 1] is Group {
        let inner = group_stream(toks[pos + 1]);
        if is_ident(toks[pos], kw_sanitize()) {
            lemma_sanitizers_ignore_capability(inner, 0);
            match sanitizers_from(off, inner, 0) {
                Ok(s) => lemma_attributes_gain_capability(toks, pos + 2, s, val),
                Err(_) => {},
            }
        } else {
            lemma_validators_gain_capability(inner, 0);
            match validators_from(off, inner, 0) {
                Ok(v) => lemma_attributes_gain_capability(toks, pos + 2, san, v),
                Err(_) => {},
            }
        }
    }
}

/// Switching pattern matching on never changes the outcome of an annotation
/// that reads and checks without it.
pub proof fn law_capability_only_adds(toks: Seq<Token>)
    requires
        (string_attributes_spec(toks, false) is Ok),
    ensures
        string_attributes_spec(toks, true) == string_attributes_spec(toks, false),
{
    lemma_attributes_gain_capability(toks, 0, Seq::empty(), Seq::empty());
}

/// Whether `r` is the outcome `ok`, or an error that names the capability.
pub open spec fn same_or_missing_capability<T>(r: Result<T, ParseError>, ok: Result<T, ParseError>) -> bool {
    r == ok || (r matches Err(e) && e.kind == ErrorKind::MissingCapability(Capability::Regex))
}

proof fn lemma_validators_lose_capability(toks: Seq<Token>, pos: int)
    requires
        0 <= pos,
        (validators_from((StringFamily { regex: true }), toks, pos) is Ok),
    ensures
        same_or_missing_capability(
            validators_from((StringFamily { regex: false }), toks, pos),
            validators_from((StringFamily { regex: true }), toks, pos),
        ),
    decreases toks.len() - pos,
{
    let off = StringFamily { regex: false };
    let on = StringFamily { regex: true };
    if pos < toks.len() {
        law_regex_capability(toks, pos);
        if !is_ident(toks[pos], kw_regex()) {
            match on.validator_spec(toks, pos) {
                Ok((_, next)) => if next > pos && next < toks.len() && is_punct(toks[next], ',') {
                    lemma_validators_lose_capability(toks, next + 1);
                },
                Err(_) => {},
            }
        }
    }
}

proof fn lemma_attributes_lose_capability(
    toks: Seq<Token>,
    pos: int,
    san: Seq<SpannedStringSanitizer>,
    val: Seq<SpannedStringValidator>,
)
    requires
        0 <= pos,
        (attributes_from((StringFamily { regex: true }), toks, pos, san, val) is Ok),
    ensures
        same_or_missing_capability(
            attributes_from((StringFamily { regex: false }), toks, pos, san, val),
            attributes_from((StringFamily { regex: true }), toks, pos, san, val),
        ),
    decreases toks.len() - pos,
{
    let off = StringFamily { regex: false };
    let on = StringFamily { regex: true };
    if pos < toks.len() && (is_ident(toks[pos], kw_sanitize()) || is_ident(toks[pos], kw_validate()))
        && pos + 1 < toks.len() && toks[pos + 1] is Group {
        let inner = group_stream(toks[pos + 1]);
        if is_ident(toks[pos], kw_sanitize()) {
            lemma_sanitizers_ignore_capability(inner, 0);
            match sanitizers_from(on, inner, 0) {
                Ok(s) => lemma_attributes_lose_capability(toks, pos + 2, s, val),
                Err(_) => {},
            }
        } else {
            lemma_validators_lose_capability(inner, 0);
            match validators_from(on, inner, 0) {
                Ok(v) => if validators_from(off, inner, 0) == validators_from(on, inner, 0) {
                    lemma_attributes_lose_capability(toks, pos + 2, san, v);
                },
                Err(_) => {},
            }
        }
    }
}

/// An annotation that reads and checks with pattern matching switched on
/// gives the same result with it switched off, unless it uses a pattern: then
/// it fails with an error that names the missing capability.
pub proof fn law_capability_off_names_it(toks: Seq<Token>)
    requires
        (string_attributes_spec(toks, true) is Ok),
    ensures
        same_or_missing_capability(string_attributes_spec(toks, false), string_attributes_spec(toks, true)),
{
    lemma_attributes_lose_capability(toks, 0, Seq::empty(), Seq::empty());
}

} // verus!
