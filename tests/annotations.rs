use nutype_parse::attrs::{parse_nutype_attributes, try_unwrap_group, try_unwrap_ident};
use nutype_parse::custom::{FunctionForm, InputType};
use nutype_parse::error::{Capability, ErrorKind, ParseError};
use nutype_parse::integer::{parse_integer_attributes, IntegerFamily, IntegerSanitizer, IntegerValidator};
use nutype_parse::number::{parse_value_as_number, sanitize_number, NumberKind};
use nutype_parse::string::{parse_attributes, RegexDef, StringFamily, StringSanitizer, StringValidator};
use nutype_parse::token::{Delimiter, Span, Token};

/// Splits source text into tokens; each span is the token's character range.
fn lex(src: &str) -> Vec<Token> {
    let chars: Vec<char> = src.chars().collect();
    let mut pos = 0;
    let toks = lex_until(&chars, &mut pos, None);
    assert_eq!(pos, chars.len());
    toks
}

fn lex_until(chars: &[char], pos: &mut usize, close: Option<char>) -> Vec<Token> {
    let mut out = Vec::new();
    while *pos < chars.len() {
        let c = chars[*pos];
        let start = *pos;
        if c.is_whitespace() {
            *pos += 1;
        } else if Some(c) == close {
            return out;
        } else if c.is_alphabetic() || c == '_' || c.is_ascii_digit() {
            while *pos < chars.len() && (chars[*pos].is_alphanumeric() || chars[*pos] == '_') {
                *pos += 1;
            }
            let text: Vec<char> = chars[start..*pos].to_vec();
            let span = Span::new(start, *pos - 1);
            if c.is_ascii_digit() {
                out.push(Token::Literal { text, span });
            } else {
                out.push(Token::Ident { text, span });
            }
        } else if c == '"' {
            *pos += 1;
            while chars[*pos] != '"' {
                *pos += 1;
            }
            *pos += 1;
            out.push(Token::Literal { text: chars[start..*pos].to_vec(), span: Span::new(start, *pos - 1) });
        } else if c == '(' || c == '[' || c == '{' {
            let (closing, delimiter) = match c {
                '(' => (')', Delimiter::Parenthesis),
                '[' => (']', Delimiter::Bracket),
                _ => ('}', Delimiter::Brace),
            };
            *pos += 1;
            let stream = lex_until(chars, pos, Some(closing));
            *pos += 1;
            out.push(Token::Group { delimiter, stream, span: Span::new(start, *pos - 1) });
        } else {
            *pos += 1;
            out.push(Token::Punct { ch: c, span: Span::new(start, start) });
        }
    }
    out
}

fn span_of(src: &str, part: &str) -> Span {
    let byte = src.find(part).unwrap();
    let lo = src[..byte].chars().count();
    Span::new(lo, lo + part.chars().count() - 1)
}

fn string_err(src: &str, regex: bool) -> ParseError {
    parse_attributes(&lex(src), regex).unwrap_err()
}

fn integer_err(src: &str, kind: NumberKind) -> ParseError {
    parse_integer_attributes(&lex(src), kind).unwrap_err()
}

fn number(src: &str, kind: NumberKind) -> Result<(i128, usize), ParseError> {
    parse_value_as_number(&lex(src), 0, kind)
}

#[test]
fn singleton_length_interval_is_accepted() {
    let guard = parse_attributes(&lex("validate(min_len = 1, max_len = 1)"), false).unwrap();
    let items: Vec<StringValidator> = guard.validators().iter().map(|v| v.item).collect();
    assert_eq!(items, vec![StringValidator::MinLen(1), StringValidator::MaxLen(1)]);
    assert!(guard.sanitizers().is_empty());
}

#[test]
fn bound_items_are_located_at_their_number() {
    let src = "validate(min_len = 5, max_len = 1_000)";
    let guard = parse_attributes(&lex(src), false).unwrap();
    assert_eq!(guard.validators()[0].span, span_of(src, "5"));
    assert_eq!(guard.validators()[1].span, span_of(src, "1_000"));
    let src = "validate(greater_or_equal = -5, less = 7)";
    let guard = parse_integer_attributes(&lex(src), NumberKind::I32).unwrap();
    assert_eq!(guard.validators()[0].span, span_of(src, "-5"));
    assert_eq!(guard.validators()[1].span, span_of(src, "7"));
}

#[test]
fn sanitize_group_alone_keeps_its_order() {
    let guard = parse_attributes(&lex("sanitize(lowercase, with = |s: String| s, trim)"), false).unwrap();
    let sanitizers: Vec<StringSanitizer> = guard.sanitizers().iter().map(|s| s.item).collect();
    assert_eq!(sanitizers.len(), 3);
    assert_eq!(sanitizers[0], StringSanitizer::Lowercase);
    assert!(matches!(sanitizers[1], StringSanitizer::With(_)));
    assert_eq!(sanitizers[2], StringSanitizer::Trim);
    assert!(guard.validators().is_empty());
}

#[test]
fn reversed_length_bounds_are_an_invalid_range() {
    let src = "validate(min_len = 5, max_len = 2)";
    let e = string_err(src, false);
    assert_eq!(e.kind, ErrorKind::InvalidRange);
    assert_eq!(e.span, span_of(src, "5, max_len = 2"));
}

#[test]
fn reversed_inclusive_integer_bounds_are_an_invalid_range() {
    let src = "validate(greater_or_equal = 20, less_or_equal = 0)";
    let e = integer_err(src, NumberKind::I64);
    assert_eq!(e.kind, ErrorKind::InvalidRange);
    assert_eq!(e.span, span_of(src, "20, less_or_equal = 0"));
    let e = integer_err("validate(less_or_equal = 0, greater_or_equal = 20)", NumberKind::I64);
    assert_eq!(e.kind, ErrorKind::InvalidRange);
}

#[test]
fn sanitizers_keep_their_order() {
    let src = "sanitize(trim, lowercase) validate(not_empty)";
    let guard = parse_attributes(&lex(src), false).unwrap();
    let sanitizers: Vec<StringSanitizer> = guard.sanitizers().iter().map(|s| s.item).collect();
    assert_eq!(sanitizers, vec![StringSanitizer::Trim, StringSanitizer::Lowercase]);
    assert_eq!(guard.sanitizers()[0].span, span_of(src, "trim"));
    assert_eq!(guard.validators().len(), 1);
    assert_eq!(guard.validators()[0].item, StringValidator::NotEmpty);

    let guard = parse_attributes(&lex("sanitize(uppercase, trim, lowercase,)"), false).unwrap();
    let sanitizers: Vec<StringSanitizer> = guard.sanitizers().iter().map(|s| s.item).collect();
    assert_eq!(
        sanitizers,
        vec![StringSanitizer::Uppercase, StringSanitizer::Trim, StringSanitizer::Lowercase]
    );
}

#[test]
fn later_group_replaces_earlier_one() {
    let guard = parse_attributes(&lex("sanitize(trim) sanitize(uppercase)"), false).unwrap();
    assert_eq!(guard.sanitizers().len(), 1);
    assert_eq!(guard.sanitizers()[0].item, StringSanitizer::Uppercase);
}

#[test]
fn numbers_drop_separators() {
    assert_eq!(number("= 1_000", NumberKind::I32), Ok((1000, 2)));
    assert_eq!(number("= - 2_0", NumberKind::I32), Ok((-20, 3)));
    assert_eq!(number("= 0", NumberKind::U8), Ok((0, 2)));
    assert_eq!(number("= 255", NumberKind::U8), Ok((255, 2)));
    assert_eq!(number("= - 128", NumberKind::I8), Ok((-128, 3)));
    assert_eq!(number("= 18_446_744_073_709_551_615", NumberKind::U64), Ok((u64::MAX as i128, 2)));
    let sanitized = sanitize_number(&"1_2__3_".chars().collect());
    assert_eq!(sanitized, "123".chars().collect::<Vec<char>>());
}

#[test]
fn numbers_out_of_kind_are_mismatches() {
    let e = number("= 256", NumberKind::U8).unwrap_err();
    assert_eq!(e, ParseError { kind: ErrorKind::NumberMismatch(NumberKind::U8), span: Span::new(2, 4) });
    let e = number("= -1", NumberKind::U32).unwrap_err();
    assert_eq!(e, ParseError { kind: ErrorKind::NumberMismatch(NumberKind::U32), span: Span::new(2, 3) });
    let e = number("= 12abc", NumberKind::I64).unwrap_err();
    assert_eq!(e.kind, ErrorKind::NumberMismatch(NumberKind::I64));
    let e = number("= 99999999999999999999999", NumberKind::U64).unwrap_err();
    assert_eq!(e.kind, ErrorKind::NumberMismatch(NumberKind::U64));
    let e = number("= -", NumberKind::I64).unwrap_err();
    assert_eq!(e, ParseError { kind: ErrorKind::ExpectedNumber, span: Span::new(2, 2) });
    let e = number("=", NumberKind::I64).unwrap_err();
    assert_eq!(e, ParseError { kind: ErrorKind::ExpectedNumber, span: Span::new(0, 0) });
}

#[test]
fn strict_bounds_need_an_integer_between() {
    let e = integer_err("validate(greater = 5, less = 6)", NumberKind::I32);
    assert_eq!(e.kind, ErrorKind::InvalidRange);
    assert!(parse_integer_attributes(&lex("validate(greater = 5, less = 7)"), NumberKind::I32).is_ok());
    assert!(parse_integer_attributes(&lex("validate(greater_or_equal = 5, less_or_equal = 5)"), NumberKind::I32)
        .is_ok());
    let e = integer_err("validate(greater = 5, less_or_equal = 5)", NumberKind::I32);
    assert_eq!(e.kind, ErrorKind::InvalidRange);
    let e = string_err("validate(max_len = 3, min_len = 4)", false);
    assert_eq!(e.kind, ErrorKind::InvalidRange);
}

#[test]
fn repeated_validators_are_duplicates() {
    let src = "validate(min_len = 1, not_empty, min_len = 1)";
    let e = string_err(src, false);
    assert_eq!(e.kind, ErrorKind::DuplicateValidator);
    assert_eq!(e.span, Span::new(43, 43));
    let e = integer_err("validate(greater = 1, greater_or_equal = 100)", NumberKind::U16);
    assert_eq!(e.kind, ErrorKind::DuplicateValidator);
    let e = string_err("validate(not_empty, not_empty)", false);
    assert_eq!(e, ParseError { kind: ErrorKind::DuplicateValidator, span: Span::new(20, 28) });
    // the repeat is reported before the contradictory bounds
    let e = string_err("validate(min_len = 9, max_len = 1, max_len = 1)", false);
    assert_eq!(e.kind, ErrorKind::DuplicateValidator);
}

#[test]
fn regex_needs_its_capability() {
    let src = "validate(regex = \"^[a-z]+$\")";
    let e = string_err(src, false);
    assert_eq!(e, ParseError { kind: ErrorKind::MissingCapability(Capability::Regex), span: span_of(src, "regex") });
    let guard = parse_attributes(&lex(src), true).unwrap();
    assert_eq!(guard.validators()[0].item, StringValidator::Regex(RegexDef::StringLiteral));
    assert_eq!(guard.validators()[0].span, span_of(src, "\"^[a-z]+$\""));
    let guard = parse_attributes(&lex("validate(regex = patterns::EMAIL)"), true).unwrap();
    assert_eq!(guard.validators()[0].item, StringValidator::Regex(RegexDef::Path));
    let e = string_err("validate(regex = 42)", true);
    assert_eq!(e.kind, ErrorKind::InvalidRegex);
}

#[test]
fn custom_functions_are_bound_to_their_slot() {
    let src = "sanitize(with = |s: String| s) validate(with = |s: &str| s.is_empty())";
    let guard = parse_attributes(&lex(src), false).unwrap();
    match guard.sanitizers()[0].item {
        StringSanitizer::With(f) => {
            assert_eq!(f.form, FunctionForm::Closure);
            assert_eq!(f.input, InputType::OwnedString);
            assert_eq!(f.span, span_of(src, "|s: String| s"));
        }
        other => panic!("unexpected {:?}", other),
    }
    match guard.validators()[0].item {
        StringValidator::With(f) => assert_eq!(f.input, InputType::BorrowedStr),
        other => panic!("unexpected {:?}", other),
    }
    let guard = parse_attributes(&lex("validate(with = ::checks::is_valid, not_empty)"), false).unwrap();
    match guard.validators()[0].item {
        StringValidator::With(f) => assert_eq!(f.form, FunctionForm::Path),
        other => panic!("unexpected {:?}", other),
    }
    let e = string_err("validate(with = |s: String| s.is_empty())", false);
    assert_eq!(e.kind, ErrorKind::FunctionTypeMismatch);
    let e = string_err("sanitize(with = |s: &str| s)", false);
    assert_eq!(e.kind, ErrorKind::FunctionTypeMismatch);
    let e = string_err("sanitize(with = 5)", false);
    assert_eq!(e.kind, ErrorKind::InvalidFunction);
    let e = string_err("sanitize(with = |s|)", false);
    assert_eq!(e.kind, ErrorKind::InvalidFunction);

    let guard =
        parse_integer_attributes(&lex("sanitize(with = |n: i32| n) validate(with = |n: &i32| *n > 0)"), NumberKind::I32)
            .unwrap();
    match guard.sanitizers()[0].item {
        IntegerSanitizer::With(f) => assert_eq!(f.input, InputType::OwnedInt(NumberKind::I32)),
    }
    match guard.validators()[0].item {
        IntegerValidator::Predicate(f) => assert_eq!(f.input, InputType::BorrowedInt(NumberKind::I32)),
        other => panic!("unexpected {:?}", other),
    }
    let e = integer_err("validate(with = |n: &i64| *n > 0)", NumberKind::I32);
    assert_eq!(e.kind, ErrorKind::FunctionTypeMismatch);
}

#[test]
fn predicates_stay_out_of_range_checks() {
    let guard = parse_integer_attributes(
        &lex("validate(with = is_even, greater_or_equal = -10, less = 10)"),
        NumberKind::I8,
    )
    .unwrap();
    let items: Vec<IntegerValidator> = guard.validators().iter().map(|v| v.item).collect();
    assert_eq!(items[1], IntegerValidator::GreaterOrEqual(-10));
    assert_eq!(items[2], IntegerValidator::LessThan(10));
}

#[test]
fn grammar_errors_are_located() {
    let src = "validate(min_len = 1) frobnicate(x)";
    assert_eq!(string_err(src, false), ParseError { kind: ErrorKind::UnknownOption, span: span_of(src, "frobnicate") });
    let src = "sanitize(trim, shout)";
    assert_eq!(string_err(src, false), ParseError { kind: ErrorKind::UnknownSanitizer, span: span_of(src, "shout") });
    let src = "validate(shiny)";
    assert_eq!(string_err(src, false), ParseError { kind: ErrorKind::UnknownValidator, span: span_of(src, "shiny") });
    let src = "validate(min_len 3)";
    assert_eq!(string_err(src, false), ParseError { kind: ErrorKind::ExpectedPunct('='), span: span_of(src, "3") });
    let src = "validate(not_empty trim)";
    assert_eq!(string_err(src, false), ParseError { kind: ErrorKind::ExpectedPunct(','), span: span_of(src, "trim") });
    let src = "validate = 3";
    assert_eq!(string_err(src, false), ParseError { kind: ErrorKind::ExpectedGroup, span: span_of(src, "=") });
    let src = "validate";
    assert_eq!(string_err(src, false), ParseError { kind: ErrorKind::ExpectedGroup, span: Span::new(0, 7) });
    let src = "(trim)";
    assert_eq!(string_err(src, false), ParseError { kind: ErrorKind::ExpectedIdent, span: Span::new(0, 5) });
    let src = "validate(max_len = -3)";
    assert_eq!(string_err(src, false).kind, ErrorKind::NumberMismatch(NumberKind::Usize));
    let src = "validate(less = 300)";
    assert_eq!(integer_err(src, NumberKind::U8).kind, ErrorKind::NumberMismatch(NumberKind::U8));
    let src = "sanitize(trim)";
    assert_eq!(integer_err(src, NumberKind::U8).kind, ErrorKind::UnknownSanitizer);
}

#[test]
fn empty_annotation_gives_empty_guard() {
    let guard = parse_attributes(&Vec::new(), false).unwrap();
    assert!(guard.sanitizers().is_empty() && guard.validators().is_empty());
    let guard = parse_attributes(&lex("sanitize() validate()"), true).unwrap();
    assert!(guard.sanitizers().is_empty() && guard.validators().is_empty());
}

#[test]
fn raw_meta_keeps_declaration_order() {
    let raw = parse_nutype_attributes(&StringFamily { regex: false }, &lex("validate(max_len = 1, min_len = 9)")).unwrap();
    let items: Vec<StringValidator> = raw.validators.iter().map(|v| v.item).collect();
    assert_eq!(items, vec![StringValidator::MaxLen(1), StringValidator::MinLen(9)]);
    let raw = parse_nutype_attributes(&IntegerFamily { kind: NumberKind::I64 }, &lex("validate(less = -5)")).unwrap();
    assert_eq!(raw.validators[0].item, IntegerValidator::LessThan(-5));
}

#[test]
fn tokens_unwrap_by_kind() {
    let toks = lex("name (x)");
    let id = try_unwrap_ident(&toks[0]).unwrap();
    assert_eq!(id.text, "name".chars().collect::<Vec<char>>());
    assert_eq!(try_unwrap_ident(&toks[1]).unwrap_err().kind, ErrorKind::ExpectedIdent);
    assert_eq!(try_unwrap_group(&toks[1]).unwrap().len(), 1);
    assert_eq!(try_unwrap_group(&toks[0]).unwrap_err(), ParseError { kind: ErrorKind::ExpectedGroup, span: Span::new(0, 3) });
}

#[test]
fn spans_join_to_cover_both() {
    assert_eq!(Span::new(4, 6).join(Span::new(1, 2)), Span::new(1, 6));
    assert_eq!(Span::new(1, 9).join(Span::new(3, 4)), Span::new(1, 9));
}
