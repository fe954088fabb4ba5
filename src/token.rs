use vstd::prelude::*;

verus! {

/// A source range, given as the first and last position it covers.
#[derive(Clone, Copy, Debug, PartialEq, Eq, Structural)]
pub struct Span {
    pub lo: usize,
    pub hi: usize,
}

/// The smallest range that covers both `a` and `b`.
pub open spec fn span_join(a: Span, b: Span) -> Span {
    Span {
        lo: if a.lo <= b.lo { a.lo } else { b.lo },
        hi: if a.hi >= b.hi { a.hi } else { b.hi },
    }
}

impl Span {
    pub fn new(lo: usize, hi: usize) -> (r: Span)
        ensures
            r.lo == lo,
            r.hi == hi,
    {
        Span { lo, hi }
    }

    /// Joins two spans into the smallest one that covers both.
    pub fn join(self, other: Span) -> (r: Span)
        ensures
            r == span_join(self, other),
    {
        Span {
            lo: if self.lo <= other.lo { self.lo } else { other.lo },
            hi: if self.hi >= other.hi { self.hi } else { other.hi },
        }
    }
}

#[derive(Clone, Copy, Debug, PartialEq, Eq, Structural)]
pub enum Delimiter {
    Parenthesis,
    Brace,
    Bracket,
    Invisible,
}

/// One lexical token of an annotation, with its source range.
#[derive(Debug, PartialEq, Eq)]
pub enum Token {
    Ident { text: Vec<char>, span: Span },
    Punct { ch: char, span: Span },
    Literal { text: Vec<char>, span: Span },
    Group { delimiter: Delimiter, stream: Vec<Token>, span: Span },
}

pub open spec fn token_span(t: Token) -> Span {
    match t {
        Token::Ident { span, .. } => span,
        Token::Punct { span, .. } => span,
        Token::Literal { span, .. } => span,
        Token::Group { span, .. } => span,
    }
}

/// The textual form of a leaf token; a group has none that a number or a
/// keyword could match, and is given the empty text.
pub open spec fn token_text(t: Token) -> Seq<char> {
    match t {
        Token::Ident { text, .. } => text@,
        Token::Punct { ch, .. } => seq![ch],
        Token::Literal { text, .. } => text@,
        Token::Group { .. } => Seq::empty(),
    }
}

pub open spec fn is_punct(t: Token, c: char) -> bool {
    t matches Token::Punct { ch, .. } && ch == c
}

pub open spec fn is_ident(t: Token, s: Seq<char>) -> bool {
    t matches Token::Ident { text, .. } && text@ == s
}

/// A fresh copy of a character vector.
pub fn copy_chars(v: &Vec<char>) -> (r: Vec<char>)
    ensures
        r@ == v@,
{
    let mut r: Vec<char> = Vec::new();
    let mut i: usize = 0;
    while i < v.len()
        invariant
            i <= v@.len(),
            r@ == v@.subrange(0, i as int),
        decreases v@.len() - i,
    {
        r.push(v[i]);
        i = i + 1;
        assert(r@ =~= v@.subrange(0, i as int));
    }
    assert(r@ =~= v@);
    r
}

/// Whether the characters of `a` are exactly those of `b`.
pub fn chars_eq(a: &Vec<char>, b: &[char]) -> (r: bool)
    ensures
        r == (a@ == b@),
{
    if a.len() != b.len() {
        return false;
    }
    let mut i: usize = 0;
    while i < a.len()
        invariant
            a@.len() == b@.len(),
            i <= a@.len(),
            forall|j: int| 0 <= j < i ==> a@[j] == b@[j],
        decreases a@.len() - i,
    {
        if a[i] != b[i] {
            return false;
        }
        i = i + 1;
    }
    assert(a@ =~= b@);
    true
}

impl Token {
    pub fn span(&self) -> (r: Span)
        ensures
            r == token_span(*self),
    {
        match self {
            Token::Ident { span, .. } => *span,
            Token::Punct { span, .. } => *span,
            Token::Literal { span, .. } => *span,
            Token::Group { span, .. } => *span,
        }
    }

    /// The textual form of the token, as [`token_text`] gives it.
    pub fn text(&self) -> (r: Vec<char>)
        ensures
            r@ == token_text(*self),
    {
        match self {
            Token::Ident { text, .. } => copy_chars(text),
            Token::Punct { ch, .. } => {
                let mut r: Vec<char> = Vec::new();
                r.push(*ch);
                r
            },
            Token::Literal { text, .. } => copy_chars(text),
            Token::Group { .. } => Vec::new(),
        }
    }

    pub fn is_punct(&self, c: char) -> (r: bool)
        ensures
            r == is_punct(*self, c),
    {
        match self {
            Token::Punct { ch, .. } => *ch == c,
            _ => false,
        }
    }

    pub fn is_any_ident(&self) -> (r: bool)
        ensures
            r == (*self is Ident),
    {
        match self {
            Token::Ident { .. } => true,
            _ => false,
        }
    }

    pub fn is_ident(&self, s: &[char]) -> (r: bool)
        ensures
            r == is_ident(*self, s@),
    {
        match self {
            Token::Ident { text, .. } => chars_eq(text, s),
            _ => false,
        }
    }
}

} // verus!
