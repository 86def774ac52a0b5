//! The tokens that the parser reads.

use vstd::prelude::*;
use crate::span::{
    Span, join_spans, lemma_position_spec_new, lemma_span_rebuild, lemma_span_spec_new,
};
use vstd::string::StringSliceAdditionalSpecFns;

verus! {

broadcast use lemma_span_spec_new, lemma_position_spec_new;

/// The kind of a token.
#[derive(Debug, Clone, Copy, PartialEq, Eq, Hash, Structural)]
pub enum TokenKind {
    True,
    False,
    Def,
    Func,
    Do,
    End,
    Return,
    While,
    Break,
    Continue,
    If,
    Then,
    ElseIf,
    Else,
    /// The keyword `none`.
    NoneKw,
    And,
    Or,
    Not,
    Class,
    Extern,
    Ident,
    Comment,
    Number,
    String,
    Plus,
    Minus,
    Asterisk,
    Slash,
    Sign,
    Eq,
    EqEq,
    Neq,
    Arrow,
    FatArrow,
    Dot,
    Comma,
    Lt,
    Gt,
    Lte,
    Gte,
    LeftParen,
    RightParen,
    LeftBrace,
    RightBrace,
    LeftBracket,
    RightBracket,
    Eof,
}

impl TokenKind {
    /// The name of the kind, as written in this enum.
    pub open spec fn spec_name(self) -> Seq<char> {
        match self {
            TokenKind::True => "True"@,
            TokenKind::False => "False"@,
            TokenKind::Def => "Def"@,
            TokenKind::Func => "Func"@,
            TokenKind::Do => "Do"@,
            TokenKind::End => "End"@,
            TokenKind::Return => "Return"@,
            TokenKind::While => "While"@,
            TokenKind::Break => "Break"@,
            TokenKind::Continue => "Continue"@,
            TokenKind::If => "If"@,
            TokenKind::Then => "Then"@,
            TokenKind::ElseIf => "ElseIf"@,
            TokenKind::Else => "Else"@,
            TokenKind::NoneKw => "None"@,
            TokenKind::And => "And"@,
            TokenKind::Or => "Or"@,
            TokenKind::Not => "Not"@,
            TokenKind::Class => "Class"@,
            TokenKind::Extern => "Extern"@,
            TokenKind::Ident => "Ident"@,
            TokenKind::Comment => "Comment"@,
            TokenKind::Number => "Number"@,
            TokenKind::String => "String"@,
            TokenKind::Plus => "Plus"@,
            TokenKind::Minus => "Minus"@,
            TokenKind::Asterisk => "Asterisk"@,
            TokenKind::Slash => "Slash"@,
            TokenKind::Sign => "Sign"@,
            TokenKind::Eq => "Eq"@,
            TokenKind::EqEq => "EqEq"@,
            TokenKind::Neq => "Neq"@,
            TokenKind::Arrow => "Arrow"@,
            TokenKind::FatArrow => "FatArrow"@,
            TokenKind::Dot => "Dot"@,
            TokenKind::Comma => "Comma"@,
            TokenKind::Lt => "Lt"@,
            TokenKind::Gt => "Gt"@,
            TokenKind::Lte => "Lte"@,
            TokenKind::Gte => "Gte"@,
            TokenKind::LeftParen => "LeftParen"@,
            TokenKind::RightParen => "RightParen"@,
            TokenKind::LeftBrace => "LeftBrace"@,
            TokenKind::RightBrace => "RightBrace"@,
            TokenKind::LeftBracket => "LeftBracket"@,
            TokenKind::RightBracket => "RightBracket"@,
            TokenKind::Eof => "Eof"@,
        }
    }

    /// The name of the kind, as written in this enum.
    pub fn name(&self) -> (n: &'static str)
        ensures
            n@ == self.spec_name(),
    {
        proof {
            reveal_strlit("True");
            reveal_strlit("False");
            reveal_strlit("Def");
            reveal_strlit("Func");
            reveal_strlit("Do");
            reveal_strlit("End");
            reveal_strlit("Return");
            reveal_strlit("While");
            reveal_strlit("Break");
            reveal_strlit("Continue");
            reveal_strlit("If");
            reveal_strlit("Then");
            reveal_strlit("ElseIf");
            reveal_strlit("Else");
            reveal_strlit("None");
            reveal_strlit("And");
            reveal_strlit("Or");
            reveal_strlit("Not");
            reveal_strlit("Class");
            reveal_strlit("Extern");
            reveal_strlit("Ident");
            reveal_strlit("Comment");
            reveal_strlit("Number");
            reveal_strlit("String");
            reveal_strlit("Plus");
            reveal_strlit("Minus");
            reveal_strlit("Asterisk");
            reveal_strlit("Slash");
            reveal_strlit("Sign");
            reveal_strlit("Eq");
            reveal_strlit("EqEq");
            reveal_strlit("Neq");
            reveal_strlit("Arrow");
            reveal_strlit("FatArrow");
            reveal_strlit("Dot");
            reveal_strlit("Comma");
            reveal_strlit("Lt");
            reveal_strlit("Gt");
            reveal_strlit("Lte");
            reveal_strlit("Gte");
            reveal_strlit("LeftParen");
            reveal_strlit("RightParen");
            reveal_strlit("LeftBrace");
            reveal_strlit("RightBrace");
            reveal_strlit("LeftBracket");
            reveal_strlit("RightBracket");
            reveal_strlit("Eof");
        }
        match self {
            TokenKind::True => "True",
            TokenKind::False => "False",
            TokenKind::Def => "Def",
            TokenKind::Func => "Func",
            TokenKind::Do => "Do",
            TokenKind::End => "End",
            TokenKind::Return => "Return",
            TokenKind::While => "While",
            TokenKind::Break => "Break",
            TokenKind::Continue => "Continue",
            TokenKind::If => "If",
            TokenKind::Then => "Then",
            TokenKind::ElseIf => "ElseIf",
            TokenKind::Else => "Else",
            TokenKind::NoneKw => "None",
            TokenKind::And => "And",
            TokenKind::Or => "Or",
            TokenKind::Not => "Not",
            TokenKind::Class => "Class",
            TokenKind::Extern => "Extern",
            TokenKind::Ident => "Ident",
            TokenKind::Comment => "Comment",
            TokenKind::Number => "Number",
            TokenKind::String => "String",
            TokenKind::Plus => "Plus",
            TokenKind::Minus => "Minus",
            TokenKind::Asterisk => "Asterisk",
            TokenKind::Slash => "Slash",
            TokenKind::Sign => "Sign",
            TokenKind::Eq => "Eq",
            TokenKind::EqEq => "EqEq",
            TokenKind::Neq => "Neq",
            TokenKind::Arrow => "Arrow",
            TokenKind::FatArrow => "FatArrow",
            TokenKind::Dot => "Dot",
            TokenKind::Comma => "Comma",
            TokenKind::Lt => "Lt",
            TokenKind::Gt => "Gt",
            TokenKind::Lte => "Lte",
            TokenKind::Gte => "Gte",
            TokenKind::LeftParen => "LeftParen",
            TokenKind::RightParen => "RightParen",
            TokenKind::LeftBrace => "LeftBrace",
            TokenKind::RightBrace => "RightBrace",
            TokenKind::LeftBracket => "LeftBracket",
            TokenKind::RightBracket => "RightBracket",
            TokenKind::Eof => "Eof",
        }
    }
}

/// A token: its kind and the region of the source it was read from.
#[derive(Debug, Clone, Copy)]
pub struct Token<'src> {
    kind: TokenKind,
    span: Span<'src>,
}

impl<'src> Token<'src> {
    pub closed spec fn spec_kind(self) -> TokenKind {
        self.kind
    }

    pub closed spec fn spec_span(self) -> Span<'src> {
        self.span
    }

    /// The token of kind `kind` at `span`.
    pub closed spec fn spec_new(kind: TokenKind, span: Span<'src>) -> Token<'src> {
        Token { kind, span }
    }

    pub fn new(kind: TokenKind, span: Span<'src>) -> (t: Token<'src>)
        ensures
            t == Token::spec_new(kind, span),
            t.spec_kind() == kind,
            t.spec_span() == span,
    {
        Token { kind, span }
    }

    pub fn kind(&self) -> (k: TokenKind)
        ensures
            k == self.spec_kind(),
    {
        self.kind
    }

    pub fn span(&self) -> (s: Span<'src>)
        ensures
            s == self.spec_span(),
    {
        self.span
    }

    /// The source text of the token.
    pub fn value(&self) -> (v: &'src str)
        requires
            self.spec_span().valid(),
        ensures
            v.spec_bytes() == self.spec_span().spec_value_bytes(),
            v@ == self.spec_span().spec_text(),
    {
        self.span.value()
    }
}

/// The token made of a kind and a span has that kind and that span.
pub broadcast proof fn lemma_spec_new<'src>(kind: TokenKind, span: Span<'src>)
    ensures
        (#[trigger] Token::spec_new(kind, span)).spec_kind() == kind,
        Token::spec_new(kind, span).spec_span() == span,
{
}

/// A token made of the given kind and span is that token.
pub proof fn lemma_token_ext<'src>(a: Token<'src>, b: Token<'src>)
    requires
        a.spec_kind() == b.spec_kind(),
        a.spec_span() == b.spec_span(),
    ensures
        a == b,
{
}

/// Tokens read from one source, in order: each lies inside the source and on character
/// boundaries, and none starts before the previous one ends.
pub open spec fn coherent<'src>(tokens: Seq<Token<'src>>) -> bool {
    &&& forall|i: int| 0 <= i < tokens.len() ==> (#[trigger] tokens[i]).spec_span().valid()
    &&& forall|i: int|
        0 <= i < tokens.len() ==> (#[trigger] tokens[i]).spec_span().spec_source()
            == tokens[0].spec_span().spec_source() && tokens[i].spec_span().spec_file()
            == tokens[0].spec_span().spec_file()
    &&& forall|i: int, j: int|
        0 <= i < j < tokens.len() ==> (#[trigger] tokens[i]).spec_span().spec_position().spec_end()
            <= (#[trigger] tokens[j]).spec_span().spec_position().spec_start()
}

/// A stretch of coherent tokens is coherent.
pub proof fn lemma_coherent_subrange<'src>(tokens: Seq<Token<'src>>, lo: int, hi: int)
    requires
        coherent(tokens),
        0 <= lo <= hi <= tokens.len(),
    ensures
        coherent(tokens.subrange(lo, hi)),
{
    let sub = tokens.subrange(lo, hi);
    assert forall|i: int| 0 <= i < sub.len() implies (#[trigger] sub[i]).spec_span().spec_source()
        == sub[0].spec_span().spec_source() && sub[i].spec_span().spec_file()
        == sub[0].spec_span().spec_file() by {
        assert(sub[i] == tokens[lo + i]);
        assert(sub[0] == tokens[lo]);
    }
    assert forall|i: int, j: int| 0 <= i < j < sub.len() implies (#[trigger] sub[i]).spec_span().spec_position().spec_end()
        <= (#[trigger] sub[j]).spec_span().spec_position().spec_start() by {
        assert(sub[i] == tokens[lo + i]);
        assert(sub[j] == tokens[lo + j]);
    }
}

/// The span from the start of the first of `tokens` to the end of the last, in the first
/// one's source and file.
pub open spec fn covering<'src>(tokens: Seq<Token<'src>>) -> Span<'src> {
    join_spans(tokens[0].spec_span(), tokens.last().spec_span())
}

/// The span covering one token is that token's span.
pub proof fn lemma_cover_one<'src>(t: Token<'src>)
    ensures
        covering(seq![t]) == t.spec_span(),
{
    lemma_span_rebuild(t.spec_span());
}

/// Where coherent tokens are `a`, then `m`, then `b`, with `a` and `b` not empty, both `a`
/// and `b` are coherent, their covering spans can be joined, and joining them gives the
/// covering span of the whole.
pub proof fn lemma_cover_parts<'src>(a: Seq<Token<'src>>, m: Seq<Token<'src>>, b: Seq<Token<'src>>)
    requires
        coherent(a + m + b),
        a.len() > 0,
        b.len() > 0,
    ensures
        coherent(a),
        coherent(b),
        covering(a).spec_position().spec_start() <= covering(b).spec_position().spec_end(),
        covering(b).spec_position().spec_end() <= covering(a).spec_source().spec_bytes().len(),
        covering(a + m + b) == join_spans(covering(a), covering(b)),
{
    let t = a + m + b;
    let n = t.len() as int;
    lemma_coherent_subrange(t, 0, a.len() as int);
    lemma_coherent_subrange(t, n - b.len(), n);
    assert(t.subrange(0, a.len() as int) =~= a);
    assert(t.subrange(n - b.len(), n) =~= b);
    assert(t[0] == a[0]);
    assert(t[n - 1] == b.last());
    assert(t[0].spec_span().valid());
    assert(t[n - 1].spec_span().valid());
    if n > 1 {
        assert(t[0].spec_span().spec_position().spec_end() <= t[n - 1].spec_span().spec_position().spec_start());
    }
    assert(t[n - 1].spec_span().spec_source() == t[0].spec_span().spec_source());
}

/// The covering span of coherent tokens can be cut out of their source.
pub proof fn lemma_cover_bounds<'src>(t: Seq<Token<'src>>)
    requires
        coherent(t),
        t.len() > 0,
    ensures
        covering(t).valid(),
{
    let n = t.len() as int;
    assert(t[0].spec_span().valid());
    assert(t[n - 1].spec_span().valid());
    if n > 1 {
        assert(t[0].spec_span().spec_position().spec_end() <= t[n - 1].spec_span().spec_position().spec_start());
    }
    assert(t[n - 1].spec_span().spec_source() == t[0].spec_span().spec_source());
}

/// Within coherent tokens, the run `a1..a2` and a run `b1..b2` that does not end before
/// `a1` begins have covering spans that can be joined; the joined span is the covering span
/// of `a1..b2`.
pub proof fn lemma_join_runs<'src>(t: Seq<Token<'src>>, a1: int, a2: int, b1: int, b2: int)
    requires
        coherent(t),
        0 <= a1 < a2 <= t.len(),
        0 <= b1 < b2 <= t.len(),
        a1 < b2,
    ensures
        coherent(t.subrange(a1, a2)),
        coherent(t.subrange(b1, b2)),
        covering(t.subrange(a1, a2)).spec_position().spec_start() <= covering(
            t.subrange(b1, b2),
        ).spec_position().spec_end(),
        covering(t.subrange(b1, b2)).spec_position().spec_end() <= covering(
            t.subrange(a1, a2),
        ).spec_source().spec_bytes().len(),
        join_spans(covering(t.subrange(a1, a2)), covering(t.subrange(b1, b2))) == covering(
            t.subrange(a1, b2),
        ),
        covering(t.subrange(a1, b2)).valid(),
{
    lemma_coherent_subrange(t, a1, a2);
    lemma_coherent_subrange(t, b1, b2);
    lemma_coherent_subrange(t, a1, b2);
    assert(t.subrange(a1, a2)[0] == t[a1]);
    assert(t.subrange(b1, b2).last() == t[b2 - 1]);
    assert(t.subrange(a1, b2)[0] == t[a1]);
    assert(t.subrange(a1, b2).last() == t[b2 - 1]);
    assert(t[a1].spec_span().valid());
    assert(t[b2 - 1].spec_span().valid());
    if a1 < b2 - 1 {
        assert(t[a1].spec_span().spec_position().spec_end() <= t[b2 - 1].spec_span().spec_position().spec_start());
    }
    assert(t[b2 - 1].spec_span().spec_source() == t[0].spec_span().spec_source());
    assert(t[a1].spec_span().spec_source() == t[0].spec_span().spec_source());
    lemma_cover_bounds(t.subrange(a1, b2));
}

} // verus!
