//! Errors that point at a region of the source.

use vstd::prelude::*;
use crate::lexer::TokenKind;
use crate::span::{Position, Span};
use vstd::string::StringSliceAdditionalSpecFns;

verus! {

/// The kinds of error that can be reported with a [`PrettyError`].
pub trait PrettyErrorKind {}

/// An error of some kind at a region of a named source.
#[derive(Debug)]
pub struct PrettyError<'s, Kind> {
    pub span: Span<'s>,
    pub kind: Kind,
}

impl<'s, Kind> PrettyError<'s, Kind> {
    pub fn new(span: Span<'s>, kind: Kind) -> (e: Self)
        ensures
            e.span == span,
            e.kind == kind,
    {
        PrettyError { span, kind }
    }

    /// An error that points at no source: its span is empty, in an empty source and file.
    pub fn new_unspanned(kind: Kind) -> (e: Self)
        ensures
            e.span.spec_source()@.len() == 0,
            e.span.spec_file()@.len() == 0,
            e.span.spec_position().spec_start() == 0,
            e.span.spec_position().spec_end() == 0,
            e.kind == kind,
    {
        proof {
            reveal_strlit("");
        }
        let position = Position::new(0, 0);
        let span = Span::new_unchecked("", "", position);
        Self::new(span, kind)
    }

    /// An error at `position` of `source`, which the position may not reach past.
    pub fn from_raw_parts(source: &'s str, file: &'s str, position: Position, kind: Kind) -> (e: Self)
        requires
            position.spec_end() <= source.spec_bytes().len(),
        ensures
            e.span.spec_source() == source,
            e.span.spec_file() == file,
            e.span.spec_position() == position,
            e.kind == kind,
    {
        let span = Span::new(source, file, position);
        Self::new(span, kind)
    }
}

/// An error inside the parser, with a message.
#[derive(Debug, Clone)]
pub struct Internal(pub String);

/// A token that the parser did not expect, and the kind it expected there, if one.
#[derive(Debug, Clone, Copy)]
pub struct UnexpectedToken {
    pub found: TokenKind,
    pub expected: Option<TokenKind>,
}

/// What went wrong while parsing.
#[derive(Debug, Clone)]
pub enum ParseErrorKind {
    Internal(Internal),
    UnexpectedToken(UnexpectedToken),
}

impl PrettyErrorKind for ParseErrorKind {}

impl Internal {
    /// The headline of an internal error.
    pub fn message(&self) -> (m: &'static str)
        ensures
            m@ == "internal parser error"@,
    {
        proof {
            reveal_strlit("internal parser error");
        }
        "internal parser error"
    }
}

impl UnexpectedToken {
    /// The headline of an unexpected token.
    pub fn message(&self) -> (m: &'static str)
        ensures
            m@ == "unexpected token"@,
    {
        proof {
            reveal_strlit("unexpected token");
        }
        "unexpected token"
    }
}

impl ParseErrorKind {
    /// The headline of the error: that of its kind.
    pub fn message(&self) -> (m: &'static str)
        ensures
            m@ == match *self {
                ParseErrorKind::Internal(_) => "internal parser error"@,
                ParseErrorKind::UnexpectedToken(_) => "unexpected token"@,
            },
    {
        match self {
            ParseErrorKind::Internal(e) => e.message(),
            ParseErrorKind::UnexpectedToken(e) => e.message(),
        }
    }
}

/// An error of the parser.
pub type ParseError<'s> = PrettyError<'s, ParseErrorKind>;

/// `e` points at no source: its span is empty, in an empty source and file.
pub open spec fn is_unspanned<'s, Kind>(e: PrettyError<'s, Kind>) -> bool {
    &&& e.span.spec_source()@.len() == 0
    &&& e.span.spec_file()@.len() == 0
    &&& e.span.spec_position().spec_start() == 0
    &&& e.span.spec_position().spec_end() == 0
}

/// `e` is an internal error with the message `message`.
pub open spec fn is_internal<'s>(e: ParseError<'s>, message: Seq<char>) -> bool {
    e.kind matches ParseErrorKind::Internal(Internal(m)) && m@ == message
}

/// `e` reports a token of kind `found` at `span` where `expected` was expected.
pub open spec fn is_unexpected<'s>(
    e: ParseError<'s>,
    span: Span<'s>,
    found: TokenKind,
    expected: Option<TokenKind>,
) -> bool {
    &&& e.span == span
    &&& e.kind matches ParseErrorKind::UnexpectedToken(u)
    &&& u.found == found
    &&& u.expected == expected
}

/// What a parse gives back.
pub type ParseResult<'s, T> = Result<T, ParseError<'s>>;

} // verus!
