//! A cursor over a buffer of tokens, which the parser reads from.

use vstd::prelude::*;
use vstd::string::StringExecFns;
use crate::errors::{
    Internal, ParseError, ParseErrorKind, ParseResult, UnexpectedToken, is_internal, is_unexpected,
    is_unspanned,
};
use crate::ast::grammar::read_as;
use crate::ast::parse::Parse;
use crate::lexer::{Token, TokenKind, coherent};

verus! {

broadcast use vstd::string::group_string_axioms;

/// A buffer of tokens and the index of the next token to read.
#[derive(Debug)]
pub struct ParseStream<'src> {
    buffer: &'src [Token<'src>],
    /// Index of the next token in the buffer.
    cursor: usize,
}

/// The message of the error reported when the input ends where a token was expected.
pub open spec fn end_of_input_message() -> Seq<char> {
    "unexpected end of input"@
}

impl<'src> ParseStream<'src> {
    /// The cursor never passes the end of the buffer.
    #[verifier::type_invariant]
    closed spec fn cursor_in_buffer(self) -> bool {
        self.cursor <= self.buffer@.len()
    }

    /// The tokens of the stream, read or not.
    pub closed spec fn spec_buffer(self) -> Seq<Token<'src>> {
        self.buffer@
    }

    /// The index of the next token to read.
    pub closed spec fn spec_cursor(self) -> nat {
        self.cursor as nat
    }

    /// The cursor lies inside the buffer, and the tokens were read in order from one source,
    /// as a lexer gives them.
    pub open spec fn wf(self) -> bool {
        &&& self.spec_cursor() <= self.spec_buffer().len()
        &&& self.spec_buffer().len() <= usize::MAX
        &&& coherent(self.spec_buffer())
    }

    /// The number of tokens left to read.
    pub open spec fn spec_len(self) -> nat {
        if self.spec_cursor() <= self.spec_buffer().len() {
            (self.spec_buffer().len() - self.spec_cursor()) as nat
        } else {
            0
        }
    }

    /// Every token has been read.
    pub open spec fn spec_is_empty(self) -> bool {
        self.spec_len() == 0
    }

    /// The current token: the last one read. `None` while no token has been read, and
    /// once every token has been read.
    pub open spec fn spec_current(self) -> Option<Token<'src>> {
        if self.spec_is_empty() || self.spec_cursor() == 0 {
            None
        } else {
            Some(self.spec_buffer()[self.spec_cursor() - 1])
        }
    }

    /// The token at which a missing next token is reported: the last one read, or the
    /// first one while none has been read; `None` once every token has been read.
    pub open spec fn spec_error_anchor(self) -> Option<Token<'src>> {
        if self.spec_is_empty() {
            None
        } else if self.spec_cursor() == 0 {
            Some(self.spec_buffer()[0])
        } else {
            Some(self.spec_buffer()[self.spec_cursor() - 1])
        }
    }

    /// The next token, unless every token has been read or the next one ends the input.
    pub open spec fn spec_peek(self) -> Option<Token<'src>> {
        if self.spec_is_empty() || self.spec_buffer()[self.spec_cursor() as int].spec_kind()
            == TokenKind::Eof {
            None
        } else {
            Some(self.spec_buffer()[self.spec_cursor() as int])
        }
    }

    /// The token `offset` places after the next one, unless there is none or it ends the
    /// input.
    pub open spec fn spec_peek_at(self, offset: nat) -> Option<Token<'src>> {
        let i = self.spec_cursor() + offset;
        if i < self.spec_buffer().len() && self.spec_buffer()[i as int].spec_kind()
            != TokenKind::Eof {
            Some(self.spec_buffer()[i as int])
        } else {
            None
        }
    }

    /// The next token is there and is of kind `kind`.
    pub open spec fn next_is(self, kind: TokenKind) -> bool {
        self.spec_peek() matches Some(t) && t.spec_kind() == kind
    }

    /// `after` is this stream with the cursor moved forward, or left where it was.
    pub open spec fn moved_to(self, after: Self) -> bool {
        &&& after.spec_buffer() == self.spec_buffer()
        &&& self.spec_cursor() <= after.spec_cursor()
        &&& after.spec_cursor() <= after.spec_buffer().len()
    }

    /// The tokens read between this stream and `after`.
    pub open spec fn taken(self, after: Self) -> Seq<Token<'src>> {
        self.spec_buffer().subrange(self.spec_cursor() as int, after.spec_cursor() as int)
    }

    /// `e` is the error that `expect_peek` reports where no next token is there: an
    /// internal error pointing nowhere once every token has been read, else an unexpected
    /// end of input at the last token read (the first one while none has been read).
    pub open spec fn is_peek_error(self, e: ParseError<'src>) -> bool {
        match self.spec_error_anchor() {
            None => is_unspanned(e) && is_internal(e, end_of_input_message()),
            Some(t) => is_unexpected(e, t.spec_span(), TokenKind::Eof, None),
        }
    }

    /// `e` is the error that `expect(kind)` reports where the next token is missing or of
    /// another kind.
    pub open spec fn is_expect_error(self, kind: TokenKind, e: ParseError<'src>) -> bool {
        match self.spec_peek() {
            None => self.is_peek_error(e),
            Some(t) => t.spec_kind() != kind && is_unexpected(
                e,
                t.spec_span(),
                t.spec_kind(),
                Some(kind),
            ),
        }
    }

    /// Creates a stream over `buffer`, before its first token.
    pub fn new(buffer: &'src [Token<'src>]) -> (stream: Self)
        ensures
            stream.spec_buffer() == buffer@,
            stream.spec_cursor() == 0,
            stream.spec_buffer().len() <= usize::MAX,
    {
        let _ = buffer.len();
        ParseStream { buffer, cursor: 0 }
    }

    /// The number of tokens, read or not.
    pub fn untracked_len(&self) -> (n: usize)
        ensures
            n == self.spec_buffer().len(),
    {
        self.buffer.len()
    }

    /// The number of tokens left to read.
    pub fn len(&self) -> (n: usize)
        ensures
            n == self.spec_len(),
    {
        proof {
            use_type_invariant(self);
        }
        self.buffer.len() - self.cursor
    }

    /// Whether the buffer holds no token at all.
    pub fn untracked_is_empty(&self) -> (empty: bool)
        ensures
            empty == (self.spec_buffer().len() == 0),
    {
        self.buffer.len() == 0
    }

    /// Whether every token has been read.
    pub fn is_empty(&self) -> (empty: bool)
        ensures
            empty == self.spec_is_empty(),
    {
        self.len() == 0 || self.untracked_is_empty()
    }

    /// The index of the next token to read.
    pub fn cursor(&self) -> (c: usize)
        ensures
            c == self.spec_cursor(),
            c <= self.spec_buffer().len(),
    {
        proof {
            use_type_invariant(self);
        }
        self.cursor
    }

    /// Moves the cursor to `cursor`, or to the end of the buffer where `cursor` lies past it.
    pub fn set_cursor(&mut self, cursor: usize)
        ensures
            final(self).spec_buffer() == old(self).spec_buffer(),
            final(self).spec_cursor() == if cursor <= old(self).spec_buffer().len() {
                cursor as nat
            } else {
                old(self).spec_buffer().len()
            },
    {
        let len = self.buffer.len();
        let cursor = if cursor < len {
            cursor
        } else {
            len
        };
        self.cursor = cursor;
    }

    /// The current token: the last one read. `None` while no token has been read, and
    /// once every token has been read.
    pub fn current(&self) -> (t: Option<Token<'src>>)
        ensures
            t == self.spec_current(),
    {
        if self.is_empty() || self.cursor == 0 {
            return None;
        }
        Some(self.buffer[self.cursor - 1])
    }

    /// The token at which a missing next token is reported: the last one read, or the
    /// first one while none has been read; `None` once every token has been read.
    fn error_anchor(&self) -> (t: Option<Token<'src>>)
        ensures
            t == self.spec_error_anchor(),
    {
        if self.is_empty() {
            return None;
        }
        let cursor = if self.cursor == 0 {
            0
        } else {
            self.cursor - 1
        };
        Some(self.buffer[cursor])
    }

    /// Reads the next token; `None` once every token has been read.
    pub fn next(&mut self) -> (t: Option<Token<'src>>)
        ensures
            final(self).spec_buffer() == old(self).spec_buffer(),
            old(self).spec_is_empty() ==> t is None && final(self).spec_cursor()
                == old(self).spec_cursor(),
            !old(self).spec_is_empty() ==> t == Some(
                old(self).spec_buffer()[old(self).spec_cursor() as int],
            ) && final(self).spec_cursor() == old(self).spec_cursor() + 1,
            final(self).spec_cursor() <= final(self).spec_buffer().len(),
    {
        proof {
            use_type_invariant(&*self);
        }
        if self.is_empty() {
            return None;
        }
        let cursor = self.cursor;
        let value = self.buffer[cursor];
        self.cursor = cursor + 1;
        Some(value)
    }

    /// The next token, without reading it; `None` once every token has been read or where
    /// the next token ends the input.
    pub fn peek(&self) -> (t: Option<Token<'src>>)
        ensures
            t == self.spec_peek(),
    {
        if self.is_empty() {
            return None;
        }
        let t = self.buffer[self.cursor];
        match t.kind() {
            TokenKind::Eof => None,
            _ => Some(t),
        }
    }

    /// The next token, without reading it, or an error where there is none: an internal
    /// error once every token has been read, or an unexpected end of input at the current
    /// token where the next token ends the input.
    pub fn expect_peek(&self) -> (r: ParseResult<'src, Token<'src>>)
        ensures
            self.spec_peek() matches Some(t) ==> r == Ok::<Token<'src>, ParseError<'src>>(t),
            self.spec_peek() is None ==> (r matches Err(e) && self.is_peek_error(e)),
    {
        let token = match self.error_anchor() {
            Some(t) => t,
            None => {
                let message = String::from_str("unexpected end of input");
                proof {
                    reveal_strlit("unexpected end of input");
                }
                return Err(
                    ParseError::new_unspanned(ParseErrorKind::Internal(Internal(message))),
                );
            },
        };
        let span = token.span();
        match self.peek() {
            Some(t) => Ok(t),
            None => Err(
                ParseError::new(
                    span,
                    ParseErrorKind::UnexpectedToken(
                        UnexpectedToken { found: TokenKind::Eof, expected: None },
                    ),
                ),
            ),
        }
    }

    /// Reads the next token, or reports the error of [`Self::expect_peek`] and reads nothing.
    pub fn expect_next(&mut self) -> (r: ParseResult<'src, Token<'src>>)
        ensures
            final(self).spec_buffer() == old(self).spec_buffer(),
            old(self).spec_peek() matches Some(t) ==> r == Ok::<Token<'src>, ParseError<'src>>(t)
                && final(self).spec_cursor() == old(self).spec_cursor() + 1,
            old(self).spec_peek() is None ==> (r matches Err(e) && old(self).is_peek_error(e)
                && final(self).spec_cursor() == old(self).spec_cursor()),
            final(self).spec_cursor() <= final(self).spec_buffer().len(),
    {
        proof {
            use_type_invariant(&*self);
        }
        let result = self.expect_peek();
        if result.is_ok() {
            let _ = self.next();
        }
        result
    }

    /// The next token if it is of kind `kind`, without reading it.
    pub fn peek_matches(&self, kind: TokenKind) -> (t: Option<Token<'src>>)
        ensures
            self.next_is(kind) ==> t == self.spec_peek(),
            !self.next_is(kind) ==> t is None,
    {
        match self.peek() {
            Some(t) => if t.kind() == kind {
                Some(t)
            } else {
                None
            },
            None => None,
        }
    }

    /// Reads the next token and checks that it is of kind `kind`. Where there is no next
    /// token, reports the error of [`Self::expect_peek`]; where the token read is of another
    /// kind, reports it as unexpected, at its span.
    pub fn expect(&mut self, kind: TokenKind) -> (r: ParseResult<'src, Token<'src>>)
        ensures
            final(self).spec_buffer() == old(self).spec_buffer(),
            final(self).spec_cursor() <= final(self).spec_buffer().len(),
            old(self).spec_peek() is None ==> (r matches Err(e) && old(self).is_peek_error(e)
                && final(self).spec_cursor() == old(self).spec_cursor()),
            old(self).spec_peek() matches Some(t) ==> final(self).spec_cursor()
                == old(self).spec_cursor() + 1 && if t.spec_kind() == kind {
                r == Ok::<Token<'src>, ParseError<'src>>(t)
            } else {
                (r matches Err(e) && is_unexpected(e, t.spec_span(), t.spec_kind(), Some(kind)))
            },
    {
        let token = match self.expect_next() {
            Ok(t) => t,
            Err(e) => return Err(e),
        };
        if token.kind() != kind {
            let span = token.span();
            return Err(
                ParseError::new(
                    span,
                    ParseErrorKind::UnexpectedToken(
                        UnexpectedToken { found: token.kind(), expected: Some(kind) },
                    ),
                ),
            );
        }
        Ok(token)
    }

    /// Reads a node of type `T`, as [`Parse::read_end`] says.
    pub fn parse<T: Parse<'src>>(&mut self) -> (r: ParseResult<'src, T>)
        requires
            old(self).wf(),
        ensures
            old(self).moved_to(*final(self)),
            read_as(
                r,
                T::read_end(old(self).spec_buffer(), old(self).spec_cursor() as int),
                old(self).spec_buffer(),
                *final(self),
            ),
            r matches Ok(n) ==> n.node_wf() && old(self).taken(*final(self)) == n.node_tokens(),
    {
        T::parse(self)
    }

    /// Reads a node of type `T`, as [`Parse::read_end`] says; where that fails, reads
    /// nothing.
    pub fn try_parse<T: Parse<'src>>(&mut self) -> (r: ParseResult<'src, T>)
        requires
            old(self).wf(),
        ensures
            old(self).moved_to(*final(self)),
            read_as(
                r,
                T::read_end(old(self).spec_buffer(), old(self).spec_cursor() as int),
                old(self).spec_buffer(),
                *final(self),
            ),
            r matches Ok(n) ==> n.node_wf() && old(self).taken(*final(self)) == n.node_tokens(),
            r is Err ==> final(self).spec_cursor() == old(self).spec_cursor(),
    {
        let save = self.cursor();
        let r = T::parse(self);
        if r.is_err() {
            self.set_cursor(save);
        }
        r
    }

    /// Reads with `parse`, called on a stream over the same tokens at the same place, and
    /// gives what it gave. Where that succeeds, the cursor moves to where `parse` left its
    /// stream (to the end of the tokens, where `parse` left it further); where it fails,
    /// nothing is read.
    pub fn try_parse_with<T, F: FnOnce(&mut ParseStream<'src>) -> ParseResult<'src, T>>(
        &mut self,
        parse: F,
    ) -> (r: ParseResult<'src, T>)
        requires
            forall|s: &mut ParseStream<'src>| #[trigger] call_requires(parse, (s,)),
        ensures
            final(self).spec_buffer() == old(self).spec_buffer(),
            r is Err ==> final(self).spec_cursor() == old(self).spec_cursor(),
            exists|s: &mut ParseStream<'src>|
                {
                    &&& #[trigger] call_ensures(parse, (s,), r)
                    &&& mut_ref_current(s).spec_buffer() == old(self).spec_buffer()
                    &&& mut_ref_current(s).spec_cursor() == old(self).spec_cursor()
                    &&& r is Ok ==> final(self).spec_cursor() == if mut_ref_future(s).spec_cursor()
                        <= old(self).spec_buffer().len() {
                        mut_ref_future(s).spec_cursor()
                    } else {
                        old(self).spec_buffer().len()
                    }
                },
    {
        let mut fork = self.fork();
        let ghost before = fork;
        let result = parse(&mut fork);
        proof {
            assert(exists|s: &mut ParseStream<'src>|
                #[trigger] call_ensures(parse, (s,), result) && mut_ref_current(s) == before
                    && mut_ref_future(s) == fork);
        }
        if result.is_ok() {
            self.set_cursor(fork.cursor());
        }
        result
    }

    /// A stream over the same buffer with its own cursor, at the same place.
    pub fn fork(&self) -> (f: Self)
        ensures
            f.spec_buffer() == self.spec_buffer(),
            f.spec_cursor() == self.spec_cursor(),
    {
        proof {
            use_type_invariant(self);
        }
        ParseStream { buffer: self.buffer, cursor: self.cursor }
    }
}

/// What is read from one stream to a second and from there to a third is what is read from
/// the first to the third.
pub proof fn lemma_taken_concat<'src>(a: ParseStream<'src>, b: ParseStream<'src>, c: ParseStream<'src>)
    requires
        a.moved_to(b),
        b.moved_to(c),
    ensures
        a.moved_to(c),
        a.taken(c) == a.taken(b) + b.taken(c),
{
    assert(a.taken(c) =~= a.taken(b) + b.taken(c));
}

/// The tokens of a well-formed stream can be cut out of their source.
pub proof fn lemma_tokens_valid<'src>(s: ParseStream<'src>, i: int)
    requires
        s.wf(),
        0 <= i < s.spec_buffer().len(),
    ensures
        s.spec_buffer()[i].spec_span().valid(),
{
}

/// Reading one token takes exactly that token.
pub proof fn lemma_taken_one<'src>(a: ParseStream<'src>, b: ParseStream<'src>)
    requires
        a.moved_to(b),
        b.spec_cursor() == a.spec_cursor() + 1,
    ensures
        a.taken(b) == seq![a.spec_buffer()[a.spec_cursor() as int]],
{
    assert(a.taken(b) =~= seq![a.spec_buffer()[a.spec_cursor() as int]]);
}

/// Reading nothing takes no token.
pub proof fn lemma_taken_none<'src>(a: ParseStream<'src>, b: ParseStream<'src>)
    requires
        a.moved_to(b),
        b.spec_cursor() == a.spec_cursor(),
    ensures
        a.taken(b) == Seq::<Token<'src>>::empty(),
{
    assert(a.taken(b) =~= Seq::<Token<'src>>::empty());
}

} // verus!
