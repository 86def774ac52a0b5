//! The grammar of the language, as the parser reads it: for each construct, whether it can
//! be read from a given position of a token sequence, and where it then ends.
//!
//! Each function returns the position after the last token of the construct, or, where
//! the construct cannot be read there, the failure that the parser reports. Choices are made as the parser makes them:
//! alternatives are tried in a fixed order, repetitions read as many items as they can,
//! and expressions group by the binding powers of their operators.
//!
//! Positions only move forward. Where a construct continues after a part of it, the
//! functions check that the part ended after where it began (`forward`), which always
//! holds of a part that was read; the check keeps the definitions well founded.

use vstd::prelude::*;
use crate::ast::nodes::{BinaryExpr, BinaryOp, Expr, Term, binary_op_token, spec_binding_power};
use crate::ast::parse::{
    binary_op_of, empty_list_message, is_lit_kind, no_statement_message, not_binary_message,
    not_self_message, not_unary_message, unary_op_of, unknown_literal_message,
    unsupported_term_message, wrong_variant_message,
};
use crate::errors::{ParseError, ParseResult, is_internal, is_unexpected, is_unspanned};
use crate::lexer::{Token, TokenKind, covering};
use crate::span::Span;
use crate::stream::{ParseStream, end_of_input_message};

verus! {

/// The token at `pos`, unless `pos` lies outside `toks` or the token there ends the input.
pub open spec fn token_at<'src>(toks: Seq<Token<'src>>, pos: int) -> Option<Token<'src>> {
    if 0 <= pos < toks.len() && toks[pos].spec_kind() != TokenKind::Eof {
        Some(toks[pos])
    } else {
        None
    }
}

/// The next token of a stream is the token at its cursor.
pub broadcast proof fn lemma_peek_is_token_at<'src>(s: ParseStream<'src>)
    requires
        s.spec_cursor() <= s.spec_buffer().len(),
    ensures
        #[trigger] s.spec_peek() == token_at(s.spec_buffer(), s.spec_cursor() as int),
{
}

/// The token at `pos` is there and is of kind `kind`.
pub open spec fn is_at<'src>(toks: Seq<Token<'src>>, pos: int, kind: TokenKind) -> bool {
    token_at(toks, pos) matches Some(t) && t.spec_kind() == kind
}

/// `to` lies after `from`, within the tokens or at their end.
pub open spec fn forward<'src>(toks: Seq<Token<'src>>, from: int, to: int) -> bool {
    0 <= from < to <= toks.len()
}

/// The number of tokens from `pos` to the end.
pub open spec fn rest<'src>(toks: Seq<Token<'src>>, pos: int) -> nat {
    if 0 <= pos <= toks.len() {
        (toks.len() - pos) as nat
    } else {
        0
    }
}

/// The token at `pos` is the identifier `self`.
pub open spec fn self_at<'src>(toks: Seq<Token<'src>>, pos: int) -> bool {
    is_at(toks, pos, TokenKind::Ident) && toks[pos].spec_span().spec_text() == "self"@
}

/// Where the identifiers from `pos` end: an identifier, and after a comma the identifiers
/// that follow it; nothing where no identifier is at `pos`.
pub open spec fn idents_from<'src>(toks: Seq<Token<'src>>, pos: int) -> int
    decreases rest(toks, pos),
{
    if is_at(toks, pos, TokenKind::Ident) {
        if is_at(toks, pos + 1, TokenKind::Comma) {
            idents_from(toks, pos + 2)
        } else {
            pos + 1
        }
    } else {
        pos
    }
}

/// Why a construct cannot be read where it was to be read, as the parser reports it.
pub ghost enum Failure<'src> {
    /// The token at the position is missing or is not of the kind the construct needs.
    Expected(int, TokenKind),
    /// No token is at the position.
    Missing(int),
    /// A token of the first kind, at the span, where one of the second kind was needed.
    Unexpected(Span<'src>, TokenKind, Option<TokenKind>),
    /// An internal error at the span, with the message.
    Internal(Span<'src>, Seq<char>),
    /// An internal error that points nowhere, with the message.
    Unspanned(Seq<char>),
}

/// The token at which a missing token at `pos` is reported: the last one read before `pos`,
/// or the first one while none was read; `None` once every token was read.
pub open spec fn error_anchor_at<'src>(toks: Seq<Token<'src>>, pos: int) -> Option<Token<'src>> {
    if rest(toks, pos) == 0 {
        None
    } else if pos == 0 {
        Some(toks[0])
    } else {
        Some(toks[pos - 1])
    }
}

/// `e` is the error reported where no token is at `pos`.
pub open spec fn missing_error<'src>(toks: Seq<Token<'src>>, pos: int, e: ParseError<'src>) -> bool {
    match error_anchor_at(toks, pos) {
        None => is_unspanned(e) && is_internal(e, end_of_input_message()),
        Some(t) => is_unexpected(e, t.spec_span(), TokenKind::Eof, None),
    }
}

/// `e` is the error the parser reports for the failure `f`.
pub open spec fn reported_as<'src>(toks: Seq<Token<'src>>, f: Failure<'src>, e: ParseError<'src>) -> bool {
    match f {
        Failure::Expected(pos, kind) => match token_at(toks, pos) {
            None => missing_error(toks, pos, e),
            Some(t) => t.spec_kind() != kind && is_unexpected(
                e,
                t.spec_span(),
                t.spec_kind(),
                Some(kind),
            ),
        },
        Failure::Missing(pos) => missing_error(toks, pos, e),
        Failure::Unexpected(span, found, expected) => is_unexpected(e, span, found, expected),
        Failure::Internal(span, message) => e.span == span && is_internal(e, message),
        Failure::Unspanned(message) => is_unspanned(e) && is_internal(e, message),
    }
}

/// The token of kind `kind` at `pos`: where the token after it lies, or why it is not there.
pub open spec fn expect_at<'src>(toks: Seq<Token<'src>>, pos: int, kind: TokenKind) -> Result<
    int,
    Failure<'src>,
> {
    if is_at(toks, pos, kind) {
        Ok(pos + 1)
    } else {
        Err(Failure::Expected(pos, kind))
    }
}

/// A comma-separated list of identifiers, with at least one.
pub open spec fn ident_list_end<'src>(toks: Seq<Token<'src>>, pos: int) -> Result<int, Failure<'src>> {
    if is_at(toks, pos, TokenKind::Ident) {
        Ok(idents_from(toks, pos))
    } else {
        Err(Failure::Unspanned(empty_list_message()))
    }
}

/// The arguments of a function: `self`, then, after a comma, identifiers; or identifiers
/// alone. An identifier right after `self` is reported as unexpected where a comma was
/// needed.
pub open spec fn func_args_end<'src>(toks: Seq<Token<'src>>, pos: int) -> Result<int, Failure<'src>> {
    if self_at(toks, pos) {
        if is_at(toks, pos + 1, TokenKind::Comma) {
            Ok(idents_from(toks, pos + 2))
        } else if is_at(toks, pos + 1, TokenKind::Ident) {
            Err(Failure::Unexpected(toks[pos + 1].spec_span(), TokenKind::Ident, Some(TokenKind::Comma)))
        } else {
            Ok(pos + 1)
        }
    } else {
        Ok(idents_from(toks, pos))
    }
}

/// What a term was last extended by.
pub ghost enum Suffix {
    /// Nothing: the term is a parenthesized expression, a literal, an identifier, a
    /// function, a list, an object or `extern ...`.
    Base,
    Call,
    Index,
    Field,
}

/// What `t` was last extended by, as [`Term::parse`] builds it.
pub open spec fn suffix_of<'src>(t: Term<'src>) -> Suffix {
    match t {
        Term::Call(_) => Suffix::Call,
        Term::IndexAcc(_) => Suffix::Index,
        Term::FieldAcc(_) => Suffix::Field,
        _ => Suffix::Base,
    }
}

/// The message of the error reported where a term is read that was not last extended by
/// `suffix`, one of the three extensions the parser asks a term for.
pub open spec fn suffix_message(suffix: Suffix) -> Seq<char> {
    match suffix {
        Suffix::Call => wrong_variant_message("Call"@),
        Suffix::Index => wrong_variant_message("IndexAcc"@),
        Suffix::Field => wrong_variant_message("FieldAcc"@),
        Suffix::Base => wrong_variant_message(seq![]),
    }
}

/// A term that was last extended by `suffix`, and where it ends. A term last extended
/// otherwise is reported at its span, after it was read.
pub open spec fn term_ending_with<'src>(toks: Seq<Token<'src>>, pos: int, suffix: Suffix) -> Result<
    int,
    Failure<'src>,
> {
    match term_end(toks, pos) {
        Ok((p, s)) => if s == suffix {
            Ok(p)
        } else {
            Err(Failure::Internal(covering(toks.subrange(pos, p)), suffix_message(suffix)))
        },
        Err(f) => Err(f),
    }
}

/// A read that returned `r` and left the stream at `after` went as the grammar says:
/// it succeeded exactly where `end` succeeds, and then ended where `end` says; else it
/// reported the failure that `end` gives.
pub open spec fn read_as<'src, T>(
    r: ParseResult<'src, T>,
    end: Result<int, Failure<'src>>,
    toks: Seq<Token<'src>>,
    after: ParseStream<'src>,
) -> bool {
    &&& r is Ok <==> end is Ok
    &&& r is Ok ==> end == Ok::<int, Failure<'src>>(after.spec_cursor() as int)
    &&& r matches Err(e) ==> end matches Err(f) && reported_as(toks, f, e)
}

/// A term: a parenthesized expression, a literal, an identifier, a function, a list, an
/// object or `extern ...`, extended by as many calls, index accesses and field accesses as
/// follow. Gives where it ends and what it was last extended by. Another token is reported
/// at its span.
pub open spec fn term_end<'src>(toks: Seq<Token<'src>>, pos: int) -> Result<(int, Suffix), Failure<'src>>
    decreases rest(toks, pos), 3nat,
{
    let base = match token_at(toks, pos) {
        Some(t) => {
            let k = t.spec_kind();
            if k == TokenKind::LeftParen {
                paren_end(toks, pos)
            } else if is_lit_kind(k) || k == TokenKind::Ident {
                Ok(pos + 1)
            } else if k == TokenKind::Func {
                func_end(toks, pos)
            } else if k == TokenKind::LeftBracket {
                list_end(toks, pos)
            } else if k == TokenKind::LeftBrace {
                obj_end(toks, pos)
            } else if k == TokenKind::Extern {
                extern_end(toks, pos)
            } else {
                Err(Failure::Internal(t.spec_span(), unsupported_term_message(k)))
            }
        },
        None => Err(Failure::Missing(pos)),
    };
    match base {
        Ok(p) => if forward(toks, pos, p) {
            term_suffixes(toks, p, Suffix::Base)
        } else {
            Err(Failure::Missing(pos))
        },
        Err(f) => Err(f),
    }
}

/// The calls, index accesses and field accesses that extend a term from `pos` on, where
/// `last` is what it was last extended by.
pub open spec fn term_suffixes<'src>(toks: Seq<Token<'src>>, pos: int, last: Suffix) -> Result<
    (int, Suffix),
    Failure<'src>,
>
    decreases rest(toks, pos), 2nat,
{
    match token_at(toks, pos) {
        Some(t) => {
            let k = t.spec_kind();
            if k == TokenKind::LeftParen {
                match call_args_end(toks, pos) {
                    Ok(q) => if forward(toks, pos, q) {
                        term_suffixes(toks, q, Suffix::Call)
                    } else {
                        Err(Failure::Missing(pos))
                    },
                    Err(f) => Err(f),
                }
            } else if k == TokenKind::LeftBracket {
                match index_end(toks, pos) {
                    Ok(q) => if forward(toks, pos, q) {
                        term_suffixes(toks, q, Suffix::Index)
                    } else {
                        Err(Failure::Missing(pos))
                    },
                    Err(f) => Err(f),
                }
            } else if k == TokenKind::Dot {
                match field_access_end(toks, pos) {
                    Ok(q) => if forward(toks, pos, q) {
                        term_suffixes(toks, q, Suffix::Field)
                    } else {
                        Err(Failure::Missing(pos))
                    },
                    Err(f) => Err(f),
                }
            } else {
                Ok((pos, last))
            }
        },
        None => Ok((pos, last)),
    }
}

/// The field of a field access: `. name`.
pub open spec fn field_access_end<'src>(toks: Seq<Token<'src>>, pos: int) -> Result<int, Failure<'src>> {
    if is_at(toks, pos, TokenKind::Dot) {
        expect_at(toks, pos + 1, TokenKind::Ident)
    } else {
        Err(Failure::Expected(pos, TokenKind::Dot))
    }
}

/// The arguments of a call: `(`, a comma-separated list of expressions or nothing, `)`.
pub open spec fn call_args_end<'src>(toks: Seq<Token<'src>>, pos: int) -> Result<int, Failure<'src>>
    decreases rest(toks, pos), 1nat,
{
    if is_at(toks, pos, TokenKind::LeftParen) {
        let q = match expr_list_end(toks, pos + 1) {
            Ok(q) => q,
            Err(_) => pos + 1,
        };
        expect_at(toks, q, TokenKind::RightParen)
    } else {
        Err(Failure::Expected(pos, TokenKind::LeftParen))
    }
}

/// The index of an index access: `[ expr ]`.
pub open spec fn index_end<'src>(toks: Seq<Token<'src>>, pos: int) -> Result<int, Failure<'src>>
    decreases rest(toks, pos), 1nat,
{
    if is_at(toks, pos, TokenKind::LeftBracket) {
        match expr_end(toks, pos + 1, 0) {
            Ok(q) => expect_at(toks, q, TokenKind::RightBracket),
            Err(f) => Err(f),
        }
    } else {
        Err(Failure::Expected(pos, TokenKind::LeftBracket))
    }
}

/// `( expr )`.
pub open spec fn paren_end<'src>(toks: Seq<Token<'src>>, pos: int) -> Result<int, Failure<'src>>
    decreases rest(toks, pos), 1nat,
{
    if is_at(toks, pos, TokenKind::LeftParen) {
        match expr_end(toks, pos + 1, 0) {
            Ok(q) => expect_at(toks, q, TokenKind::RightParen),
            Err(f) => Err(f),
        }
    } else {
        Err(Failure::Expected(pos, TokenKind::LeftParen))
    }
}

/// `func ( args ) do ... end`.
pub open spec fn func_end<'src>(toks: Seq<Token<'src>>, pos: int) -> Result<int, Failure<'src>>
    decreases rest(toks, pos), 1nat,
{
    if !is_at(toks, pos, TokenKind::Func) {
        Err(Failure::Expected(pos, TokenKind::Func))
    } else if !is_at(toks, pos + 1, TokenKind::LeftParen) {
        Err(Failure::Expected(pos + 1, TokenKind::LeftParen))
    } else {
        match func_args_end(toks, pos + 2) {
            Ok(q) => if !is_at(toks, q, TokenKind::RightParen) {
                Err(Failure::Expected(q, TokenKind::RightParen))
            } else if forward(toks, pos, q) {
                do_block_end(toks, q + 1)
            } else {
                Err(Failure::Missing(pos))
            },
            Err(f) => Err(f),
        }
    }
}

/// `[`, a comma-separated list of expressions or nothing, `]`.
pub open spec fn list_end<'src>(toks: Seq<Token<'src>>, pos: int) -> Result<int, Failure<'src>>
    decreases rest(toks, pos), 1nat,
{
    if is_at(toks, pos, TokenKind::LeftBracket) {
        let q = match expr_list_end(toks, pos + 1) {
            Ok(q) => q,
            Err(_) => pos + 1,
        };
        expect_at(toks, q, TokenKind::RightBracket)
    } else {
        Err(Failure::Expected(pos, TokenKind::LeftBracket))
    }
}

/// `{`, a comma-separated list of fields or nothing, `}`.
pub open spec fn obj_end<'src>(toks: Seq<Token<'src>>, pos: int) -> Result<int, Failure<'src>>
    decreases rest(toks, pos), 1nat,
{
    if is_at(toks, pos, TokenKind::LeftBrace) {
        let q = match field_list_end(toks, pos + 1) {
            Ok(q) => q,
            Err(_) => pos + 1,
        };
        expect_at(toks, q, TokenKind::RightBrace)
    } else {
        Err(Failure::Expected(pos, TokenKind::LeftBrace))
    }
}

/// `extern expr`.
pub open spec fn extern_end<'src>(toks: Seq<Token<'src>>, pos: int) -> Result<int, Failure<'src>>
    decreases rest(toks, pos), 1nat,
{
    if is_at(toks, pos, TokenKind::Extern) {
        expr_end(toks, pos + 1, 0)
    } else {
        Err(Failure::Expected(pos, TokenKind::Extern))
    }
}

/// An expression whose operators bind at least as tightly as `precedence`: a term, then,
/// while an operator follows whose left binding power is at least `precedence`, that
/// operator and an expression of its right binding power.
pub open spec fn expr_end<'src>(toks: Seq<Token<'src>>, pos: int, precedence: u8) -> Result<
    int,
    Failure<'src>,
>
    decreases rest(toks, pos), 4nat,
{
    match term_end(toks, pos) {
        Ok((p, _)) => if forward(toks, pos, p) {
            expr_operators(toks, p, precedence)
        } else {
            Err(Failure::Missing(pos))
        },
        Err(f) => Err(f),
    }
}

/// The operators and operands that follow the first operand of an expression, from `pos`.
pub open spec fn expr_operators<'src>(toks: Seq<Token<'src>>, pos: int, precedence: u8) -> Result<
    int,
    Failure<'src>,
>
    decreases rest(toks, pos), 0nat,
{
    match token_at(toks, pos) {
        Some(t) => match spec_binding_power(t.spec_kind()) {
            Some((left, right)) => if left >= precedence {
                match expr_end(toks, pos + 1, right) {
                    Ok(q) => if forward(toks, pos, q) {
                        expr_operators(toks, q, precedence)
                    } else {
                        Err(Failure::Missing(pos))
                    },
                    Err(f) => Err(f),
                }
            } else {
                Ok(pos)
            },
            None => Ok(pos),
        },
        None => Ok(pos),
    }
}

/// The expressions from `pos`: an expression, and after a comma the expressions that
/// follow it; nothing where no expression can be read at `pos`.
pub open spec fn exprs_from<'src>(toks: Seq<Token<'src>>, pos: int) -> int
    decreases rest(toks, pos), 5nat,
{
    match expr_end(toks, pos, 0) {
        Ok(p) => if forward(toks, pos, p) && is_at(toks, p, TokenKind::Comma) {
            exprs_from(toks, p + 1)
        } else {
            p
        },
        Err(_) => pos,
    }
}

/// A comma-separated list of expressions, with at least one, which may end with a comma.
pub open spec fn expr_list_end<'src>(toks: Seq<Token<'src>>, pos: int) -> Result<int, Failure<'src>>
    decreases rest(toks, pos), 6nat,
{
    if expr_end(toks, pos, 0) is Ok {
        Ok(exprs_from(toks, pos))
    } else {
        Err(Failure::Unspanned(empty_list_message()))
    }
}

/// A field of an object: `name = expr`.
pub open spec fn field_end<'src>(toks: Seq<Token<'src>>, pos: int) -> Result<int, Failure<'src>>
    decreases rest(toks, pos), 1nat,
{
    if !is_at(toks, pos, TokenKind::Ident) {
        Err(Failure::Expected(pos, TokenKind::Ident))
    } else if !is_at(toks, pos + 1, TokenKind::Eq) {
        Err(Failure::Expected(pos + 1, TokenKind::Eq))
    } else {
        expr_end(toks, pos + 2, 0)
    }
}

/// The fields from `pos`: a field, and after a comma the fields that follow it; nothing
/// where no field can be read at `pos`.
pub open spec fn fields_from<'src>(toks: Seq<Token<'src>>, pos: int) -> int
    decreases rest(toks, pos), 2nat,
{
    match field_end(toks, pos) {
        Ok(p) => if forward(toks, pos, p) && is_at(toks, p, TokenKind::Comma) {
            fields_from(toks, p + 1)
        } else {
            p
        },
        Err(_) => pos,
    }
}

/// A comma-separated list of fields, with at least one, which may end with a comma.
pub open spec fn field_list_end<'src>(toks: Seq<Token<'src>>, pos: int) -> Result<int, Failure<'src>>
    decreases rest(toks, pos), 3nat,
{
    if field_end(toks, pos) is Ok {
        Ok(fields_from(toks, pos))
    } else {
        Err(Failure::Unspanned(empty_list_message()))
    }
}

/// `do`, statements, `end`.
pub open spec fn do_block_end<'src>(toks: Seq<Token<'src>>, pos: int) -> Result<int, Failure<'src>>
    decreases rest(toks, pos), 1nat,
{
    if is_at(toks, pos, TokenKind::Do) {
        expect_at(toks, stmts_from(toks, pos + 1), TokenKind::End)
    } else {
        Err(Failure::Expected(pos, TokenKind::Do))
    }
}

/// `def name`, then `= expr` where `=` follows the name.
pub open spec fn var_define_end<'src>(toks: Seq<Token<'src>>, pos: int) -> Result<int, Failure<'src>>
    decreases rest(toks, pos), 1nat,
{
    if !is_at(toks, pos, TokenKind::Def) {
        Err(Failure::Expected(pos, TokenKind::Def))
    } else if !is_at(toks, pos + 1, TokenKind::Ident) {
        Err(Failure::Expected(pos + 1, TokenKind::Ident))
    } else if is_at(toks, pos + 2, TokenKind::Eq) {
        expr_end(toks, pos + 3, 0)
    } else {
        Ok(pos + 2)
    }
}

/// `return expr`.
pub open spec fn return_end<'src>(toks: Seq<Token<'src>>, pos: int) -> Result<int, Failure<'src>>
    decreases rest(toks, pos), 1nat,
{
    if is_at(toks, pos, TokenKind::Return) {
        expr_end(toks, pos + 1, 0)
    } else {
        Err(Failure::Expected(pos, TokenKind::Return))
    }
}

/// `while expr do ... end`.
pub open spec fn while_end<'src>(toks: Seq<Token<'src>>, pos: int) -> Result<int, Failure<'src>>
    decreases rest(toks, pos), 1nat,
{
    if is_at(toks, pos, TokenKind::While) {
        match expr_end(toks, pos + 1, 0) {
            Ok(p) => if forward(toks, pos, p) {
                do_block_end(toks, p)
            } else {
                Err(Failure::Missing(pos))
            },
            Err(f) => Err(f),
        }
    } else {
        Err(Failure::Expected(pos, TokenKind::While))
    }
}

/// `elseif expr then`, statements.
pub open spec fn else_if_end<'src>(toks: Seq<Token<'src>>, pos: int) -> Result<int, Failure<'src>>
    decreases rest(toks, pos), 1nat,
{
    if is_at(toks, pos, TokenKind::ElseIf) {
        match expr_end(toks, pos + 1, 0) {
            Ok(p) => if !is_at(toks, p, TokenKind::Then) {
                Err(Failure::Expected(p, TokenKind::Then))
            } else if forward(toks, pos, p) {
                Ok(stmts_from(toks, p + 1))
            } else {
                Err(Failure::Missing(pos))
            },
            Err(f) => Err(f),
        }
    } else {
        Err(Failure::Expected(pos, TokenKind::ElseIf))
    }
}

/// `else`, statements.
pub open spec fn else_end<'src>(toks: Seq<Token<'src>>, pos: int) -> Result<int, Failure<'src>>
    decreases rest(toks, pos), 1nat,
{
    if is_at(toks, pos, TokenKind::Else) {
        Ok(stmts_from(toks, pos + 1))
    } else {
        Err(Failure::Expected(pos, TokenKind::Else))
    }
}

/// The `elseif` branches from `pos`, as many as can be read.
pub open spec fn else_ifs_from<'src>(toks: Seq<Token<'src>>, pos: int) -> int
    decreases rest(toks, pos), 2nat,
{
    match else_if_end(toks, pos) {
        Ok(p) => if forward(toks, pos, p) {
            else_ifs_from(toks, p)
        } else {
            p
        },
        Err(_) => pos,
    }
}

/// `if expr then`, statements; then `end`, or else `elseif` branches, an optional `else`
/// branch and `end`.
pub open spec fn if_end<'src>(toks: Seq<Token<'src>>, pos: int) -> Result<int, Failure<'src>>
    decreases rest(toks, pos), 1nat,
{
    if is_at(toks, pos, TokenKind::If) {
        match expr_end(toks, pos + 1, 0) {
            Ok(p) => if !is_at(toks, p, TokenKind::Then) {
                Err(Failure::Expected(p, TokenKind::Then))
            } else if forward(toks, pos, p) {
                let q = stmts_from(toks, p + 1);
                if is_at(toks, q, TokenKind::End) {
                    Ok(q + 1)
                } else if forward(toks, pos, q) {
                    let b = else_ifs_from(toks, q);
                    if forward(toks, pos, b) {
                        let e = match else_end(toks, b) {
                            Ok(e) => e,
                            Err(_) => b,
                        };
                        expect_at(toks, e, TokenKind::End)
                    } else {
                        Err(Failure::Missing(pos))
                    }
                } else {
                    Err(Failure::Missing(pos))
                }
            } else {
                Err(Failure::Missing(pos))
            },
            Err(f) => Err(f),
        }
    } else {
        Err(Failure::Expected(pos, TokenKind::If))
    }
}

/// `class name`, variable definitions, `end`.
pub open spec fn class_end<'src>(toks: Seq<Token<'src>>, pos: int) -> Result<int, Failure<'src>>
    decreases rest(toks, pos), 1nat,
{
    if !is_at(toks, pos, TokenKind::Class) {
        Err(Failure::Expected(pos, TokenKind::Class))
    } else if !is_at(toks, pos + 1, TokenKind::Ident) {
        Err(Failure::Expected(pos + 1, TokenKind::Ident))
    } else {
        expect_at(toks, defines_from(toks, pos + 2), TokenKind::End)
    }
}

/// The variable definitions from `pos`, as many as can be read.
pub open spec fn defines_from<'src>(toks: Seq<Token<'src>>, pos: int) -> int
    decreases rest(toks, pos), 2nat,
{
    match var_define_end(toks, pos) {
        Ok(p) => if forward(toks, pos, p) {
            defines_from(toks, p)
        } else {
            p
        },
        Err(_) => pos,
    }
}

/// An assignment to an element: a term that ends with an index access, `=`, `expr`.
pub open spec fn index_assign_end<'src>(toks: Seq<Token<'src>>, pos: int) -> Result<int, Failure<'src>>
    decreases rest(toks, pos), 4nat,
{
    match term_end(toks, pos) {
        Ok((p, s)) => if s != Suffix::Index {
            Err(Failure::Internal(covering(toks.subrange(pos, p)), suffix_message(Suffix::Index)))
        } else if !is_at(toks, p, TokenKind::Eq) {
            Err(Failure::Expected(p, TokenKind::Eq))
        } else if forward(toks, pos, p) {
            expr_end(toks, p + 1, 0)
        } else {
            Err(Failure::Missing(pos))
        },
        Err(f) => Err(f),
    }
}

/// An assignment to a field: a term that ends with a field access, `=`, `expr`.
pub open spec fn field_assign_end<'src>(toks: Seq<Token<'src>>, pos: int) -> Result<int, Failure<'src>>
    decreases rest(toks, pos), 4nat,
{
    match term_end(toks, pos) {
        Ok((p, s)) => if s != Suffix::Field {
            Err(Failure::Internal(covering(toks.subrange(pos, p)), suffix_message(Suffix::Field)))
        } else if !is_at(toks, p, TokenKind::Eq) {
            Err(Failure::Expected(p, TokenKind::Eq))
        } else if forward(toks, pos, p) {
            expr_end(toks, p + 1, 0)
        } else {
            Err(Failure::Missing(pos))
        },
        Err(f) => Err(f),
    }
}

/// An assignment to an element, followed by an assignment to a field where one can be read
/// there; or else an assignment to a field.
pub open spec fn expr_assign_end<'src>(toks: Seq<Token<'src>>, pos: int) -> Result<int, Failure<'src>>
    decreases rest(toks, pos), 5nat,
{
    match index_assign_end(toks, pos) {
        Ok(p) => if forward(toks, pos, p) {
            match field_assign_end(toks, p) {
                Ok(q) => Ok(q),
                Err(_) => Ok(p),
            }
        } else {
            Err(Failure::Missing(pos))
        },
        Err(_) => field_assign_end(toks, pos),
    }
}

/// A statement, chosen by its first token: a definition, a block, a return, `break`,
/// `continue`, a loop, a condition or a class; after any other token, an assignment, or
/// else a term that ends with a call. Where none can be read, the next token is reported.
pub open spec fn stmt_end<'src>(toks: Seq<Token<'src>>, pos: int) -> Result<int, Failure<'src>>
    decreases rest(toks, pos), 6nat,
{
    match token_at(toks, pos) {
        Some(t) => {
            let k = t.spec_kind();
            if k == TokenKind::Def {
                var_define_end(toks, pos)
            } else if k == TokenKind::Do {
                do_block_end(toks, pos)
            } else if k == TokenKind::Return {
                return_end(toks, pos)
            } else if k == TokenKind::Break || k == TokenKind::Continue {
                Ok(pos + 1)
            } else if k == TokenKind::While {
                while_end(toks, pos)
            } else if k == TokenKind::If {
                if_end(toks, pos)
            } else if k == TokenKind::Class {
                class_end(toks, pos)
            } else {
                match expr_assign_end(toks, pos) {
                    Ok(p) => Ok(p),
                    Err(_) => match term_end(toks, pos) {
                        Ok((p, Suffix::Call)) => Ok(p),
                        _ => Err(Failure::Internal(t.spec_span(), no_statement_message())),
                    },
                }
            }
        },
        None => Err(Failure::Missing(pos)),
    }
}

/// The statements from `pos`, as many as can be read.
pub open spec fn stmts_from<'src>(toks: Seq<Token<'src>>, pos: int) -> int
    decreases rest(toks, pos), 7nat,
{
    match stmt_end(toks, pos) {
        Ok(p) => if forward(toks, pos, p) {
            stmts_from(toks, p)
        } else {
            p
        },
        Err(_) => pos,
    }
}

/// `name = expr`.
pub open spec fn var_assign_end<'src>(toks: Seq<Token<'src>>, pos: int) -> Result<int, Failure<'src>> {
    if !is_at(toks, pos, TokenKind::Ident) {
        Err(Failure::Expected(pos, TokenKind::Ident))
    } else if !is_at(toks, pos + 1, TokenKind::Eq) {
        Err(Failure::Expected(pos + 1, TokenKind::Eq))
    } else {
        expr_end(toks, pos + 2, 0)
    }
}

/// A unary expression: a unary operator and a term. Another token is reported at its span.
pub open spec fn unary_expr_end<'src>(toks: Seq<Token<'src>>, pos: int) -> Result<int, Failure<'src>> {
    match token_at(toks, pos) {
        Some(t) => if unary_op_of(t.spec_kind()) is Some {
            match term_end(toks, pos + 1) {
                Ok((p, _)) => Ok(p),
                Err(f) => Err(f),
            }
        } else {
            Err(Failure::Internal(t.spec_span(), not_unary_message(t.spec_kind())))
        },
        None => Err(Failure::Missing(pos)),
    }
}

/// A program: statements up to the end of the input, each of which must be read.
pub open spec fn program_end<'src>(toks: Seq<Token<'src>>, pos: int) -> Result<int, Failure<'src>>
    decreases rest(toks, pos),
{
    if token_at(toks, pos) is None {
        Ok(pos)
    } else {
        match stmt_end(toks, pos) {
            Ok(p) => if forward(toks, pos, p) {
                program_end(toks, p)
            } else {
                Err(Failure::Missing(pos))
            },
            Err(f) => Err(f),
        }
    }
}

/// The binding powers (left, right) of an operator.
pub open spec fn op_power<'src>(op: BinaryOp<'src>) -> (u8, u8) {
    spec_binding_power(binary_op_token(op.kind))->0
}

/// The operators of `e`, read with the lower bound `precedence` on their binding powers,
/// group as their binding powers say. Each operator of the chain that `e` is binds at least
/// as tightly as `precedence`; its right operand is a term, or an expression grouped with
/// the operator's right binding power; its left operand is a term, or the chain before it,
/// whose last operator's right binding power the operator does not reach, so that the
/// operator could not continue that last right operand.
pub open spec fn grouped<'src>(e: Expr<'src>, precedence: u8) -> bool
    decreases e,
{
    match e {
        Expr::Binary(b) => {
            &&& op_power(b.op).0 >= precedence
            &&& match b.rhs {
                Term::Expr(x) => *x is Binary && grouped(*x, op_power(b.op).1),
                _ => true,
            }
            &&& match b.lhs {
                Term::Expr(x) => match *x {
                    Expr::Binary(inner) => grouped(*x, precedence) && op_power(b.op).0 < op_power(
                        inner.op,
                    ).1,
                    _ => false,
                },
                _ => true,
            }
        },
        _ => true,
    }
}

/// `op` is `+` or `-`.
pub open spec fn is_additive<'src>(op: BinaryOp<'src>) -> bool {
    binary_op_token(op.kind) == TokenKind::Plus || binary_op_token(op.kind) == TokenKind::Minus
}

/// `+` and `-` group to the left: of the two ways to group `x o1 y o2 z` with `o1` and
/// `o2` additive and `x`, `y`, `z` terms, the grouping `(x o1 y) o2 z` is the one the
/// parser may give, at any lower bound on binding powers that the operators reach, and
/// `x o1 (y o2 z)` never is.
pub proof fn lemma_additive_groups_left<'src>(
    x: Term<'src>,
    y: Term<'src>,
    z: Term<'src>,
    o1: BinaryOp<'src>,
    o2: BinaryOp<'src>,
    precedence: u8,
)
    requires
        is_additive(o1),
        is_additive(o2),
        !(x is Expr),
        !(y is Expr),
        !(z is Expr),
        precedence <= 1,
    ensures
        grouped(
            Expr::Binary(
                BinaryExpr {
                    lhs: Term::Expr(Box::new(Expr::Binary(BinaryExpr { lhs: x, op: o1, rhs: y }))),
                    op: o2,
                    rhs: z,
                },
            ),
            precedence,
        ),
        !grouped(
            Expr::Binary(
                BinaryExpr {
                    lhs: x,
                    op: o1,
                    rhs: Term::Expr(Box::new(Expr::Binary(BinaryExpr { lhs: y, op: o2, rhs: z }))),
                },
            ),
            precedence,
        ),
{
    assert(op_power(o1) == (1u8, 2u8));
    assert(op_power(o2) == (1u8, 2u8));
    let inner_left = Expr::Binary(BinaryExpr { lhs: x, op: o1, rhs: y });
    let inner_right = Expr::Binary(BinaryExpr { lhs: y, op: o2, rhs: z });
    assert(grouped(inner_left, precedence));
    assert(!grouped(inner_right, 2));
    reveal_with_fuel(grouped, 2);
}

/// `op` is `*` or `/`.
pub open spec fn is_multiplicative<'src>(op: BinaryOp<'src>) -> bool {
    binary_op_token(op.kind) == TokenKind::Asterisk || binary_op_token(op.kind) == TokenKind::Slash
}

/// `*` and `/` group to the left, as `+` and `-` do: `(x o1 y) o2 z` is the grouping the
/// parser may give, and `x o1 (y o2 z)` never is.
pub proof fn lemma_multiplicative_groups_left<'src>(
    x: Term<'src>,
    y: Term<'src>,
    z: Term<'src>,
    o1: BinaryOp<'src>,
    o2: BinaryOp<'src>,
    precedence: u8,
)
    requires
        is_multiplicative(o1),
        is_multiplicative(o2),
        !(x is Expr),
        !(y is Expr),
        !(z is Expr),
        precedence <= 3,
    ensures
        grouped(
            Expr::Binary(
                BinaryExpr {
                    lhs: Term::Expr(Box::new(Expr::Binary(BinaryExpr { lhs: x, op: o1, rhs: y }))),
                    op: o2,
                    rhs: z,
                },
            ),
            precedence,
        ),
        !grouped(
            Expr::Binary(
                BinaryExpr {
                    lhs: x,
                    op: o1,
                    rhs: Term::Expr(Box::new(Expr::Binary(BinaryExpr { lhs: y, op: o2, rhs: z }))),
                },
            ),
            precedence,
        ),
{
    assert(op_power(o1) == (3u8, 4u8));
    assert(op_power(o2) == (3u8, 4u8));
    let inner_left = Expr::Binary(BinaryExpr { lhs: x, op: o1, rhs: y });
    let inner_right = Expr::Binary(BinaryExpr { lhs: y, op: o2, rhs: z });
    assert(grouped(inner_left, precedence));
    assert(!grouped(inner_right, 4));
    reveal_with_fuel(grouped, 2);
}

/// `*` and `/` bind more tightly than `+` and `-`, on either side: with `m`
/// multiplicative and `a` additive, `x a y m z` groups as `x a (y m z)` and never as
/// `(x a y) m z`, and `x m y a z` groups as `(x m y) a z` and never as `x m (y a z)`.
pub proof fn lemma_multiplicative_binds_tighter<'src>(
    x: Term<'src>,
    y: Term<'src>,
    z: Term<'src>,
    a: BinaryOp<'src>,
    m: BinaryOp<'src>,
)
    requires
        is_additive(a),
        is_multiplicative(m),
        !(x is Expr),
        !(y is Expr),
        !(z is Expr),
    ensures
        grouped(
            Expr::Binary(
                BinaryExpr {
                    lhs: x,
                    op: a,
                    rhs: Term::Expr(Box::new(Expr::Binary(BinaryExpr { lhs: y, op: m, rhs: z }))),
                },
            ),
            0,
        ),
        !grouped(
            Expr::Binary(
                BinaryExpr {
                    lhs: Term::Expr(Box::new(Expr::Binary(BinaryExpr { lhs: x, op: a, rhs: y }))),
                    op: m,
                    rhs: z,
                },
            ),
            0,
        ),
        grouped(
            Expr::Binary(
                BinaryExpr {
                    lhs: Term::Expr(Box::new(Expr::Binary(BinaryExpr { lhs: x, op: m, rhs: y }))),
                    op: a,
                    rhs: z,
                },
            ),
            0,
        ),
        !grouped(
            Expr::Binary(
                BinaryExpr {
                    lhs: x,
                    op: m,
                    rhs: Term::Expr(Box::new(Expr::Binary(BinaryExpr { lhs: y, op: a, rhs: z }))),
                },
            ),
            0,
        ),
{
    assert(op_power(a) == (1u8, 2u8));
    assert(op_power(m) == (3u8, 4u8));
    assert(grouped(Expr::Binary(BinaryExpr { lhs: y, op: m, rhs: z }), 2));
    assert(grouped(Expr::Binary(BinaryExpr { lhs: x, op: a, rhs: y }), 0));
    assert(grouped(Expr::Binary(BinaryExpr { lhs: x, op: m, rhs: y }), 0));
    assert(!grouped(Expr::Binary(BinaryExpr { lhs: y, op: a, rhs: z }), 4));
    reveal_with_fuel(grouped, 2);
}

/// `and` and `or` group to the right: where both operators of `x o y o z` are `and`, or
/// both are `or`, the grouping `x o (y o z)` is the one the parser may give, and
/// `(x o y) o z` never is.
pub proof fn lemma_logical_groups_right<'src>(
    x: Term<'src>,
    y: Term<'src>,
    z: Term<'src>,
    o1: BinaryOp<'src>,
    o2: BinaryOp<'src>,
)
    requires
        binary_op_token(o1.kind) == TokenKind::And || binary_op_token(o1.kind) == TokenKind::Or,
        binary_op_token(o2.kind) == binary_op_token(o1.kind),
        !(x is Expr),
        !(y is Expr),
        !(z is Expr),
    ensures
        grouped(
            Expr::Binary(
                BinaryExpr {
                    lhs: x,
                    op: o1,
                    rhs: Term::Expr(Box::new(Expr::Binary(BinaryExpr { lhs: y, op: o2, rhs: z }))),
                },
            ),
            0,
        ),
        !grouped(
            Expr::Binary(
                BinaryExpr {
                    lhs: Term::Expr(Box::new(Expr::Binary(BinaryExpr { lhs: x, op: o1, rhs: y }))),
                    op: o2,
                    rhs: z,
                },
            ),
            0,
        ),
{
    if binary_op_token(o1.kind) == TokenKind::And {
        assert(op_power(o1) == (3u8, 2u8));
        assert(op_power(o2) == (3u8, 2u8));
    } else {
        assert(op_power(o1) == (1u8, 1u8));
        assert(op_power(o2) == (1u8, 1u8));
    }
    assert(grouped(Expr::Binary(BinaryExpr { lhs: y, op: o2, rhs: z }), op_power(o1).1));
    assert(grouped(Expr::Binary(BinaryExpr { lhs: x, op: o1, rhs: y }), 0));
    reveal_with_fuel(grouped, 2);
}

/// No operator of the chain that `e` is is `.` or `[`: those extend terms, and a term is
/// read with every access that follows it.
pub open spec fn no_access_operators<'src>(e: Expr<'src>) -> bool
    decreases e,
{
    match e {
        Expr::Binary(b) => {
            &&& binary_op_token(b.op.kind) != TokenKind::Dot
            &&& binary_op_token(b.op.kind) != TokenKind::LeftBracket
            &&& match b.rhs {
                Term::Expr(x) => no_access_operators(*x),
                _ => true,
            }
            &&& match b.lhs {
                Term::Expr(x) => no_access_operators(*x),
                _ => true,
            }
        },
        _ => true,
    }
}

/// The keyword `self`: an identifier with that text. Another identifier is reported at its
/// span.
pub open spec fn self_end<'src>(toks: Seq<Token<'src>>, pos: int) -> Result<int, Failure<'src>> {
    if !is_at(toks, pos, TokenKind::Ident) {
        Err(Failure::Expected(pos, TokenKind::Ident))
    } else if self_at(toks, pos) {
        Ok(pos + 1)
    } else {
        Err(
            Failure::Internal(
                toks[pos].spec_span(),
                not_self_message(toks[pos].spec_span().spec_text()),
            ),
        )
    }
}

/// A literal: a number, `true`, `false`, a string or `none`. Another token is reported at
/// its span.
pub open spec fn lit_end<'src>(toks: Seq<Token<'src>>, pos: int) -> Result<int, Failure<'src>> {
    match token_at(toks, pos) {
        Some(t) => if is_lit_kind(t.spec_kind()) {
            Ok(pos + 1)
        } else {
            Err(
                Failure::Internal(
                    t.spec_span(),
                    unknown_literal_message(t.spec_span().spec_text(), t.spec_kind()),
                ),
            )
        },
        None => Err(Failure::Missing(pos)),
    }
}

/// A binary operator. Another token is reported at its span.
pub open spec fn binary_op_end<'src>(toks: Seq<Token<'src>>, pos: int) -> Result<int, Failure<'src>> {
    match token_at(toks, pos) {
        Some(t) => if binary_op_of(t.spec_kind()) is Some {
            Ok(pos + 1)
        } else {
            Err(Failure::Internal(t.spec_span(), not_binary_message(t.spec_kind())))
        },
        None => Err(Failure::Missing(pos)),
    }
}

/// A unary operator. Another token is reported at its span.
pub open spec fn unary_op_end<'src>(toks: Seq<Token<'src>>, pos: int) -> Result<int, Failure<'src>> {
    match token_at(toks, pos) {
        Some(t) => if unary_op_of(t.spec_kind()) is Some {
            Ok(pos + 1)
        } else {
            Err(Failure::Internal(t.spec_span(), not_unary_message(t.spec_kind())))
        },
        None => Err(Failure::Missing(pos)),
    }
}

/// A term, where it ends, whatever it was last extended by.
pub open spec fn term_only_end<'src>(toks: Seq<Token<'src>>, pos: int) -> Result<int, Failure<'src>> {
    match term_end(toks, pos) {
        Ok((p, _)) => Ok(p),
        Err(f) => Err(f),
    }
}

/// The token at `pos` is there and starts no statement by its kind alone: a statement
/// there is an assignment or a call, if anything.
pub open spec fn starts_by_expression<'src>(toks: Seq<Token<'src>>, pos: int) -> bool {
    token_at(toks, pos) matches Some(t) && {
        let k = t.spec_kind();
        k != TokenKind::Def && k != TokenKind::Do && k != TokenKind::Return && k != TokenKind::Break
            && k != TokenKind::Continue && k != TokenKind::While && k != TokenKind::If && k
            != TokenKind::Class
    }
}

} // verus!
