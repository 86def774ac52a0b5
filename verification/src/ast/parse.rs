//! The parser: a recursive descent over a [`ParseStream`] that builds the nodes of
//! [`crate::ast::nodes`].
//!
//! Every parse function reads forward only. It succeeds exactly where the grammar of
//! [`crate::ast::grammar`] says its construct can be read, and then stops where the grammar
//! says the construct ends; the node it returns is well formed and holds exactly the tokens
//! it read, in order. Where it fails, it reports the failure that the grammar gives.

use vstd::prelude::*;
use vstd::string::StringExecFns;
use crate::ast::nodes::{
    BinaryExpr, BinaryOp, BinaryOpKind, Break, Call, ClassDef, Continue, DoBlock, Else, ElseIf,
    Expr, ExprAssign, Extern, FieldAcc, FieldAssign, Func, FuncArgs, Ident, If, IndexAcc,
    IndexAssign, List, Lit, LitKind, Obj, ObjField, ParenExpr, Program, Return, SelfKw, Stmt,
    Term, UnaryExpr, UnaryOp, UnaryOpKind, VarAssign, VarDefine, WhileLoop, lemma_expr_nonempty,
    lemma_stmt_nonempty, lemma_term_nonempty, binary_op_token, defines_tokens, defines_wf,
    elifs_tokens, elifs_wf, expr_pairs_tokens, expr_pairs_wf, exprs_tokens, exprs_wf,
    field_pairs_tokens, field_pairs_wf, fields_tokens, fields_wf, ident_pairs_tokens,
    idents_tokens, idents_wf, is_kind, lit_token, spec_binding_power, stmts_tokens, stmts_wf,
    unary_op_token,
};
use crate::errors::{Internal, ParseError, ParseErrorKind, ParseResult, is_internal, is_unspanned};
use crate::lexer::{Token, TokenKind, lemma_spec_new, lemma_token_ext};
use crate::ast::spans::ASTNode;
use crate::punctuated::Punctuated;
use crate::stream::{
    ParseStream, lemma_taken_concat, lemma_taken_none, lemma_taken_one, lemma_tokens_valid,
};
use crate::ast::grammar::{
    call_args_end, expr_end, expr_list_end, extern_end, field_access_end, field_end,
    field_list_end, func_args_end, func_end, ident_list_end, index_end, list_end, obj_end,
    lemma_peek_is_token_at, paren_end, read_as, suffix_of, term_end, term_suffixes, expr_operators, exprs_from,
    fields_from, idents_from, do_block_end, stmt_end, var_define_end, return_end, while_end,
    else_if_end, else_end, if_end, class_end, index_assign_end, field_assign_end,
    expr_assign_end, var_assign_end, program_end, term_ending_with, Suffix, stmts_from,
    else_ifs_from, defines_from, unary_expr_end, grouped, op_power, no_access_operators, Failure,
    reported_as, expect_at, self_end, lit_end, binary_op_end, unary_op_end, term_only_end,
    starts_by_expression,
};
use crate::text::{chars_of, spec_strip_quotes, trim_end_quotes, trim_start_quotes};
use vstd::string::StrSliceExecFns;

verus! {

broadcast use vstd::string::group_string_axioms, lemma_spec_new, lemma_peek_is_token_at;

/// `node_tokens` are exactly the tokens read from `before` to `after`, and the stream only
/// moved forward.
pub open spec fn reads<'src>(
    before: ParseStream<'src>,
    after: ParseStream<'src>,
    node_tokens: Seq<Token<'src>>,
) -> bool {
    before.moved_to(after) && before.taken(after) == node_tokens
}

/// `e` is the expression that starts at `pos` of `toks`: it is as long as the grammar says
/// an expression read there is.
pub open spec fn expr_read_at<'src>(toks: Seq<Token<'src>>, pos: int, e: Expr<'src>) -> bool {
    expr_end(toks, pos, 0) == Ok::<int, Failure<'src>>(pos + e.spec_tokens().len())
}

/// The message of the error reported where no statement can be read.
pub open spec fn no_statement_message() -> Seq<char> {
    "no statement matched"@
}

/// The message of the error reported where a comma-separated list holds no item.
pub open spec fn empty_list_message() -> Seq<char> {
    "punctuated list did not parse any items"@
}

/// The message of the error reported where an identifier other than `self` is read in
/// place of `self`.
pub open spec fn not_self_message(found: Seq<char>) -> Seq<char> {
    "tried to parse keyword `self` but found identifier `"@ + found + "`"@
}

/// The message of the error reported where a token of kind `kind` with text `text` starts
/// no literal.
pub open spec fn unknown_literal_message(text: Seq<char>, kind: TokenKind) -> Seq<char> {
    "unknown literal `"@ + text + "` of type `"@ + kind.spec_name() + "`"@
}

/// The message of the error reported where a token of kind `kind` starts no term.
pub open spec fn unsupported_term_message(kind: TokenKind) -> Seq<char> {
    "unsupported term `"@ + kind.spec_name() + "`"@
}

/// The message of the error reported where a term is read whose variant is not `variant`.
pub open spec fn wrong_variant_message(variant: Seq<char>) -> Seq<char> {
    "conversion of `Term` to variant `"@ + variant + "` failed"@
}

/// The message of the error reported where a token of kind `kind` is no binary operator.
pub open spec fn not_binary_message(kind: TokenKind) -> Seq<char> {
    "Unknown binary operator of type `"@ + kind.spec_name() + "`"@
}

/// The message of the error reported where a token of kind `kind` is no unary operator.
pub open spec fn not_unary_message(kind: TokenKind) -> Seq<char> {
    "Unknown unary operator of type `"@ + kind.spec_name() + "`"@
}

/// The binary operator of a token kind, where it is one.
pub open spec fn binary_op_of(kind: TokenKind) -> Option<BinaryOpKind> {
    match kind {
        TokenKind::Plus => Some(BinaryOpKind::Plus),
        TokenKind::Minus => Some(BinaryOpKind::Minus),
        TokenKind::Asterisk => Some(BinaryOpKind::Asterisk),
        TokenKind::Slash => Some(BinaryOpKind::Slash),
        TokenKind::Sign => Some(BinaryOpKind::Sign),
        TokenKind::EqEq => Some(BinaryOpKind::EqEq),
        TokenKind::Neq => Some(BinaryOpKind::Neq),
        TokenKind::And => Some(BinaryOpKind::And),
        TokenKind::Or => Some(BinaryOpKind::Or),
        TokenKind::Gt => Some(BinaryOpKind::Gt),
        TokenKind::Lt => Some(BinaryOpKind::Lt),
        TokenKind::Gte => Some(BinaryOpKind::Gte),
        TokenKind::Lte => Some(BinaryOpKind::Lte),
        TokenKind::LeftBracket => Some(BinaryOpKind::LeftBracket),
        TokenKind::Dot => Some(BinaryOpKind::Dot),
        _ => None,
    }
}

/// The unary operator of a token kind, where it is one.
pub open spec fn unary_op_of(kind: TokenKind) -> Option<UnaryOpKind> {
    match kind {
        TokenKind::Minus => Some(UnaryOpKind::Minus),
        TokenKind::Not => Some(UnaryOpKind::Not),
        _ => None,
    }
}

/// A binary operator read from the token kind it is written with is that operator, and a
/// token kind read as a binary operator is the kind that operator is written with.
pub proof fn lemma_binary_op_roundtrip(op: BinaryOpKind, kind: TokenKind)
    ensures
        binary_op_of(binary_op_token(op)) == Some(op),
        binary_op_of(kind) matches Some(o) ==> binary_op_token(o) == kind,
{
}

/// A unary operator read from the token kind it is written with is that operator, and a
/// token kind read as a unary operator is the kind that operator is written with.
pub proof fn lemma_unary_op_roundtrip(op: UnaryOpKind, kind: TokenKind)
    ensures
        unary_op_of(unary_op_token(op)) == Some(op),
        unary_op_of(kind) matches Some(o) ==> unary_op_token(o) == kind,
{
}

/// Every token kind that continues an expression is read as a binary operator.
pub proof fn lemma_binding_power_is_binary(kind: TokenKind)
    ensures
        spec_binding_power(kind) is Some ==> binary_op_of(kind) is Some,
{
}

/// Builds `prefix + middle + suffix`.
fn message3(prefix: &str, middle: &str, suffix: &str) -> (m: String)
    ensures
        m@ == prefix@ + middle@ + suffix@,
{
    let mut m = String::from_str(prefix);
    m.append(middle);
    m.append(suffix);
    m
}

/// The error `Internal(message)` at `span`.
fn internal_at<'src>(span: crate::span::Span<'src>, message: String) -> (e: ParseError<'src>)
    ensures
        e.span == span,
        is_internal(e, message@),
{
    ParseError::new(span, ParseErrorKind::Internal(Internal(message)))
}

impl BinaryOpKind {
    /// The binary operator read from a token of kind `kind`, or a message saying that there
    /// is none.
    pub fn try_from(kind: TokenKind) -> (r: Result<BinaryOpKind, String>)
        ensures
            binary_op_of(kind) matches Some(k) ==> r == Ok::<BinaryOpKind, String>(k),
            binary_op_of(kind) is None ==> (r matches Err(m) && m@ == not_binary_message(kind)),
    {
        match kind {
            TokenKind::Plus => Ok(BinaryOpKind::Plus),
            TokenKind::Minus => Ok(BinaryOpKind::Minus),
            TokenKind::Asterisk => Ok(BinaryOpKind::Asterisk),
            TokenKind::Slash => Ok(BinaryOpKind::Slash),
            TokenKind::Sign => Ok(BinaryOpKind::Sign),
            TokenKind::EqEq => Ok(BinaryOpKind::EqEq),
            TokenKind::Neq => Ok(BinaryOpKind::Neq),
            TokenKind::And => Ok(BinaryOpKind::And),
            TokenKind::Or => Ok(BinaryOpKind::Or),
            TokenKind::Gt => Ok(BinaryOpKind::Gt),
            TokenKind::Lt => Ok(BinaryOpKind::Lt),
            TokenKind::Gte => Ok(BinaryOpKind::Gte),
            TokenKind::Lte => Ok(BinaryOpKind::Lte),
            TokenKind::LeftBracket => Ok(BinaryOpKind::LeftBracket),
            TokenKind::Dot => Ok(BinaryOpKind::Dot),
            _ => {
                proof {
                    reveal_strlit("Unknown binary operator of type `");
                    reveal_strlit("`");
                }
                Err(message3("Unknown binary operator of type `", kind.name(), "`"))
            },
        }
    }
}

impl From<BinaryOpKind> for TokenKind {
    /// The token kind a binary operator is written with.
    fn from(kind: BinaryOpKind) -> (t: TokenKind) {
        match kind {
            BinaryOpKind::Plus => TokenKind::Plus,
            BinaryOpKind::Minus => TokenKind::Minus,
            BinaryOpKind::Asterisk => TokenKind::Asterisk,
            BinaryOpKind::Slash => TokenKind::Slash,
            BinaryOpKind::Sign => TokenKind::Sign,
            BinaryOpKind::EqEq => TokenKind::EqEq,
            BinaryOpKind::Neq => TokenKind::Neq,
            BinaryOpKind::And => TokenKind::And,
            BinaryOpKind::Or => TokenKind::Or,
            BinaryOpKind::Gt => TokenKind::Gt,
            BinaryOpKind::Lt => TokenKind::Lt,
            BinaryOpKind::Gte => TokenKind::Gte,
            BinaryOpKind::Lte => TokenKind::Lte,
            BinaryOpKind::LeftBracket => TokenKind::LeftBracket,
            BinaryOpKind::Dot => TokenKind::Dot,
        }
    }
}

impl vstd::std_specs::convert::FromSpecImpl<BinaryOpKind> for TokenKind {
    open spec fn obeys_from_spec() -> bool {
        true
    }

    open spec fn from_spec(kind: BinaryOpKind) -> TokenKind {
        binary_op_token(kind)
    }
}

impl UnaryOpKind {
    /// The unary operator read from a token of kind `kind`, or a message saying that there
    /// is none.
    pub fn try_from(kind: TokenKind) -> (r: Result<UnaryOpKind, String>)
        ensures
            unary_op_of(kind) matches Some(k) ==> r == Ok::<UnaryOpKind, String>(k),
            unary_op_of(kind) is None ==> (r matches Err(m) && m@ == not_unary_message(kind)),
    {
        match kind {
            TokenKind::Minus => Ok(UnaryOpKind::Minus),
            TokenKind::Not => Ok(UnaryOpKind::Not),
            _ => {
                proof {
                    reveal_strlit("Unknown unary operator of type `");
                    reveal_strlit("`");
                }
                Err(message3("Unknown unary operator of type `", kind.name(), "`"))
            },
        }
    }
}

impl From<UnaryOpKind> for TokenKind {
    /// The token kind a unary operator is written with.
    fn from(kind: UnaryOpKind) -> (t: TokenKind) {
        match kind {
            UnaryOpKind::Minus => TokenKind::Minus,
            UnaryOpKind::Not => TokenKind::Not,
        }
    }
}

impl vstd::std_specs::convert::FromSpecImpl<UnaryOpKind> for TokenKind {
    open spec fn obeys_from_spec() -> bool {
        true
    }

    open spec fn from_spec(kind: UnaryOpKind) -> TokenKind {
        unary_op_token(kind)
    }
}

impl<'src> Ident<'src> {
    /// Reads an identifier.
    pub fn parse(input: &mut ParseStream<'src>) -> (r: ParseResult<'src, Ident<'src>>)
        requires
            old(input).wf(),
        ensures
            old(input).moved_to(*final(input)),
            read_as(r, expect_at(old(input).spec_buffer(), old(input).spec_cursor() as int, TokenKind::Ident), old(input).spec_buffer(), *final(input)),
            r is Ok <==> old(input).next_is(TokenKind::Ident),
            r is Ok ==> final(input).spec_cursor() == old(input).spec_cursor() + 1,
            r matches Ok(i) ==> i.wf() && reads(*old(input), *final(input), i.spec_tokens()),
            r matches Err(e) ==> old(input).is_expect_error(TokenKind::Ident, e),
    {
        let ghost before = *input;
        let token = match input.expect(TokenKind::Ident) {
            Ok(t) => t,
            Err(e) => return Err(e),
        };
        proof {
            lemma_taken_one(before, *input);
        }
        Ok(Ident::from_token(token))
    }
}

/// A token of this kind starts a literal.
pub open spec fn is_lit_kind(kind: TokenKind) -> bool {
    kind == TokenKind::Number || kind == TokenKind::True || kind == TokenKind::False || kind
        == TokenKind::String || kind == TokenKind::NoneKw
}

/// The next token of `input` is the identifier `self`.
pub open spec fn next_is_self<'src>(input: ParseStream<'src>) -> bool {
    input.next_is(TokenKind::Ident) && input.spec_peek()->0.spec_span().spec_text() == "self"@
}

impl<'src> SelfKw<'src> {
    /// Reads the keyword `self`. An identifier with another text is reported as an internal
    /// error at its span, after it was read.
    pub fn parse(input: &mut ParseStream<'src>) -> (r: ParseResult<'src, SelfKw<'src>>)
        requires
            old(input).wf(),
        ensures
            old(input).moved_to(*final(input)),
            read_as(r, self_end(old(input).spec_buffer(), old(input).spec_cursor() as int), old(input).spec_buffer(), *final(input)),
            r is Ok <==> next_is_self(*old(input)),
            r matches Ok(s) ==> s.wf() && reads(*old(input), *final(input), s.spec_tokens()),
            r matches Err(e) ==> if old(input).next_is(TokenKind::Ident) {
                let t = old(input).spec_peek()->0;
                e.span == t.spec_span() && is_internal(e, not_self_message(t.spec_span().spec_text()))
            } else {
                old(input).is_expect_error(TokenKind::Ident, e)
            },
    {
        let ghost before = *input;
        let _ident = match Ident::parse(input) {
            Ok(i) => i,
            Err(e) => return Err(e),
        };
        let token = _ident.token();
        proof {
            lemma_tokens_valid(before, before.spec_cursor() as int);
            assert(before.taken(*input) == seq![token]);
            assert(before.taken(*input)[0] == before.spec_buffer()[before.spec_cursor() as int]);
            assert(before.spec_peek() == Some(token));
        }
        let text = token.value();
        proof {
            reveal_strlit("self");
        }
        if !crate::text::str_eq(text, "self") {
            proof {
                reveal_strlit("tried to parse keyword `self` but found identifier `");
                reveal_strlit("`");
            }
            let message = message3("tried to parse keyword `self` but found identifier `", text, "`");
            return Err(internal_at(token.span(), message));
        }
        Ok(SelfKw::from_ident(_ident))
    }
}

impl<'src> Lit<'src> {
    /// `text` without the double quotes it starts and ends with.
    pub fn strip_quotes(text: &str) -> (stripped: &str)
        ensures
            stripped@ == spec_strip_quotes(text@),
    {
        let chars = chars_of(text);
        let n = chars.len();
        let mut i: usize = 0;
        assert(chars@.subrange(0, n as int) == chars@);
        while i < n && chars[i] == '"'
            invariant
                n == chars@.len(),
                chars@ == text@,
                i <= n,
                trim_start_quotes(text@) == trim_start_quotes(chars@.subrange(i as int, n as int)),
            decreases n - i,
        {
            assert(chars@.subrange(i as int, n as int).drop_first() == chars@.subrange(i + 1, n as int));
            i = i + 1;
        }
        let mut j: usize = n;
        assert(trim_start_quotes(chars@.subrange(i as int, n as int)) == chars@.subrange(i as int, n as int));
        while j > i && chars[j - 1] == '"'
            invariant
                n == chars@.len(),
                chars@ == text@,
                i <= j <= n,
                trim_start_quotes(text@) == chars@.subrange(i as int, n as int),
                spec_strip_quotes(text@) == trim_end_quotes(chars@.subrange(i as int, j as int)),
            decreases j - i,
        {
            assert(chars@.subrange(i as int, j as int).drop_last() == chars@.subrange(i as int, j - 1));
            j = j - 1;
        }
        text.substring_char(i, j)
    }

    /// Reads a literal: a number, `true`, `false`, a string or `none`. A token of another
    /// kind is reported as an internal error at its span, after it was read.
    pub fn parse(input: &mut ParseStream<'src>) -> (r: ParseResult<'src, Lit<'src>>)
        requires
            old(input).wf(),
        ensures
            old(input).moved_to(*final(input)),
            read_as(r, lit_end(old(input).spec_buffer(), old(input).spec_cursor() as int), old(input).spec_buffer(), *final(input)),
            r is Ok <==> (old(input).spec_peek() matches Some(t) && is_lit_kind(t.spec_kind())),
            r matches Ok(l) ==> l.wf() && reads(*old(input), *final(input), l.spec_tokens()),
            r matches Err(e) ==> match old(input).spec_peek() {
                None => old(input).is_peek_error(e),
                Some(t) => e.span == t.spec_span() && is_internal(
                    e,
                    unknown_literal_message(t.spec_span().spec_text(), t.spec_kind()),
                ),
            },
    {
        let ghost before = *input;
        let token = match input.expect_next() {
            Ok(t) => t,
            Err(e) => return Err(e),
        };
        proof {
            lemma_taken_one(before, *input);
            lemma_token_ext(token, Token::spec_new(token.spec_kind(), token.spec_span()));
            lemma_tokens_valid(before, before.spec_cursor() as int);
            assert(before.spec_peek() == Some(token));
        }
        let span = token.span();
        match token.kind() {
            TokenKind::Number => {
                let text = String::from_str(token.value());
                Ok(Lit { kind: LitKind::Num(text), span })
            },
            TokenKind::True => Ok(Lit { kind: LitKind::Bool(true), span }),
            TokenKind::False => Ok(Lit { kind: LitKind::Bool(false), span }),
            TokenKind::String => {
                let text = String::from_str(Self::strip_quotes(token.value()));
                Ok(Lit { kind: LitKind::Str(text), span })
            },
            TokenKind::NoneKw => Ok(Lit { kind: LitKind::Nil, span }),
            kind => {
                proof {
                    reveal_strlit("unknown literal `");
                    reveal_strlit("` of type `");
                    reveal_strlit("`");
                }
                let mut message = message3("unknown literal `", token.value(), "` of type `");
                message.append(kind.name());
                message.append("`");
                Err(internal_at(span, message))
            },
        }
    }
}

impl<'src> BinaryOp<'src> {
    /// The binary operator of `token`, or an internal error at its span.
    pub fn try_from(token: Token<'src>) -> (r: ParseResult<'src, BinaryOp<'src>>)
        ensures
            binary_op_of(token.spec_kind()) matches Some(k) ==> (r matches Ok(op) && op.kind == k
                && op.span == token.spec_span()),
            binary_op_of(token.spec_kind()) is None ==> (r matches Err(e) && e.span
                == token.spec_span() && is_internal(e, not_binary_message(token.spec_kind()))),
    {
        let span = token.span();
        match BinaryOpKind::try_from(token.kind()) {
            Ok(kind) => Ok(BinaryOp { kind, span }),
            Err(message) => Err(internal_at(span, message)),
        }
    }

    /// Reads a binary operator. A token of another kind is reported as an internal error at
    /// its span, after it was read.
    pub fn parse(input: &mut ParseStream<'src>) -> (r: ParseResult<'src, BinaryOp<'src>>)
        requires
            old(input).wf(),
        ensures
            old(input).moved_to(*final(input)),
            read_as(r, binary_op_end(old(input).spec_buffer(), old(input).spec_cursor() as int), old(input).spec_buffer(), *final(input)),
            r is Ok <==> (old(input).spec_peek() matches Some(t) && binary_op_of(t.spec_kind()) is Some),
            r matches Ok(op) ==> reads(*old(input), *final(input), op.spec_tokens())
                && binary_op_of(op.spec_token().spec_kind()) == Some(op.kind),
            r matches Err(e) ==> match old(input).spec_peek() {
                None => old(input).is_peek_error(e),
                Some(t) => e.span == t.spec_span() && is_internal(e, not_binary_message(t.spec_kind())),
            },
    {
        let ghost before = *input;
        let token = match input.expect_next() {
            Ok(t) => t,
            Err(e) => return Err(e),
        };
        proof {
            lemma_taken_one(before, *input);
        }
        let r = Self::try_from(token);
        proof {
            if let Ok(op) = r {
                lemma_token_ext(token, op.spec_token());
            }
        }
        r
    }
}

impl<'src> UnaryOp<'src> {
    /// The unary operator of `token`, or an internal error at its span.
    pub fn try_from(token: Token<'src>) -> (r: ParseResult<'src, UnaryOp<'src>>)
        ensures
            unary_op_of(token.spec_kind()) matches Some(k) ==> (r matches Ok(op) && op.kind == k
                && op.span == token.spec_span()),
            unary_op_of(token.spec_kind()) is None ==> (r matches Err(e) && e.span
                == token.spec_span() && is_internal(e, not_unary_message(token.spec_kind()))),
    {
        let span = token.span();
        match UnaryOpKind::try_from(token.kind()) {
            Ok(kind) => Ok(UnaryOp { kind, span }),
            Err(message) => Err(internal_at(span, message)),
        }
    }

    /// Reads a unary operator. A token of another kind is reported as an internal error at
    /// its span, after it was read.
    pub fn parse(input: &mut ParseStream<'src>) -> (r: ParseResult<'src, UnaryOp<'src>>)
        requires
            old(input).wf(),
        ensures
            old(input).moved_to(*final(input)),
            read_as(r, unary_op_end(old(input).spec_buffer(), old(input).spec_cursor() as int), old(input).spec_buffer(), *final(input)),
            r is Ok <==> (old(input).spec_peek() matches Some(t) && unary_op_of(t.spec_kind()) is Some),
            r matches Ok(op) ==> reads(*old(input), *final(input), op.spec_tokens())
                && unary_op_of(op.spec_token().spec_kind()) == Some(op.kind),
            r matches Err(e) ==> match old(input).spec_peek() {
                None => old(input).is_peek_error(e),
                Some(t) => e.span == t.spec_span() && is_internal(e, not_unary_message(t.spec_kind())),
            },
    {
        let ghost before = *input;
        let token = match input.expect_next() {
            Ok(t) => t,
            Err(e) => return Err(e),
        };
        proof {
            lemma_taken_one(before, *input);
        }
        let r = Self::try_from(token);
        proof {
            if let Ok(op) = r {
                lemma_token_ext(token, op.spec_token());
            }
        }
        r
    }
}

impl<'src> UnaryExpr<'src> {
    /// Reads a unary operator and the term it applies to.
    pub fn parse(input: &mut ParseStream<'src>) -> (r: ParseResult<'src, UnaryExpr<'src>>)
        requires
            old(input).wf(),
        ensures
            old(input).moved_to(*final(input)),
            read_as(r, unary_expr_end(old(input).spec_buffer(), old(input).spec_cursor() as int), old(input).spec_buffer(), *final(input)),
            r matches Ok(u) ==> u.wf() && reads(*old(input), *final(input), u.spec_tokens()),
    {
        let ghost s0 = *input;
        let op = match UnaryOp::parse(input) {
            Ok(op) => op,
            Err(e) => return Err(e),
        };
        let ghost s1 = *input;
        proof {
            assert(s0.taken(s1).len() == 1);
        }
        let operand = match Term::parse(input) {
            Ok(t) => t,
            Err(e) => return Err(e),
        };
        proof {
            lemma_taken_concat(s0, s1, *input);
        }
        let u = UnaryExpr { op, operand };
        proof {
            assert(u.spec_tokens() =~= s0.taken(*input));
        }
        Ok(u)
    }
}

impl<'src> Break<'src> {
    /// Reads `break`.
    pub fn parse(input: &mut ParseStream<'src>) -> (r: ParseResult<'src, Break<'src>>)
        requires
            old(input).wf(),
        ensures
            old(input).moved_to(*final(input)),
            read_as(r, expect_at(old(input).spec_buffer(), old(input).spec_cursor() as int, TokenKind::Break), old(input).spec_buffer(), *final(input)),
            r is Ok <==> old(input).next_is(TokenKind::Break),
            r matches Ok(b) ==> b.wf() && reads(*old(input), *final(input), b.spec_tokens()),
            r matches Err(e) ==> old(input).is_expect_error(TokenKind::Break, e),
    {
        let ghost before = *input;
        let token = match input.expect(TokenKind::Break) {
            Ok(t) => t,
            Err(e) => return Err(e),
        };
        proof {
            lemma_taken_one(before, *input);
        }
        Ok(Break::from_token(token))
    }
}

impl<'src> Continue<'src> {
    /// Reads `continue`.
    pub fn parse(input: &mut ParseStream<'src>) -> (r: ParseResult<'src, Continue<'src>>)
        requires
            old(input).wf(),
        ensures
            old(input).moved_to(*final(input)),
            read_as(r, expect_at(old(input).spec_buffer(), old(input).spec_cursor() as int, TokenKind::Continue), old(input).spec_buffer(), *final(input)),
            r is Ok <==> old(input).next_is(TokenKind::Continue),
            r matches Ok(c) ==> c.wf() && reads(*old(input), *final(input), c.spec_tokens()),
            r matches Err(e) ==> old(input).is_expect_error(TokenKind::Continue, e),
    {
        let ghost before = *input;
        let token = match input.expect(TokenKind::Continue) {
            Ok(t) => t,
            Err(e) => return Err(e),
        };
        proof {
            lemma_taken_one(before, *input);
        }
        Ok(Continue::from_token(token))
    }
}

/// The error reported where a comma-separated list holds no item.
fn empty_list_error<'src>() -> (e: ParseError<'src>)
    ensures
        is_unspanned(e),
        is_internal(e, empty_list_message()),
{
    proof {
        reveal_strlit("punctuated list did not parse any items");
    }
    let message = String::from_str("punctuated list did not parse any items");
    ParseError::new_unspanned(ParseErrorKind::Internal(Internal(message)))
}

/// Reads a comma-separated list of identifiers, which may end with a comma: items as long
/// as they come, each followed by a comma until one is not. Reads nothing and reports an
/// internal error pointing nowhere where the list would be empty.
pub fn parse_ident_list<'src>(input: &mut ParseStream<'src>) -> (r: ParseResult<
    'src,
    Punctuated<Ident<'src>, Token<'src>>,
>)
    requires
        old(input).wf(),
    ensures
        old(input).moved_to(*final(input)),
        read_as(r, ident_list_end(old(input).spec_buffer(), old(input).spec_cursor() as int), old(input).spec_buffer(), *final(input)),
        r is Ok <==> old(input).next_is(TokenKind::Ident),
        r matches Ok(l) ==> idents_wf(l) && l.spec_len() > 0 && reads(
            *old(input),
            *final(input),
            idents_tokens(l),
        ),
        r matches Ok(l) && l.spec_tail() is Some ==> !final(input).next_is(TokenKind::Comma),
        r matches Ok(l) && l.spec_tail() is None ==> !final(input).next_is(TokenKind::Ident),
        r matches Err(e) ==> is_unspanned(e) && is_internal(e, empty_list_message())
            && final(input).spec_cursor() == old(input).spec_cursor(),
{
    let ghost start = *input;
    let mut list: Punctuated<Ident<'src>, Token<'src>> = Punctuated::new();
    proof {
        lemma_taken_none(start, *input);
        assert(idents_tokens(list) =~= Seq::<Token<'src>>::empty());
    }
    loop
        invariant_except_break
            list.spec_tail() is None,
            idents_from(start.spec_buffer(), start.spec_cursor() as int) == idents_from(
                input.spec_buffer(),
                input.spec_cursor() as int,
            ),
        invariant
            start.wf(),
            start.moved_to(*input),
            idents_wf(list),
            idents_tokens(list) == start.taken(*input),
            2 * list.spec_pairs().len() <= input.spec_cursor() - start.spec_cursor(),
            list.spec_len() > 0 ==> start.next_is(TokenKind::Ident),
            list.spec_len() == 0 ==> input.spec_cursor() == start.spec_cursor(),
        ensures
            input.spec_cursor() == idents_from(start.spec_buffer(), start.spec_cursor() as int),
            start.moved_to(*input),
            idents_wf(list),
            idents_tokens(list) == start.taken(*input),
            list.spec_tail() is Some ==> !input.next_is(TokenKind::Comma),
            list.spec_tail() is None ==> !input.next_is(TokenKind::Ident),
            list.spec_len() > 0 <==> start.next_is(TokenKind::Ident),
            list.spec_len() == 0 ==> input.spec_cursor() == start.spec_cursor(),
        decreases input.spec_len(),
    {
        let ghost before = *input;
        let save = input.cursor();
        let item = match Ident::parse(input) {
            Ok(i) => i,
            Err(_) => {
                input.set_cursor(save);
                break ;
            },
        };
        proof {
            lemma_taken_concat(start, before, *input);
        }
        let ghost middle = *input;
        let save = input.cursor();
        let punct = match input.expect(TokenKind::Comma) {
            Ok(c) => c,
            Err(_) => {
                input.set_cursor(save);
                let ghost old_list = list;
                list.push_item(item);
                proof {
                    assert(idents_tokens(list) =~= idents_tokens(old_list) + item.spec_tokens());
                }
                break ;
            },
        };
        proof {
            lemma_taken_one(middle, *input);
            lemma_taken_concat(start, middle, *input);
        }
        let ghost old_list = list;
        list.push_pair((item, punct));
        proof {
            let pairs = list.spec_pairs();
            assert(pairs.drop_last() =~= old_list.spec_pairs());
            assert(idents_tokens(list) =~= idents_tokens(old_list) + item.spec_tokens() + seq![punct]);
        }
    }
    if list.is_empty() {
        return Err(empty_list_error());
    }
    Ok(list)
}

impl<'src> FuncArgs<'src> {
    /// Reads the arguments of a function: `self` first, optionally, then a comma-separated
    /// list of identifiers, which may be empty. After `self`, an identifier that is not
    /// preceded by a comma is reported as unexpected.
    #[verifier::spinoff_prover]
    pub fn parse(input: &mut ParseStream<'src>) -> (r: ParseResult<'src, FuncArgs<'src>>)
        requires
            old(input).wf(),
        ensures
            old(input).moved_to(*final(input)),
            read_as(r, func_args_end(old(input).spec_buffer(), old(input).spec_cursor() as int), old(input).spec_buffer(), *final(input)),
            r is Err <==> (next_is_self(*old(input)) && (old(input).spec_peek_at(1) matches Some(t)
                && t.spec_kind() == TokenKind::Ident)),
            r matches Err(e) ==> crate::errors::is_unexpected(
                e,
                old(input).spec_peek_at(1)->0.spec_span(),
                TokenKind::Ident,
                Some(TokenKind::Comma),
            ),
            r matches Ok(a) ==> a.wf() && reads(*old(input), *final(input), a.spec_tokens()),
    {
        let ghost start = *input;
        let save = input.cursor();
        let self_arg = match SelfKw::parse(input) {
            Ok(_self) => {
                let ghost middle = *input;
                proof {
                    assert(start.taken(middle).len() == 1);
                    assert(middle.spec_cursor() == start.spec_cursor() + 1);
                    assert(middle.spec_peek() == start.spec_peek_at(1));
                }
                if input.peek_matches(TokenKind::Comma).is_some() || input.peek_matches(
                    TokenKind::Ident,
                ).is_some() {
                    let _comma = match input.expect(TokenKind::Comma) {
                        Ok(c) => c,
                        Err(e) => return Err(e),
                    };
                    proof {
                        lemma_taken_one(middle, *input);
                        lemma_taken_concat(start, middle, *input);
                    }
                    Some((_self, Some(_comma)))
                } else {
                    Some((_self, None))
                }
            },
            Err(_) => {
                input.set_cursor(save);
                proof {
                    lemma_taken_none(start, *input);
                }
                None
            },
        };
        let ghost middle = *input;
        let save = input.cursor();
        let args = match parse_ident_list(input) {
            Ok(list) => list,
            Err(_) => {
                input.set_cursor(save);
                Punctuated::new()
            },
        };
        proof {
            lemma_taken_concat(start, middle, *input);
            let empty = Seq::<Token<'src>>::empty();
            if args.spec_len() == 0 {
                assert(args.spec_pairs().len() == 0);
                assert(idents_tokens(args) =~= empty);
                assert(middle.taken(*input) =~= empty);
            }
        }
        match self_arg {
            Some((_self, _comma)) => {
                let args = match _comma {
                    Some(c) => Some((c, args)),
                    None => None,
                };
                let r = FuncArgs::WithSelf { _self, args };
                proof {
                    if args is None {
                        assert(start.taken(*input) =~= start.taken(middle));
                    } else {
                        assert(start.taken(*input) =~= start.taken(middle) + middle.taken(*input));
                        assert(r.spec_tokens() =~= start.taken(*input));
                    }
                }
                Ok(r)
            },
            None => {
                proof {
                    assert(start.taken(*input) =~= middle.taken(*input));
                }
                Ok(FuncArgs::WithoutSelf { args })
            },
        }
    }
}


/// The binding powers (left, right) of a token that continues an expression; `None` for a
/// token that ends one.
pub fn binding_power(kind: TokenKind) -> (p: Option<(u8, u8)>)
    ensures
        p == spec_binding_power(kind),
{
    match kind {
        TokenKind::Plus | TokenKind::Minus => Some((1, 2)),
        TokenKind::Asterisk | TokenKind::Slash => Some((3, 4)),
        TokenKind::Dot | TokenKind::LeftBracket => Some((5, 6)),
        TokenKind::EqEq | TokenKind::Gt | TokenKind::Lt | TokenKind::Gte | TokenKind::Lte => Some(
            (1, 2),
        ),
        TokenKind::And => Some((3, 2)),
        TokenKind::Or => Some((1, 1)),
        _ => None,
    }
}

/// `t`, where it is there, starts a call, an index access or a field access after a term.
pub open spec fn is_postfix<'src>(t: Option<Token<'src>>) -> bool {
    t matches Some(u) && (u.spec_kind() == TokenKind::LeftParen || u.spec_kind()
        == TokenKind::LeftBracket || u.spec_kind() == TokenKind::Dot)
}

/// The next token of `input` is an identifier or a literal, and the one after it does not
/// continue the term.
pub open spec fn lone_simple_term<'src>(input: ParseStream<'src>) -> bool {
    &&& input.spec_peek() matches Some(t) && (t.spec_kind() == TokenKind::Ident || is_lit_kind(
        t.spec_kind(),
    ))
    &&& !is_postfix(input.spec_peek_at(1))
}

/// `t`, where it is there, continues an expression whose operators bind at least as tightly
/// as `precedence`.
pub open spec fn continues_expr<'src>(t: Option<Token<'src>>, precedence: u8) -> bool {
    t matches Some(u) && (spec_binding_power(u.spec_kind()) matches Some(p) && p.0 >= precedence)
}

/// A token of this kind starts a term.
pub open spec fn starts_term(kind: TokenKind) -> bool {
    kind == TokenKind::LeftParen || is_lit_kind(kind) || kind == TokenKind::Ident || kind
        == TokenKind::Func || kind == TokenKind::LeftBracket || kind == TokenKind::LeftBrace || kind
        == TokenKind::Extern
}

/// An expression as an operand: a lone term stays what it is, anything else is wrapped.
fn as_operand<'src>(e: Expr<'src>) -> (t: Term<'src>)
    ensures
        t.spec_tokens() == e.spec_tokens(),
        e.wf() ==> t.wf(),
        t == match e {
            Expr::Term(x) => x,
            other => Term::Expr(Box::new(other)),
        },
{
    match e {
        Expr::Term(t) => t,
        other => Term::Expr(Box::new(other)),
    }
}

impl<'src> Expr<'src> {
    /// Reads an expression.
    pub fn parse(input: &mut ParseStream<'src>) -> (r: ParseResult<'src, Expr<'src>>)
        requires
            old(input).wf(),
        ensures
            old(input).moved_to(*final(input)),
            read_as(r, expr_end(old(input).spec_buffer(), old(input).spec_cursor() as int, 0), old(input).spec_buffer(), *final(input)),
            r matches Ok(e) ==> e.wf() && reads(*old(input), *final(input), e.spec_tokens()),
            r is Ok ==> !continues_expr(final(input).spec_peek(), 0),
            r matches Ok(e) ==> grouped(e, 0) && no_access_operators(e),
            lone_simple_term(*old(input)) && !continues_expr(old(input).spec_peek_at(1), 0)
                ==> (r matches Ok(e) && e is Term && e.spec_tokens() == seq![
                old(input).spec_peek()->0,
            ]),
        decreases old(input).spec_len(), 4nat,
    {
        Self::parse_precedence(input, 0)
    }

    /// Reads an expression whose operators bind at least as tightly as `precedence`: a term,
    /// then, while the next token is an operator whose left binding power is at least
    /// `precedence`, that operator and an expression of its right binding power.
    #[verifier::spinoff_prover]
    pub fn parse_precedence(input: &mut ParseStream<'src>, precedence: u8) -> (r: ParseResult<
        'src,
        Expr<'src>,
    >)
        requires
            old(input).wf(),
        ensures
            old(input).moved_to(*final(input)),
            read_as(r, expr_end(old(input).spec_buffer(), old(input).spec_cursor() as int, precedence), old(input).spec_buffer(), *final(input)),
            r matches Ok(e) ==> e.wf() && reads(*old(input), *final(input), e.spec_tokens()),
            r is Ok ==> !continues_expr(final(input).spec_peek(), precedence),
            r matches Ok(e) ==> grouped(e, precedence) && !(e is Unary),
            r matches Ok(e) ==> no_access_operators(e),
            r is Ok ==> !is_postfix(final(input).spec_peek()),
            r matches Ok(Expr::Term(t)) ==> !(t is Expr),
            lone_simple_term(*old(input)) && !continues_expr(old(input).spec_peek_at(1), precedence)
                ==> (r matches Ok(e) && e is Term && e.spec_tokens() == seq![
                old(input).spec_peek()->0,
            ]),
        decreases old(input).spec_len(), 3nat,
    {
        let ghost s0 = *input;
        let first = match Term::parse(input) {
            Ok(t) => t,
            Err(e) => return Err(e),
        };
        proof {
            lemma_term_nonempty(first);
        }
        let mut left = Expr::Term(first);
        loop
            invariant
                s0 == *old(input),
                s0.wf(),
                s0.moved_to(*input),
                left.wf(),
                left.spec_tokens() == s0.taken(*input),
                input.spec_len() < s0.spec_len(),
                lone_simple_term(s0) && !continues_expr(s0.spec_peek_at(1), precedence)
                    ==> input.spec_cursor() == s0.spec_cursor() + 1 && left is Term
                    && left.spec_tokens() == seq![s0.spec_peek()->0],
                expr_end(s0.spec_buffer(), s0.spec_cursor() as int, precedence) == expr_operators(
                    input.spec_buffer(),
                    input.spec_cursor() as int,
                    precedence,
                ),
                grouped(left, precedence),
                left matches Expr::Term(t) ==> !(t is Expr),
                !(left is Unary),
                left matches Expr::Binary(b) ==> !continues_expr(input.spec_peek(), op_power(b.op).1),
                no_access_operators(left),
                !is_postfix(input.spec_peek()),
            ensures
                expr_end(s0.spec_buffer(), s0.spec_cursor() as int, precedence) == Ok::<
                    int,
                    Failure<'src>,
                >(input.spec_cursor() as int),
                !continues_expr(input.spec_peek(), precedence),
            decreases input.spec_len(),
        {
            proof {
                if input.spec_cursor() == s0.spec_cursor() + 1 {
                    assert(input.spec_peek() == s0.spec_peek_at(1));
                }
            }
            let token = match input.peek() {
                Some(t) => t,
                None => break,
            };
            let (lbp, rbp) = match binding_power(token.kind()) {
                Some(p) => p,
                None => break,
            };
            if lbp < precedence {
                break;
            }
            let ghost s1 = *input;
            let op = match BinaryOp::parse(input) {
                Ok(op) => op,
                Err(e) => return Err(e),
            };
            let ghost s2 = *input;
            proof {
                assert(s1.taken(s2) == seq![op.spec_token()]);
                assert(s1.taken(s2)[0] == token);
            }
            let lhs = as_operand(left);
            let rhs = match Expr::parse_precedence(input, rbp) {
                Ok(e) => as_operand(e),
                Err(e) => return Err(e),
            };
            let ghost prev = left;
            left = Expr::Binary(BinaryExpr { lhs, op, rhs });
            proof {
                assert(op.spec_token() == token);
                assert(binary_op_token(op.kind) == token.spec_kind());
                assert(op_power(op) == (lbp, rbp));
                if let Expr::Binary(inner) = prev {
                    assert(!continues_expr(s1.spec_peek(), op_power(inner.op).1));
                    assert(lbp < op_power(inner.op).1);
                }
                assert(grouped(left, precedence));
            }
            proof {
                lemma_taken_concat(s0, s1, s2);
                lemma_taken_concat(s0, s2, *input);
                assert(left.spec_tokens() =~= s0.taken(*input));
            }
        }
        Ok(left)
    }
}

impl<'src> Term<'src> {
    /// Reads a term: a parenthesized expression, a literal, an identifier, a function, a
    /// list, an object or `extern ...`, followed by any number of calls, index accesses and
    /// field accesses. A token that starts none of these is reported as an internal error
    /// at its span, and is not read.
    #[verifier::spinoff_prover]
    pub fn parse(input: &mut ParseStream<'src>) -> (r: ParseResult<'src, Term<'src>>)
        requires
            old(input).wf(),
        ensures
            old(input).moved_to(*final(input)),
            r is Ok <==> term_end(old(input).spec_buffer(), old(input).spec_cursor() as int) is Ok,
            r matches Ok(t) ==> term_end(old(input).spec_buffer(), old(input).spec_cursor() as int) == Ok::<(int, Suffix), Failure<'src>>(
                (final(input).spec_cursor() as int, suffix_of(t)),
            ),
            r matches Err(e) ==> term_end(old(input).spec_buffer(), old(input).spec_cursor() as int) matches Err(f) && reported_as(
                old(input).spec_buffer(),
                f,
                e,
            ),
            r matches Ok(t) ==> t.wf() && reads(*old(input), *final(input), t.spec_tokens()),
            r is Ok ==> !is_postfix(final(input).spec_peek()),
            r matches Ok(t) ==> !(t is Expr),
            old(input).spec_peek() is None ==> (r matches Err(e) && old(input).is_peek_error(e)),
            (old(input).spec_peek() matches Some(t) && !starts_term(t.spec_kind())) ==> (r matches Err(e)
                && e.span == old(input).spec_peek()->0.spec_span() && is_internal(
                e,
                unsupported_term_message(old(input).spec_peek()->0.spec_kind()),
            ) && final(input).spec_cursor() == old(input).spec_cursor()),
            lone_simple_term(*old(input)) ==> (r matches Ok(t) && t.spec_tokens() == seq![
                old(input).spec_peek()->0,
            ]),
        decreases old(input).spec_len(), 2nat,
    {
        let ghost s0 = *input;
        let token = match input.expect_peek() {
            Ok(t) => t,
            Err(e) => return Err(e),
        };
        let mut term = match token.kind() {
            TokenKind::LeftParen => match ParenExpr::parse(input) {
                Ok(p) => Term::ParenExpr(p),
                Err(e) => return Err(e),
            },
            TokenKind::Number | TokenKind::True | TokenKind::False | TokenKind::String
            | TokenKind::NoneKw => match Lit::parse(input) {
                Ok(l) => Term::Lit(l),
                Err(e) => return Err(e),
            },
            TokenKind::Ident => match Ident::parse(input) {
                Ok(i) => Term::Ident(i),
                Err(e) => return Err(e),
            },
            TokenKind::Func => match Func::parse(input) {
                Ok(f) => Term::Func(Box::new(f)),
                Err(e) => return Err(e),
            },
            TokenKind::LeftBracket => match List::parse(input) {
                Ok(l) => Term::List(l),
                Err(e) => return Err(e),
            },
            TokenKind::LeftBrace => match Obj::parse(input) {
                Ok(o) => Term::Obj(o),
                Err(e) => return Err(e),
            },
            TokenKind::Extern => match Extern::parse(input) {
                Ok(x) => Term::Extern(x),
                Err(e) => return Err(e),
            },
            kind => {
                proof {
                    reveal_strlit("unsupported term `");
                    reveal_strlit("`");
                }
                let message = message3("unsupported term `", kind.name(), "`");
                return Err(internal_at(token.span(), message));
            },
        };
        proof {
            lemma_term_nonempty(term);
            if lone_simple_term(s0) {
                assert(s0.taken(*input) == seq![token]);
                assert(input.spec_cursor() == s0.spec_cursor() + 1);
            }
        }
        loop
            invariant
                s0 == *old(input),
                s0.wf(),
                s0.moved_to(*input),
                term.wf(),
                term.spec_tokens() == s0.taken(*input),
                input.spec_len() < s0.spec_len(),
                s0.spec_peek() matches Some(t) && starts_term(t.spec_kind()),
                lone_simple_term(s0) ==> input.spec_cursor() == s0.spec_cursor() + 1
                    && term.spec_tokens() == seq![s0.spec_peek()->0],
                term_end(s0.spec_buffer(), s0.spec_cursor() as int) == term_suffixes(
                    input.spec_buffer(),
                    input.spec_cursor() as int,
                    suffix_of(term),
                ),
                !(term is Expr),
            ensures
                term_end(s0.spec_buffer(), s0.spec_cursor() as int) == Ok::<
                    (int, Suffix),
                    Failure<'src>,
                >((input.spec_cursor() as int, suffix_of(term))),
                !is_postfix(input.spec_peek()),
            decreases input.spec_len(),
        {
            proof {
                if input.spec_cursor() == s0.spec_cursor() + 1 {
                    assert(input.spec_peek() == s0.spec_peek_at(1));
                }
            }
            let token = match input.peek() {
                Some(t) => t,
                None => break,
            };
            let ghost s1 = *input;
            let ghost prev = term;
            match token.kind() {
                TokenKind::LeftParen => {
                    let c = match Call::parse_with_callee(input, Box::new(term)) {
                        Ok(c) => c,
                        Err(e) => return Err(e),
                    };
                    term = Term::Call(c);
                },
                TokenKind::LeftBracket => {
                    let a = match IndexAcc::parse_with_list(input, Box::new(term)) {
                        Ok(a) => a,
                        Err(e) => return Err(e),
                    };
                    term = Term::IndexAcc(a);
                },
                TokenKind::Dot => {
                    let a = match FieldAcc::parse_with_object(input, Box::new(term)) {
                        Ok(a) => a,
                        Err(e) => return Err(e),
                    };
                    term = Term::FieldAcc(a);
                },
                _ => break,
            }
            proof {
                lemma_taken_concat(s0, s1, *input);
                assert(term.spec_tokens() =~= prev.spec_tokens() + s1.taken(*input));
            }
        }
        Ok(term)
    }
}

impl<'src> ParenExpr<'src> {
    /// Reads `( expr )`.
    pub fn parse(input: &mut ParseStream<'src>) -> (r: ParseResult<'src, ParenExpr<'src>>)
        requires
            old(input).wf(),
        ensures
            old(input).moved_to(*final(input)),
            read_as(r, paren_end(old(input).spec_buffer(), old(input).spec_cursor() as int), old(input).spec_buffer(), *final(input)),
            r matches Ok(p) ==> p.wf() && reads(*old(input), *final(input), p.spec_tokens()),
            !old(input).next_is(TokenKind::LeftParen) ==> (r matches Err(e) && old(input).is_expect_error(
                TokenKind::LeftParen,
                e,
            )),
            r matches Ok(p) ==> expr_read_at(old(input).spec_buffer(), old(input).spec_cursor() as int + 1, *p.expr),
        decreases old(input).spec_len(), 1nat,
    {
        let ghost s0 = *input;
        let _lp = match input.expect(TokenKind::LeftParen) {
            Ok(t) => t,
            Err(e) => return Err(e),
        };
        let ghost s1 = *input;
        let expr = match Expr::parse_precedence(input, 0) {
            Ok(e) => e,
            Err(e) => return Err(e),
        };
        let ghost s2 = *input;
        let _rp = match input.expect(TokenKind::RightParen) {
            Ok(t) => t,
            Err(e) => return Err(e),
        };
        proof {
            lemma_taken_one(s0, s1);
            lemma_taken_one(s2, *input);
            lemma_taken_concat(s0, s1, s2);
            lemma_taken_concat(s0, s2, *input);
        }
        let p = ParenExpr { _lp, expr: Box::new(expr), _rp };
        proof {
            assert(p.spec_tokens() =~= s0.taken(*input));
        }
        Ok(p)
    }
}

/// Reads a comma-separated list of expressions, which may end with a comma: expressions as
/// long as they come, each followed by a comma until one is not. Reads nothing and reports
/// an internal error pointing nowhere where the list would be empty.
pub fn parse_expr_list<'src>(input: &mut ParseStream<'src>) -> (r: ParseResult<
    'src,
    Punctuated<Expr<'src>, Token<'src>>,
>)
    requires
        old(input).wf(),
    ensures
        old(input).moved_to(*final(input)),
        read_as(r, expr_list_end(old(input).spec_buffer(), old(input).spec_cursor() as int), old(input).spec_buffer(), *final(input)),
        r matches Ok(l) ==> exprs_wf(l) && l.spec_len() > 0 && reads(
            *old(input),
            *final(input),
            exprs_tokens(l),
        ),
        r matches Ok(l) && l.spec_tail() is Some ==> !final(input).next_is(TokenKind::Comma),
        r matches Err(e) ==> is_unspanned(e) && is_internal(e, empty_list_message())
            && final(input).spec_cursor() == old(input).spec_cursor(),
    decreases old(input).spec_len(), 5nat,
{
    let ghost start = *input;
    let mut list: Punctuated<Expr<'src>, Token<'src>> = Punctuated::new();
    proof {
        lemma_taken_none(start, *input);
        assert(exprs_tokens(list) =~= Seq::<Token<'src>>::empty());
    }
    loop
        invariant_except_break
            list.spec_tail() is None,
            exprs_from(start.spec_buffer(), start.spec_cursor() as int) == exprs_from(
                input.spec_buffer(),
                input.spec_cursor() as int,
            ),
        invariant
            start == *old(input),
            start.wf(),
            start.moved_to(*input),
            exprs_wf(list),
            exprs_tokens(list) == start.taken(*input),
            2 * list.spec_pairs().len() <= input.spec_cursor() - start.spec_cursor(),
            list.spec_len() == 0 ==> input.spec_cursor() == start.spec_cursor(),
            list.spec_len() > 0 ==> expr_end(start.spec_buffer(), start.spec_cursor() as int, 0) is Ok,
        ensures
            list.spec_len() == 0 ==> expr_end(start.spec_buffer(), start.spec_cursor() as int, 0) is Err,
            list.spec_len() > 0 ==> input.spec_cursor() == exprs_from(
                start.spec_buffer(),
                start.spec_cursor() as int,
            ),
            start.moved_to(*input),
            exprs_wf(list),
            exprs_tokens(list) == start.taken(*input),
            list.spec_tail() is Some ==> !input.next_is(TokenKind::Comma),
            list.spec_len() == 0 ==> input.spec_cursor() == start.spec_cursor(),
        decreases input.spec_len(),
    {
        let ghost before = *input;
        let save = input.cursor();
        let item = match Expr::parse(input) {
            Ok(e) => e,
            Err(_) => {
                input.set_cursor(save);
                break ;
            },
        };
        proof {
            lemma_expr_nonempty(item);
            lemma_taken_concat(start, before, *input);
        }
        let ghost middle = *input;
        let save = input.cursor();
        let punct = match input.expect(TokenKind::Comma) {
            Ok(c) => c,
            Err(_) => {
                input.set_cursor(save);
                let ghost old_list = list;
                list.push_item(item);
                proof {
                    assert(exprs_tokens(list) =~= exprs_tokens(old_list) + item.spec_tokens());
                }
                break ;
            },
        };
        proof {
            lemma_taken_one(middle, *input);
            lemma_taken_concat(start, middle, *input);
        }
        let ghost old_list = list;
        list.push_pair((item, punct));
        proof {
            let pairs = list.spec_pairs();
            assert(pairs.drop_last() =~= old_list.spec_pairs());
            assert(exprs_tokens(list) =~= exprs_tokens(old_list) + item.spec_tokens() + seq![punct]);
        }
    }
    if list.is_empty() {
        return Err(empty_list_error());
    }
    Ok(list)
}

/// Reads a comma-separated list of object fields, which may end with a comma. Reads nothing
/// and reports an internal error pointing nowhere where the list would be empty.
pub fn parse_field_list<'src>(input: &mut ParseStream<'src>) -> (r: ParseResult<
    'src,
    Punctuated<ObjField<'src>, Token<'src>>,
>)
    requires
        old(input).wf(),
    ensures
        old(input).moved_to(*final(input)),
        read_as(r, field_list_end(old(input).spec_buffer(), old(input).spec_cursor() as int), old(input).spec_buffer(), *final(input)),
        r matches Ok(l) ==> fields_wf(l) && l.spec_len() > 0 && reads(
            *old(input),
            *final(input),
            fields_tokens(l),
        ),
        r matches Ok(l) && l.spec_tail() is Some ==> !final(input).next_is(TokenKind::Comma),
        r matches Err(e) ==> is_unspanned(e) && is_internal(e, empty_list_message())
            && final(input).spec_cursor() == old(input).spec_cursor(),
    decreases old(input).spec_len(), 2nat,
{
    let ghost start = *input;
    let mut list: Punctuated<ObjField<'src>, Token<'src>> = Punctuated::new();
    proof {
        lemma_taken_none(start, *input);
        assert(fields_tokens(list) =~= Seq::<Token<'src>>::empty());
    }
    loop
        invariant_except_break
            list.spec_tail() is None,
            fields_from(start.spec_buffer(), start.spec_cursor() as int) == fields_from(
                input.spec_buffer(),
                input.spec_cursor() as int,
            ),
        invariant
            start == *old(input),
            start.wf(),
            start.moved_to(*input),
            fields_wf(list),
            fields_tokens(list) == start.taken(*input),
            2 * list.spec_pairs().len() <= input.spec_cursor() - start.spec_cursor(),
            list.spec_len() == 0 ==> input.spec_cursor() == start.spec_cursor(),
            list.spec_len() > 0 ==> field_end(start.spec_buffer(), start.spec_cursor() as int) is Ok,
        ensures
            list.spec_len() == 0 ==> field_end(start.spec_buffer(), start.spec_cursor() as int) is Err,
            list.spec_len() > 0 ==> input.spec_cursor() == fields_from(
                start.spec_buffer(),
                start.spec_cursor() as int,
            ),
            start.moved_to(*input),
            fields_wf(list),
            fields_tokens(list) == start.taken(*input),
            list.spec_tail() is Some ==> !input.next_is(TokenKind::Comma),
            list.spec_len() == 0 ==> input.spec_cursor() == start.spec_cursor(),
        decreases input.spec_len(),
    {
        let ghost before = *input;
        let save = input.cursor();
        let item = match ObjField::parse(input) {
            Ok(f) => f,
            Err(_) => {
                input.set_cursor(save);
                break ;
            },
        };
        proof {
            lemma_taken_concat(start, before, *input);
        }
        let ghost middle = *input;
        let save = input.cursor();
        let punct = match input.expect(TokenKind::Comma) {
            Ok(c) => c,
            Err(_) => {
                input.set_cursor(save);
                let ghost old_list = list;
                list.push_item(item);
                proof {
                    assert(fields_tokens(list) =~= fields_tokens(old_list) + item.spec_tokens());
                }
                break ;
            },
        };
        proof {
            lemma_taken_one(middle, *input);
            lemma_taken_concat(start, middle, *input);
        }
        let ghost old_list = list;
        list.push_pair((item, punct));
        proof {
            let pairs = list.spec_pairs();
            assert(pairs.drop_last() =~= old_list.spec_pairs());
            assert(fields_tokens(list) =~= fields_tokens(old_list) + item.spec_tokens() + seq![punct]);
        }
    }
    if list.is_empty() {
        return Err(empty_list_error());
    }
    Ok(list)
}

impl<'src> ObjField<'src> {
    /// Reads `name = value`.
    pub fn parse(input: &mut ParseStream<'src>) -> (r: ParseResult<'src, ObjField<'src>>)
        requires
            old(input).wf(),
        ensures
            old(input).moved_to(*final(input)),
            read_as(r, field_end(old(input).spec_buffer(), old(input).spec_cursor() as int), old(input).spec_buffer(), *final(input)),
            r matches Ok(f) ==> f.wf() && reads(*old(input), *final(input), f.spec_tokens()),
            !old(input).next_is(TokenKind::Ident) ==> (r matches Err(e) && old(input).is_expect_error(
                TokenKind::Ident,
                e,
            )),
        decreases old(input).spec_len(), 1nat,
    {
        let ghost s0 = *input;
        let name = match Ident::parse(input) {
            Ok(i) => i,
            Err(e) => return Err(e),
        };
        let ghost s1 = *input;
        let _eq = match input.expect(TokenKind::Eq) {
            Ok(t) => t,
            Err(e) => return Err(e),
        };
        let ghost s2 = *input;
        let value = match Expr::parse(input) {
            Ok(e) => e,
            Err(e) => return Err(e),
        };
        proof {
            lemma_taken_one(s1, s2);
            lemma_taken_concat(s0, s1, s2);
            lemma_taken_concat(s0, s2, *input);
        }
        let f = ObjField { name, _eq, value };
        proof {
            assert(f.spec_tokens() =~= s0.taken(*input));
        }
        Ok(f)
    }
}

impl<'src> Func<'src> {
    /// Reads `func ( args ) do ... end`.
    #[verifier::spinoff_prover]
    pub fn parse(input: &mut ParseStream<'src>) -> (r: ParseResult<'src, Func<'src>>)
        requires
            old(input).wf(),
        ensures
            old(input).moved_to(*final(input)),
            read_as(r, func_end(old(input).spec_buffer(), old(input).spec_cursor() as int), old(input).spec_buffer(), *final(input)),
            r matches Ok(f) ==> f.wf() && reads(*old(input), *final(input), f.spec_tokens()),
            !old(input).next_is(TokenKind::Func) ==> (r matches Err(e) && old(input).is_expect_error(
                TokenKind::Func,
                e,
            )),
        decreases old(input).spec_len(), 1nat,
    {
        let ghost s0 = *input;
        let _func = match input.expect(TokenKind::Func) {
            Ok(t) => t,
            Err(e) => return Err(e),
        };
        let ghost s1 = *input;
        let _lp = match input.expect(TokenKind::LeftParen) {
            Ok(t) => t,
            Err(e) => return Err(e),
        };
        let ghost s2 = *input;
        let save = input.cursor();
        let args = match FuncArgs::parse(input) {
            Ok(a) => a,
            Err(e) => {
                input.set_cursor(save);
                return Err(e);
            },
        };
        let ghost s3 = *input;
        let _rp = match input.expect(TokenKind::RightParen) {
            Ok(t) => t,
            Err(e) => return Err(e),
        };
        let ghost s4 = *input;
        let block = match DoBlock::parse(input) {
            Ok(x) => x,
            Err(e) => return Err(e),
        };
        let ghost s5 = *input;
        proof {
            lemma_taken_one(s0, s1);
            lemma_taken_one(s1, s2);
            lemma_taken_one(s3, s4);
            lemma_taken_concat(s0, s1, s2);
            lemma_taken_concat(s0, s2, s3);
            lemma_taken_concat(s0, s3, s4);
            lemma_taken_concat(s0, s4, s5);
        }
        let f = Func { _func, _lp, args, _rp, block };
        proof {
            assert(f.spec_tokens() =~= s0.taken(s5));
        }
        Ok(f)
    }
}

impl<'src> List<'src> {
    /// Reads `[ items ]`, where the items are a comma-separated list of expressions, or
    /// nothing.
    pub fn parse(input: &mut ParseStream<'src>) -> (r: ParseResult<'src, List<'src>>)
        requires
            old(input).wf(),
        ensures
            old(input).moved_to(*final(input)),
            read_as(r, list_end(old(input).spec_buffer(), old(input).spec_cursor() as int), old(input).spec_buffer(), *final(input)),
            r matches Ok(l) ==> l.wf() && reads(*old(input), *final(input), l.spec_tokens()),
            !old(input).next_is(TokenKind::LeftBracket) ==> (r matches Err(e) && old(input).is_expect_error(
                TokenKind::LeftBracket,
                e,
            )),
        decreases old(input).spec_len(), 1nat,
    {
        let ghost s0 = *input;
        let _lb = match input.expect(TokenKind::LeftBracket) {
            Ok(t) => t,
            Err(e) => return Err(e),
        };
        let ghost s1 = *input;
        let save = input.cursor();
        let items = match parse_expr_list(input) {
            Ok(list) => Some(Box::new(list)),
            Err(_) => {
                input.set_cursor(save);
                proof {
                    lemma_taken_none(s1, *input);
                }
                None
            },
        };
        let ghost s2 = *input;
        let _rb = match input.expect(TokenKind::RightBracket) {
            Ok(t) => t,
            Err(e) => return Err(e),
        };
        let ghost s3 = *input;
        proof {
            lemma_taken_one(s0, s1);
            lemma_taken_one(s2, s3);
            lemma_taken_concat(s0, s1, s2);
            lemma_taken_concat(s0, s2, s3);
        }
        let l = List { _lb, items, _rb };
        proof {
            assert(l.spec_tokens() =~= s0.taken(s3));
        }
        Ok(l)
    }
}

impl<'src> Obj<'src> {
    /// Reads `{ fields }`, where the fields are a comma-separated list of `name = value`, or
    /// nothing.
    pub fn parse(input: &mut ParseStream<'src>) -> (r: ParseResult<'src, Obj<'src>>)
        requires
            old(input).wf(),
        ensures
            old(input).moved_to(*final(input)),
            read_as(r, obj_end(old(input).spec_buffer(), old(input).spec_cursor() as int), old(input).spec_buffer(), *final(input)),
            r matches Ok(o) ==> o.wf() && reads(*old(input), *final(input), o.spec_tokens()),
            !old(input).next_is(TokenKind::LeftBrace) ==> (r matches Err(e) && old(input).is_expect_error(
                TokenKind::LeftBrace,
                e,
            )),
        decreases old(input).spec_len(), 1nat,
    {
        let ghost s0 = *input;
        let _lb = match input.expect(TokenKind::LeftBrace) {
            Ok(t) => t,
            Err(e) => return Err(e),
        };
        let ghost s1 = *input;
        let save = input.cursor();
        let fields = match parse_field_list(input) {
            Ok(list) => Some(Box::new(list)),
            Err(_) => {
                input.set_cursor(save);
                proof {
                    lemma_taken_none(s1, *input);
                }
                None
            },
        };
        let ghost s2 = *input;
        let _rb = match input.expect(TokenKind::RightBrace) {
            Ok(t) => t,
            Err(e) => return Err(e),
        };
        let ghost s3 = *input;
        proof {
            lemma_taken_one(s0, s1);
            lemma_taken_one(s2, s3);
            lemma_taken_concat(s0, s1, s2);
            lemma_taken_concat(s0, s2, s3);
        }
        let o = Obj { _lb, fields, _rb };
        proof {
            assert(o.spec_tokens() =~= s0.taken(s3));
        }
        Ok(o)
    }
}

impl<'src> Extern<'src> {
    /// Reads `extern value`.
    pub fn parse(input: &mut ParseStream<'src>) -> (r: ParseResult<'src, Extern<'src>>)
        requires
            old(input).wf(),
        ensures
            old(input).moved_to(*final(input)),
            read_as(r, extern_end(old(input).spec_buffer(), old(input).spec_cursor() as int), old(input).spec_buffer(), *final(input)),
            r matches Ok(x) ==> x.wf() && reads(*old(input), *final(input), x.spec_tokens()),
            !old(input).next_is(TokenKind::Extern) ==> (r matches Err(e) && old(input).is_expect_error(
                TokenKind::Extern,
                e,
            )),
        decreases old(input).spec_len(), 1nat,
    {
        let ghost s0 = *input;
        let _extern = match input.expect(TokenKind::Extern) {
            Ok(t) => t,
            Err(e) => return Err(e),
        };
        let ghost s1 = *input;
        let value = match Expr::parse(input) {
            Ok(x) => Box::new(x),
            Err(e) => return Err(e),
        };
        let ghost s2 = *input;
        proof {
            lemma_taken_one(s0, s1);
            lemma_taken_concat(s0, s1, s2);
        }
        let x = Extern { _extern, value };
        proof {
            assert(x.spec_tokens() =~= s0.taken(s2));
        }
        Ok(x)
    }
}

impl<'src> Call<'src> {
    /// Reads `( args )` after `callee`, where the arguments are a comma-separated list of
    /// expressions, or nothing.
    pub fn parse_with_callee(input: &mut ParseStream<'src>, callee: Box<Term<'src>>) -> (r: ParseResult<
        'src,
        Call<'src>,
    >)
        requires
            old(input).wf(),
        ensures
            old(input).moved_to(*final(input)),
            r is Ok ==> old(input).spec_cursor() < final(input).spec_cursor(),
            read_as(r, call_args_end(old(input).spec_buffer(), old(input).spec_cursor() as int), old(input).spec_buffer(), *final(input)),
            r matches Ok(c) ==> c.callee == callee && (c.wf() <==> callee.wf()) && c.spec_tokens()
                == callee.spec_tokens() + old(input).taken(*final(input)),
            !old(input).next_is(TokenKind::LeftParen) ==> (r matches Err(e) && old(input).is_expect_error(
                TokenKind::LeftParen,
                e,
            )),
        decreases old(input).spec_len(), 1nat,
    {
        let ghost s0 = *input;
        let _lp = match input.expect(TokenKind::LeftParen) {
            Ok(t) => t,
            Err(e) => return Err(e),
        };
        let ghost s1 = *input;
        let save = input.cursor();
        let args = match parse_expr_list(input) {
            Ok(list) => Box::new(list),
            Err(_) => {
                input.set_cursor(save);
                proof {
                    lemma_taken_none(s1, *input);
                }
                let empty = Box::new(Punctuated::new());
                proof {
                    assert(exprs_tokens(*empty) =~= Seq::<Token<'src>>::empty());
                    assert(exprs_wf(*empty));
                }
                empty
            },
        };
        let ghost s2 = *input;
        let _rp = match input.expect(TokenKind::RightParen) {
            Ok(t) => t,
            Err(e) => return Err(e),
        };
        let ghost s3 = *input;
        proof {
            lemma_taken_one(s0, s1);
            lemma_taken_one(s2, s3);
            lemma_taken_concat(s0, s1, s2);
            lemma_taken_concat(s0, s2, s3);
        }
        let c = Call { callee, _lp, args, _rp };
        proof {
            assert(c.spec_tokens() =~= c.callee.spec_tokens() + s0.taken(s3));
        }
        Ok(c)
    }

    /// Reads a term that must be a call. A term of another kind is reported as an internal
    /// error at its span, after it was read.
    pub fn parse(input: &mut ParseStream<'src>) -> (r: ParseResult<'src, Call<'src>>)
        requires
            old(input).wf(),
        ensures
            old(input).moved_to(*final(input)),
            read_as(r, term_ending_with(old(input).spec_buffer(), old(input).spec_cursor() as int, Suffix::Call), old(input).spec_buffer(), *final(input)),
            r matches Ok(c) ==> c.wf() && reads(*old(input), *final(input), c.spec_tokens()),
        decreases old(input).spec_len(), 3nat,
    {
        let ghost s0 = *input;
        let term = match Term::parse(input) {
            Ok(t) => t,
            Err(e) => return Err(e),
        };
        match term {
            Term::Call(c) => Ok(c),
            other => {
                proof {
                    crate::lexer::lemma_coherent_subrange(
                        s0.spec_buffer(),
                        s0.spec_cursor() as int,
                        input.spec_cursor() as int,
                    );
                }
                let span = other.span();
                proof {
                    reveal_strlit("conversion of `Term` to variant `");
                    reveal_strlit("Call");
                    reveal_strlit("` failed");
                }
                Err(internal_at(span, message3("conversion of `Term` to variant `", "Call", "` failed")))
            },
        }
    }
}

impl<'src> IndexAcc<'src> {
    /// Reads `[ index ]` after `list`.
    pub fn parse_with_list(input: &mut ParseStream<'src>, list: Box<Term<'src>>) -> (r: ParseResult<
        'src,
        IndexAcc<'src>,
    >)
        requires
            old(input).wf(),
        ensures
            old(input).moved_to(*final(input)),
            r is Ok ==> old(input).spec_cursor() < final(input).spec_cursor(),
            read_as(r, index_end(old(input).spec_buffer(), old(input).spec_cursor() as int), old(input).spec_buffer(), *final(input)),
            r matches Ok(a) ==> a.list == list && (a.wf() <==> list.wf()) && a.spec_tokens()
                == list.spec_tokens() + old(input).taken(*final(input)),
            !old(input).next_is(TokenKind::LeftBracket) ==> (r matches Err(e) && old(input).is_expect_error(
                TokenKind::LeftBracket,
                e,
            )),
        decreases old(input).spec_len(), 1nat,
    {
        let ghost s0 = *input;
        let _lb = match input.expect(TokenKind::LeftBracket) {
            Ok(t) => t,
            Err(e) => return Err(e),
        };
        let ghost s1 = *input;
        let index = match Expr::parse(input) {
            Ok(x) => Box::new(x),
            Err(e) => return Err(e),
        };
        let ghost s2 = *input;
        let _rb = match input.expect(TokenKind::RightBracket) {
            Ok(t) => t,
            Err(e) => return Err(e),
        };
        let ghost s3 = *input;
        proof {
            lemma_taken_one(s0, s1);
            lemma_taken_one(s2, s3);
            lemma_taken_concat(s0, s1, s2);
            lemma_taken_concat(s0, s2, s3);
        }
        let a = IndexAcc { list, _lb, index, _rb };
        proof {
            assert(a.spec_tokens() =~= a.list.spec_tokens() + s0.taken(s3));
        }
        Ok(a)
    }

    /// Reads a term that must be an index access. A term of another kind is reported as an
    /// internal error at its span, after it was read.
    pub fn parse(input: &mut ParseStream<'src>) -> (r: ParseResult<'src, IndexAcc<'src>>)
        requires
            old(input).wf(),
        ensures
            old(input).moved_to(*final(input)),
            read_as(r, term_ending_with(old(input).spec_buffer(), old(input).spec_cursor() as int, Suffix::Index), old(input).spec_buffer(), *final(input)),
            r matches Ok(a) ==> a.wf() && reads(*old(input), *final(input), a.spec_tokens()),
        decreases old(input).spec_len(), 3nat,
    {
        let ghost s0 = *input;
        let term = match Term::parse(input) {
            Ok(t) => t,
            Err(e) => return Err(e),
        };
        match term {
            Term::IndexAcc(a) => Ok(a),
            other => {
                proof {
                    crate::lexer::lemma_coherent_subrange(
                        s0.spec_buffer(),
                        s0.spec_cursor() as int,
                        input.spec_cursor() as int,
                    );
                }
                let span = other.span();
                proof {
                    reveal_strlit("conversion of `Term` to variant `");
                    reveal_strlit("IndexAcc");
                    reveal_strlit("` failed");
                }
                Err(
                    internal_at(
                        span,
                        message3("conversion of `Term` to variant `", "IndexAcc", "` failed"),
                    ),
                )
            },
        }
    }
}

impl<'src> FieldAcc<'src> {
    /// Reads `. field` after `object`.
    pub fn parse_with_object(input: &mut ParseStream<'src>, object: Box<Term<'src>>) -> (r: ParseResult<
        'src,
        FieldAcc<'src>,
    >)
        requires
            old(input).wf(),
        ensures
            old(input).moved_to(*final(input)),
            r is Ok ==> old(input).spec_cursor() < final(input).spec_cursor(),
            read_as(r, field_access_end(old(input).spec_buffer(), old(input).spec_cursor() as int), old(input).spec_buffer(), *final(input)),
            r matches Ok(a) ==> a.object == object && (a.wf() <==> object.wf()) && a.spec_tokens()
                == object.spec_tokens() + old(input).taken(*final(input)),
            !old(input).next_is(TokenKind::Dot) ==> (r matches Err(e) && old(input).is_expect_error(
                TokenKind::Dot,
                e,
            )),
        decreases old(input).spec_len(), 1nat,
    {
        let ghost s0 = *input;
        let _dot = match input.expect(TokenKind::Dot) {
            Ok(t) => t,
            Err(e) => return Err(e),
        };
        let ghost s1 = *input;
        let field = match Ident::parse(input) {
            Ok(x) => x,
            Err(e) => return Err(e),
        };
        let ghost s2 = *input;
        proof {
            lemma_taken_one(s0, s1);
            lemma_taken_concat(s0, s1, s2);
        }
        let a = FieldAcc { object, _dot, field };
        proof {
            assert(a.spec_tokens() =~= a.object.spec_tokens() + s0.taken(s2));
        }
        Ok(a)
    }

    /// Reads a term that must be a field access. A term of another kind is reported as an
    /// internal error at its span, after it was read.
    pub fn parse(input: &mut ParseStream<'src>) -> (r: ParseResult<'src, FieldAcc<'src>>)
        requires
            old(input).wf(),
        ensures
            old(input).moved_to(*final(input)),
            read_as(r, term_ending_with(old(input).spec_buffer(), old(input).spec_cursor() as int, Suffix::Field), old(input).spec_buffer(), *final(input)),
            r matches Ok(a) ==> a.wf() && reads(*old(input), *final(input), a.spec_tokens()),
        decreases old(input).spec_len(), 3nat,
    {
        let ghost s0 = *input;
        let term = match Term::parse(input) {
            Ok(t) => t,
            Err(e) => return Err(e),
        };
        match term {
            Term::FieldAcc(a) => Ok(a),
            other => {
                proof {
                    crate::lexer::lemma_coherent_subrange(
                        s0.spec_buffer(),
                        s0.spec_cursor() as int,
                        input.spec_cursor() as int,
                    );
                }
                let span = other.span();
                proof {
                    reveal_strlit("conversion of `Term` to variant `");
                    reveal_strlit("FieldAcc");
                    reveal_strlit("` failed");
                }
                Err(
                    internal_at(
                        span,
                        message3("conversion of `Term` to variant `", "FieldAcc", "` failed"),
                    ),
                )
            },
        }
    }
}

/// Reads statements as long as they come.
fn parse_stmts<'src>(input: &mut ParseStream<'src>) -> (items: Vec<Stmt<'src>>)
    requires
        old(input).wf(),
    ensures
        final(input).spec_cursor() == stmts_from(old(input).spec_buffer(), old(input).spec_cursor() as int),
        stmts_wf(items@),
        reads(*old(input), *final(input), stmts_tokens(items@)),
    decreases old(input).spec_len(), 7nat,
{
    let ghost start = *input;
    let mut items: Vec<Stmt<'src>> = Vec::new();
    proof {
        lemma_taken_none(start, *input);
    }
    loop
        invariant
            start == *old(input),
            start.wf(),
            start.moved_to(*input),
            stmts_wf(items@),
            stmts_tokens(items@) == start.taken(*input),
            stmts_from(start.spec_buffer(), start.spec_cursor() as int) == stmts_from(
                input.spec_buffer(),
                input.spec_cursor() as int,
            ),
        ensures
            input.spec_cursor() == stmts_from(start.spec_buffer(), start.spec_cursor() as int),
        decreases input.spec_len(),
    {
        let ghost before = *input;
        let save = input.cursor();
        match Stmt::parse(input) {
            Ok(item) => {
                proof {
                    lemma_stmt_nonempty(item);
                    lemma_taken_concat(start, before, *input);
                }
                let ghost old_items = items@;
                items.push(item);
                proof {
                    assert(items@.drop_last() =~= old_items);
                }
            },
            Err(_) => {
                input.set_cursor(save);
                break ;
            },
        }
    }
    items
}

/// Reads `elseif` branches as long as they come.
fn parse_elifs<'src>(input: &mut ParseStream<'src>) -> (items: Vec<ElseIf<'src>>)
    requires
        old(input).wf(),
    ensures
        final(input).spec_cursor() == else_ifs_from(old(input).spec_buffer(), old(input).spec_cursor() as int),
        elifs_wf(items@),
        reads(*old(input), *final(input), elifs_tokens(items@)),
    decreases old(input).spec_len(), 2nat,
{
    let ghost start = *input;
    let mut items: Vec<ElseIf<'src>> = Vec::new();
    proof {
        lemma_taken_none(start, *input);
    }
    loop
        invariant
            start == *old(input),
            start.wf(),
            start.moved_to(*input),
            elifs_wf(items@),
            elifs_tokens(items@) == start.taken(*input),
            else_ifs_from(start.spec_buffer(), start.spec_cursor() as int) == else_ifs_from(
                input.spec_buffer(),
                input.spec_cursor() as int,
            ),
        ensures
            input.spec_cursor() == else_ifs_from(start.spec_buffer(), start.spec_cursor() as int),
        decreases input.spec_len(),
    {
        let ghost before = *input;
        let save = input.cursor();
        match ElseIf::parse(input) {
            Ok(item) => {
                proof {
                    
                    lemma_taken_concat(start, before, *input);
                }
                let ghost old_items = items@;
                items.push(item);
                proof {
                    assert(items@.drop_last() =~= old_items);
                }
            },
            Err(_) => {
                input.set_cursor(save);
                break ;
            },
        }
    }
    items
}

/// Reads variable definitions as long as they come.
fn parse_defines<'src>(input: &mut ParseStream<'src>) -> (items: Vec<VarDefine<'src>>)
    requires
        old(input).wf(),
    ensures
        final(input).spec_cursor() == defines_from(old(input).spec_buffer(), old(input).spec_cursor() as int),
        defines_wf(items@),
        reads(*old(input), *final(input), defines_tokens(items@)),
    decreases old(input).spec_len(), 2nat,
{
    let ghost start = *input;
    let mut items: Vec<VarDefine<'src>> = Vec::new();
    proof {
        lemma_taken_none(start, *input);
    }
    loop
        invariant
            start == *old(input),
            start.wf(),
            start.moved_to(*input),
            defines_wf(items@),
            defines_tokens(items@) == start.taken(*input),
            defines_from(start.spec_buffer(), start.spec_cursor() as int) == defines_from(
                input.spec_buffer(),
                input.spec_cursor() as int,
            ),
        ensures
            input.spec_cursor() == defines_from(start.spec_buffer(), start.spec_cursor() as int),
        decreases input.spec_len(),
    {
        let ghost before = *input;
        let save = input.cursor();
        match VarDefine::parse(input) {
            Ok(item) => {
                proof {
                    
                    lemma_taken_concat(start, before, *input);
                }
                let ghost old_items = items@;
                items.push(item);
                proof {
                    assert(items@.drop_last() =~= old_items);
                }
            },
            Err(_) => {
                input.set_cursor(save);
                break ;
            },
        }
    }
    items
}

impl<'src> DoBlock<'src> {
    /// Reads `do`, statements as long as they come, then `end`.
    pub fn parse(input: &mut ParseStream<'src>) -> (r: ParseResult<'src, DoBlock<'src>>)
        requires
            old(input).wf(),
        ensures
            old(input).moved_to(*final(input)),
            read_as(r, do_block_end(old(input).spec_buffer(), old(input).spec_cursor() as int), old(input).spec_buffer(), *final(input)),
            r matches Ok(b) ==> b.wf() && reads(*old(input), *final(input), b.spec_tokens()),
            !old(input).next_is(TokenKind::Do) ==> (r matches Err(e) && old(input).is_expect_error(
                TokenKind::Do,
                e,
            )),
        decreases old(input).spec_len(), 1nat,
    {
        let ghost s0 = *input;
        let _do = match input.expect(TokenKind::Do) {
            Ok(t) => t,
            Err(e) => return Err(e),
        };
        let ghost s1 = *input;
        let stmts = parse_stmts(input);
        let ghost s2 = *input;
        let _end = match input.expect(TokenKind::End) {
            Ok(t) => t,
            Err(e) => return Err(e),
        };
        let ghost s3 = *input;
        proof {
            lemma_taken_one(s0, s1);
            lemma_taken_one(s2, s3);
            lemma_taken_concat(s0, s1, s2);
            lemma_taken_concat(s0, s2, s3);
        }
        let b = DoBlock { _do, stmts, _end };
        proof {
            assert(b.spec_tokens() =~= s0.taken(s3));
        }
        Ok(b)
    }
}

impl<'src> VarDefine<'src> {
    /// Reads `def name`, then `= value` where `=` follows.
    #[verifier::spinoff_prover]
    pub fn parse(input: &mut ParseStream<'src>) -> (r: ParseResult<'src, VarDefine<'src>>)
        requires
            old(input).wf(),
        ensures
            old(input).moved_to(*final(input)),
            read_as(r, var_define_end(old(input).spec_buffer(), old(input).spec_cursor() as int), old(input).spec_buffer(), *final(input)),
            r matches Ok(d) ==> d.wf() && reads(*old(input), *final(input), d.spec_tokens()),
            !old(input).next_is(TokenKind::Def) ==> (r matches Err(e) && old(input).is_expect_error(
                TokenKind::Def,
                e,
            )),
        decreases old(input).spec_len(), 1nat,
    {
        let ghost s0 = *input;
        let _def = match input.expect(TokenKind::Def) {
            Ok(t) => t,
            Err(e) => return Err(e),
        };
        let ghost s1 = *input;
        let name = match Ident::parse(input) {
            Ok(x) => x,
            Err(e) => return Err(e),
        };
        let ghost s2 = *input;
        let save = input.cursor();
        let _eq = match input.expect(TokenKind::Eq) {
            Ok(t) => t,
            Err(_) => {
                input.set_cursor(save);
                proof {
                    lemma_taken_one(s0, s1);
                    lemma_taken_concat(s0, s1, s2);
                    assert(s0.taken(s2) =~= s0.taken(*input));
                }
                let d = VarDefine::NoValue { _def, name };
                proof {
                    assert(d.spec_tokens() =~= s0.taken(*input));
                }
                return Ok(d);
            },
        };
        let ghost s3 = *input;
        let value = match Expr::parse(input) {
            Ok(x) => x,
            Err(e) => return Err(e),
        };
        let ghost s4 = *input;
        proof {
            lemma_taken_one(s0, s1);
            lemma_taken_one(s2, s3);
            lemma_taken_concat(s0, s1, s2);
            lemma_taken_concat(s0, s2, s3);
            lemma_taken_concat(s0, s3, s4);
        }
        let d = VarDefine::WithValue { _def, name, _eq, value };
        proof {
            assert(d.spec_tokens() =~= s0.taken(s4));
        }
        Ok(d)
    }

    /// The `def` keyword.
    pub fn _def(&self) -> (t: Token<'src>)
        ensures
            t == match *self {
                VarDefine::WithValue { _def, .. } => _def,
                VarDefine::NoValue { _def, .. } => _def,
            },
    {
        match self {
            VarDefine::WithValue { _def, .. } => *_def,
            VarDefine::NoValue { _def, .. } => *_def,
        }
    }

    /// The name of the variable.
    pub fn name(&self) -> (n: Ident<'src>)
        ensures
            n == match *self {
                VarDefine::WithValue { name, .. } => name,
                VarDefine::NoValue { name, .. } => name,
            },
    {
        match self {
            VarDefine::WithValue { name, .. } => *name,
            VarDefine::NoValue { name, .. } => *name,
        }
    }

    /// The value, where there is one.
    pub fn value(&self) -> (v: Option<&Expr<'src>>)
        ensures
            v == match *self {
                VarDefine::WithValue { value, .. } => Some(&value),
                VarDefine::NoValue { .. } => None,
            },
    {
        match self {
            VarDefine::WithValue { value, .. } => Some(value),
            VarDefine::NoValue { .. } => None,
        }
    }

    /// The `=` sign, where there is a value.
    pub fn _eq(&self) -> (t: Option<Token<'src>>)
        ensures
            t == match *self {
                VarDefine::WithValue { _eq, .. } => Some(_eq),
                VarDefine::NoValue { .. } => None,
            },
    {
        match self {
            VarDefine::WithValue { _eq, .. } => Some(*_eq),
            VarDefine::NoValue { .. } => None,
        }
    }
}

impl<'src> VarAssign<'src> {
    /// Reads `name = value`.
    pub fn parse(input: &mut ParseStream<'src>) -> (r: ParseResult<'src, VarAssign<'src>>)
        requires
            old(input).wf(),
        ensures
            old(input).moved_to(*final(input)),
            read_as(r, var_assign_end(old(input).spec_buffer(), old(input).spec_cursor() as int), old(input).spec_buffer(), *final(input)),
            r matches Ok(a) ==> a.wf() && reads(*old(input), *final(input), a.spec_tokens()),
            !old(input).next_is(TokenKind::Ident) ==> (r matches Err(e) && old(input).is_expect_error(
                TokenKind::Ident,
                e,
            )),
        decreases old(input).spec_len(), 1nat,
    {
        let ghost s0 = *input;
        let name = match Ident::parse(input) {
            Ok(x) => x,
            Err(e) => return Err(e),
        };
        let ghost s1 = *input;
        let _eq = match input.expect(TokenKind::Eq) {
            Ok(t) => t,
            Err(e) => return Err(e),
        };
        let ghost s2 = *input;
        let value = match Expr::parse(input) {
            Ok(x) => x,
            Err(e) => return Err(e),
        };
        let ghost s3 = *input;
        proof {
            lemma_taken_one(s1, s2);
            lemma_taken_concat(s0, s1, s2);
            lemma_taken_concat(s0, s2, s3);
        }
        let a = VarAssign { name, _eq, value };
        proof {
            assert(a.spec_tokens() =~= s0.taken(s3));
        }
        Ok(a)
    }
}

impl<'src> Return<'src> {
    /// Reads `return value`.
    pub fn parse(input: &mut ParseStream<'src>) -> (r: ParseResult<'src, Return<'src>>)
        requires
            old(input).wf(),
        ensures
            old(input).moved_to(*final(input)),
            read_as(r, return_end(old(input).spec_buffer(), old(input).spec_cursor() as int), old(input).spec_buffer(), *final(input)),
            r matches Ok(s) ==> s.wf() && reads(*old(input), *final(input), s.spec_tokens()),
            !old(input).next_is(TokenKind::Return) ==> (r matches Err(e) && old(input).is_expect_error(
                TokenKind::Return,
                e,
            )),
        decreases old(input).spec_len(), 1nat,
    {
        let ghost s0 = *input;
        let _return = match input.expect(TokenKind::Return) {
            Ok(t) => t,
            Err(e) => return Err(e),
        };
        let ghost s1 = *input;
        let value = match Expr::parse(input) {
            Ok(x) => x,
            Err(e) => return Err(e),
        };
        let ghost s2 = *input;
        proof {
            lemma_taken_one(s0, s1);
            lemma_taken_concat(s0, s1, s2);
        }
        let s = Return { _return, value };
        proof {
            assert(s.spec_tokens() =~= s0.taken(s2));
        }
        Ok(s)
    }
}

impl<'src> WhileLoop<'src> {
    /// Reads `while cond do ... end`.
    pub fn parse(input: &mut ParseStream<'src>) -> (r: ParseResult<'src, WhileLoop<'src>>)
        requires
            old(input).wf(),
        ensures
            old(input).moved_to(*final(input)),
            read_as(r, while_end(old(input).spec_buffer(), old(input).spec_cursor() as int), old(input).spec_buffer(), *final(input)),
            r matches Ok(w) ==> w.wf() && reads(*old(input), *final(input), w.spec_tokens()),
            !old(input).next_is(TokenKind::While) ==> (r matches Err(e) && old(input).is_expect_error(
                TokenKind::While,
                e,
            )),
            r matches Ok(w) ==> expr_read_at(old(input).spec_buffer(), old(input).spec_cursor() as int + 1, w.cond),
        decreases old(input).spec_len(), 1nat,
    {
        let ghost s0 = *input;
        let _while = match input.expect(TokenKind::While) {
            Ok(t) => t,
            Err(e) => return Err(e),
        };
        let ghost s1 = *input;
        let cond = match Expr::parse(input) {
            Ok(x) => x,
            Err(e) => return Err(e),
        };
        let ghost s2 = *input;
        let block = match DoBlock::parse(input) {
            Ok(x) => x,
            Err(e) => return Err(e),
        };
        let ghost s3 = *input;
        proof {
            lemma_taken_one(s0, s1);
            lemma_taken_concat(s0, s1, s2);
            lemma_taken_concat(s0, s2, s3);
        }
        let w = WhileLoop { _while, cond, block };
        proof {
            assert(w.spec_tokens() =~= s0.taken(s3));
        }
        Ok(w)
    }
}

impl<'src> ElseIf<'src> {
    /// Reads `elseif cond then`, then statements as long as they come.
    #[verifier::spinoff_prover]
    pub fn parse(input: &mut ParseStream<'src>) -> (r: ParseResult<'src, ElseIf<'src>>)
        requires
            old(input).wf(),
        ensures
            old(input).moved_to(*final(input)),
            read_as(r, else_if_end(old(input).spec_buffer(), old(input).spec_cursor() as int), old(input).spec_buffer(), *final(input)),
            r matches Ok(b) ==> b.wf() && reads(*old(input), *final(input), b.spec_tokens()),
            !old(input).next_is(TokenKind::ElseIf) ==> (r matches Err(e) && old(input).is_expect_error(
                TokenKind::ElseIf,
                e,
            )),
            r matches Ok(b) ==> expr_read_at(old(input).spec_buffer(), old(input).spec_cursor() as int + 1, b.cond),
        decreases old(input).spec_len(), 1nat,
    {
        let ghost s0 = *input;
        let _elseif = match input.expect(TokenKind::ElseIf) {
            Ok(t) => t,
            Err(e) => return Err(e),
        };
        let ghost s1 = *input;
        let cond = match Expr::parse(input) {
            Ok(x) => x,
            Err(e) => return Err(e),
        };
        let ghost s2 = *input;
        let _then = match input.expect(TokenKind::Then) {
            Ok(t) => t,
            Err(e) => return Err(e),
        };
        let ghost s3 = *input;
        let stmts = parse_stmts(input);
        let ghost s4 = *input;
        proof {
            lemma_taken_one(s0, s1);
            lemma_taken_one(s2, s3);
            lemma_taken_concat(s0, s1, s2);
            lemma_taken_concat(s0, s2, s3);
            lemma_taken_concat(s0, s3, s4);
        }
        let b = ElseIf { _elseif, cond, _then, stmts };
        proof {
            assert(b.spec_tokens() =~= s0.taken(s4));
        }
        Ok(b)
    }
}

impl<'src> Else<'src> {
    /// Reads `else`, then statements as long as they come.
    pub fn parse(input: &mut ParseStream<'src>) -> (r: ParseResult<'src, Else<'src>>)
        requires
            old(input).wf(),
        ensures
            old(input).moved_to(*final(input)),
            read_as(r, else_end(old(input).spec_buffer(), old(input).spec_cursor() as int), old(input).spec_buffer(), *final(input)),
            r matches Ok(b) ==> b.wf() && reads(*old(input), *final(input), b.spec_tokens()),
            !old(input).next_is(TokenKind::Else) ==> (r matches Err(e) && old(input).is_expect_error(
                TokenKind::Else,
                e,
            )),
        decreases old(input).spec_len(), 1nat,
    {
        let ghost s0 = *input;
        let _else = match input.expect(TokenKind::Else) {
            Ok(t) => t,
            Err(e) => return Err(e),
        };
        let ghost s1 = *input;
        let stmts = parse_stmts(input);
        let ghost s2 = *input;
        proof {
            lemma_taken_one(s0, s1);
            lemma_taken_concat(s0, s1, s2);
        }
        let b = Else { _else, stmts };
        proof {
            assert(b.spec_tokens() =~= s0.taken(s2));
        }
        Ok(b)
    }
}

impl<'src> If<'src> {
    /// Reads `if cond then` and statements as long as they come; then either `end`, or
    /// `elseif` branches as long as they come, an optional `else` branch, and `end`.
    #[verifier::spinoff_prover]
    #[verifier::rlimit(30)]
    pub fn parse(input: &mut ParseStream<'src>) -> (r: ParseResult<'src, If<'src>>)
        requires
            old(input).wf(),
        ensures
            old(input).moved_to(*final(input)),
            read_as(r, if_end(old(input).spec_buffer(), old(input).spec_cursor() as int), old(input).spec_buffer(), *final(input)),
            r matches Ok(i) ==> i.wf() && reads(*old(input), *final(input), i.spec_tokens()),
            !old(input).next_is(TokenKind::If) ==> (r matches Err(e) && old(input).is_expect_error(
                TokenKind::If,
                e,
            )),
            r matches Ok(i) ==> expr_read_at(old(input).spec_buffer(), old(input).spec_cursor() as int + 1, i.cond),
        decreases old(input).spec_len(), 1nat,
    {
        let ghost s0 = *input;
        let _if = match input.expect(TokenKind::If) {
            Ok(t) => t,
            Err(e) => return Err(e),
        };
        let ghost s1 = *input;
        let cond = match Expr::parse(input) {
            Ok(x) => x,
            Err(e) => return Err(e),
        };
        let ghost s2 = *input;
        let _then = match input.expect(TokenKind::Then) {
            Ok(t) => t,
            Err(e) => return Err(e),
        };
        let ghost s3 = *input;
        let stmts = parse_stmts(input);
        let ghost s4 = *input;
        let save = input.cursor();
        match input.expect(TokenKind::End) {
            Ok(_end) => {
                proof {
                    lemma_taken_one(s0, s1);
                    lemma_taken_one(s2, s3);
                    lemma_taken_one(s4, *input);
                    lemma_taken_concat(s0, s1, s2);
                    lemma_taken_concat(s0, s2, s3);
                    lemma_taken_concat(s0, s3, s4);
                    lemma_taken_concat(s0, s4, *input);
                }
                let b_elifs: Vec<ElseIf<'src>> = Vec::new();
                let i = If { _if, cond, _then, stmts, b_elifs, b_else: None, _end };
                proof {
                    assert(elifs_tokens(i.b_elifs@) =~= Seq::<Token<'src>>::empty());
                    assert(i.spec_tokens() =~= s0.taken(*input));
                }
                return Ok(i);
            },
            Err(_) => {
                input.set_cursor(save);
            },
        }
        let b_elifs = parse_elifs(input);
        let ghost s5 = *input;
        let save = input.cursor();
        let b_else = match Else::parse(input) {
            Ok(b) => Some(b),
            Err(_) => {
                input.set_cursor(save);
                proof {
                    lemma_taken_none(s5, *input);
                }
                None
            },
        };
        let ghost s6 = *input;
        let _end = match input.expect(TokenKind::End) {
            Ok(t) => t,
            Err(e) => return Err(e),
        };
        let ghost s7 = *input;
        proof {
            lemma_taken_one(s0, s1);
            lemma_taken_one(s2, s3);
            lemma_taken_one(s6, s7);
            lemma_taken_concat(s0, s1, s2);
            lemma_taken_concat(s0, s2, s3);
            lemma_taken_concat(s0, s3, s4);
            lemma_taken_concat(s0, s4, s5);
            lemma_taken_concat(s0, s5, s6);
            lemma_taken_concat(s0, s6, s7);
        }
        let i = If { _if, cond, _then, stmts, b_elifs, b_else, _end };
        proof {
            assert(i.spec_tokens() =~= s0.taken(s7));
        }
        Ok(i)
    }
}

impl<'src> ClassDef<'src> {
    /// Reads `class name`, variable definitions as long as they come, and `end`.
    #[verifier::spinoff_prover]
    pub fn parse(input: &mut ParseStream<'src>) -> (r: ParseResult<'src, ClassDef<'src>>)
        requires
            old(input).wf(),
        ensures
            old(input).moved_to(*final(input)),
            read_as(r, class_end(old(input).spec_buffer(), old(input).spec_cursor() as int), old(input).spec_buffer(), *final(input)),
            r matches Ok(c) ==> c.wf() && reads(*old(input), *final(input), c.spec_tokens()),
            !old(input).next_is(TokenKind::Class) ==> (r matches Err(e) && old(input).is_expect_error(
                TokenKind::Class,
                e,
            )),
        decreases old(input).spec_len(), 1nat,
    {
        let ghost s0 = *input;
        let _class = match input.expect(TokenKind::Class) {
            Ok(t) => t,
            Err(e) => return Err(e),
        };
        let ghost s1 = *input;
        let name = match Ident::parse(input) {
            Ok(x) => x,
            Err(e) => return Err(e),
        };
        let ghost s2 = *input;
        let fields = parse_defines(input);
        let ghost s3 = *input;
        let _end = match input.expect(TokenKind::End) {
            Ok(t) => t,
            Err(e) => return Err(e),
        };
        let ghost s4 = *input;
        proof {
            lemma_taken_one(s0, s1);
            lemma_taken_one(s3, s4);
            lemma_taken_concat(s0, s1, s2);
            lemma_taken_concat(s0, s2, s3);
            lemma_taken_concat(s0, s3, s4);
        }
        let c = ClassDef { _class, name, fields, _end };
        proof {
            assert(c.spec_tokens() =~= s0.taken(s4));
        }
        Ok(c)
    }
}

impl<'src> IndexAssign<'src> {
    /// Reads `list[index] = value`.
    #[verifier::spinoff_prover]
    #[verifier::rlimit(30)]
    pub fn parse(input: &mut ParseStream<'src>) -> (r: ParseResult<'src, IndexAssign<'src>>)
        requires
            old(input).wf(),
        ensures
            old(input).moved_to(*final(input)),
            read_as(r, index_assign_end(old(input).spec_buffer(), old(input).spec_cursor() as int), old(input).spec_buffer(), *final(input)),
            r matches Ok(a) ==> a.wf() && reads(*old(input), *final(input), a.spec_tokens()),
            r matches Ok(a) ==> a.spec_skipped().len() == 0,
        decreases old(input).spec_len(), 4nat,
    {
        let ghost s0 = *input;
        let acc = match IndexAcc::parse(input) {
            Ok(x) => x,
            Err(e) => return Err(e),
        };
        let ghost s1 = *input;
        let _eq = match input.expect(TokenKind::Eq) {
            Ok(t) => t,
            Err(e) => return Err(e),
        };
        let ghost s2 = *input;
        let value = match Expr::parse(input) {
            Ok(x) => x,
            Err(e) => return Err(e),
        };
        let ghost s3 = *input;
        proof {
            lemma_taken_one(s1, s2);
            lemma_taken_concat(s0, s1, s2);
            lemma_taken_concat(s0, s2, s3);
        }
        let a = IndexAssign { acc, _eq, value, skipped: Ghost(Seq::empty()) };
        proof {
            assert(a.spec_tokens() =~= s0.taken(s3));
        }
        Ok(a)
    }
}

impl<'src> FieldAssign<'src> {
    /// Reads `object.field = value`.
    #[verifier::spinoff_prover]
    #[verifier::rlimit(30)]
    pub fn parse(input: &mut ParseStream<'src>) -> (r: ParseResult<'src, FieldAssign<'src>>)
        requires
            old(input).wf(),
        ensures
            old(input).moved_to(*final(input)),
            read_as(r, field_assign_end(old(input).spec_buffer(), old(input).spec_cursor() as int), old(input).spec_buffer(), *final(input)),
            r matches Ok(a) ==> a.wf() && reads(*old(input), *final(input), a.spec_tokens()),
        decreases old(input).spec_len(), 4nat,
    {
        let ghost s0 = *input;
        let acc = match FieldAcc::parse(input) {
            Ok(x) => x,
            Err(e) => return Err(e),
        };
        let ghost s1 = *input;
        let _eq = match input.expect(TokenKind::Eq) {
            Ok(t) => t,
            Err(e) => return Err(e),
        };
        let ghost s2 = *input;
        let value = match Expr::parse(input) {
            Ok(x) => x,
            Err(e) => return Err(e),
        };
        let ghost s3 = *input;
        proof {
            lemma_taken_one(s1, s2);
            lemma_taken_concat(s0, s1, s2);
            lemma_taken_concat(s0, s2, s3);
        }
        let a = FieldAssign { acc, _eq, value };
        proof {
            assert(a.spec_tokens() =~= s0.taken(s3));
        }
        Ok(a)
    }
}

impl<'src> ExprAssign<'src> {
    /// Tries an assignment to an element, then, whatever came of it, an assignment to a
    /// field; gives the first that was read. Where both are read, one after the other, the
    /// field assignment is dropped; its tokens are recorded as skipped.
    #[verifier::spinoff_prover]
    #[verifier::rlimit(30)]
    pub fn parse(input: &mut ParseStream<'src>) -> (r: ParseResult<'src, ExprAssign<'src>>)
        requires
            old(input).wf(),
        ensures
            old(input).moved_to(*final(input)),
            read_as(r, expr_assign_end(old(input).spec_buffer(), old(input).spec_cursor() as int), old(input).spec_buffer(), *final(input)),
            r matches Ok(a) ==> a.wf() && reads(*old(input), *final(input), a.spec_tokens()),
            r matches Ok(ExprAssign::IndexAssign(a)) ==> a.spec_skipped().len() == 0 || exists|
                f: FieldAssign<'src>,
            | #[trigger] f.spec_tokens() == a.spec_skipped() && f.wf(),
        decreases old(input).spec_len(), 5nat,
    {
        let ghost s0 = *input;
        let save = input.cursor();
        let first = IndexAssign::parse(input);
        if first.is_err() {
            input.set_cursor(save);
            proof {
                lemma_taken_none(s0, *input);
            }
        }
        let ghost s1 = *input;
        let save = input.cursor();
        let second = FieldAssign::parse(input);
        if second.is_err() {
            input.set_cursor(save);
            proof {
                lemma_taken_none(s1, *input);
            }
        }
        let ghost s2 = *input;
        proof {
            lemma_taken_concat(s0, s1, s2);
        }
        match first {
            Ok(a) => {
                let mut a = a;
                let ghost own = a.spec_tokens();
                a.skipped = Ghost(s1.taken(s2));
                proof {
                    assert(a.spec_tokens() =~= own + s1.taken(s2));
                    if let Ok(f) = second {
                        assert(f.spec_tokens() == a.spec_skipped() && f.wf());
                    }
                }
                Ok(ExprAssign::IndexAssign(a))
            },
            Err(_) => match second {
                Ok(b) => {
                    proof {
                        assert(s0.taken(s2) =~= s1.taken(s2));
                    }
                    Ok(ExprAssign::FieldAssign(b))
                },
                Err(e) => Err(e),
            },
        }
    }
}

impl<'src> Stmt<'src> {
    /// Reads a statement: by its first token a definition, a block, a return, a loop, a
    /// condition or a class; else `break` or `continue`; else an assignment to an element or
    /// a field; else a call. Where none can be read, reports an internal error at the next
    /// token.
    #[verifier::spinoff_prover]
    #[verifier::rlimit(40)]
    pub fn parse(input: &mut ParseStream<'src>) -> (r: ParseResult<'src, Stmt<'src>>)
        requires
            old(input).wf(),
        ensures
            old(input).moved_to(*final(input)),
            read_as(r, stmt_end(old(input).spec_buffer(), old(input).spec_cursor() as int), old(input).spec_buffer(), *final(input)),
            r matches Ok(s) ==> s.wf() && reads(*old(input), *final(input), s.spec_tokens()),
            old(input).spec_peek() is None ==> (r matches Err(e) && old(input).is_peek_error(e)),
            old(input).next_is(TokenKind::Break) ==> (r matches Ok(s) && s is Break
                && final(input).spec_cursor() == old(input).spec_cursor() + 1),
            old(input).next_is(TokenKind::Continue) ==> (r matches Ok(s) && s is Continue
                && final(input).spec_cursor() == old(input).spec_cursor() + 1),
            old(input).next_is(TokenKind::Def) ==> (r matches Ok(s) ==> s is VarDefine),
            old(input).next_is(TokenKind::Do) ==> (r matches Ok(s) ==> s is DoBlock),
            old(input).next_is(TokenKind::Return) ==> (r matches Ok(s) ==> s is Return),
            old(input).next_is(TokenKind::While) ==> (r matches Ok(s) ==> s is WhileLoop),
            old(input).next_is(TokenKind::If) ==> (r matches Ok(s) ==> s is If),
            old(input).next_is(TokenKind::Class) ==> (r matches Ok(s) ==> s is ClassDef),
            r matches Ok(Stmt::If(i)) ==> expr_read_at(old(input).spec_buffer(), old(input).spec_cursor() as int + 1, i.cond),
            r matches Ok(Stmt::WhileLoop(w)) ==> expr_read_at(old(input).spec_buffer(), old(input).spec_cursor() as int + 1, w.cond),
            starts_by_expression(old(input).spec_buffer(), old(input).spec_cursor() as int) ==> (r matches Ok(s) ==> if expr_assign_end(old(input).spec_buffer(), old(input).spec_cursor() as int) is Ok {
                s is ExprAssign
            } else {
                s is Call
            }),
            starts_by_expression(old(input).spec_buffer(), old(input).spec_cursor() as int) && r is Err ==> final(input).spec_cursor()
                == old(input).spec_cursor(),
            old(input).spec_peek() is None ==> final(input).spec_cursor() == old(input).spec_cursor(),
        decreases old(input).spec_len(), 6nat,
    {
        let ghost s0 = *input;
        let token = match input.expect_peek() {
            Ok(t) => t,
            Err(e) => return Err(e),
        };
        let span = token.span();
        let ghost b = s0.spec_buffer();
        let ghost c = s0.spec_cursor() as int;
        if input.peek_matches(TokenKind::Def).is_some() {
            assert(stmt_end(b, c) == var_define_end(b, c));
            return match VarDefine::parse(input) {
                Ok(s) => Ok(Stmt::VarDefine(s)),
                Err(e) => Err(e),
            };
        }
        if input.peek_matches(TokenKind::Do).is_some() {
            assert(stmt_end(b, c) == do_block_end(b, c));
            return match DoBlock::parse(input) {
                Ok(s) => Ok(Stmt::DoBlock(s)),
                Err(e) => Err(e),
            };
        }
        if input.peek_matches(TokenKind::Return).is_some() {
            assert(stmt_end(b, c) == return_end(b, c));
            return match Return::parse(input) {
                Ok(s) => Ok(Stmt::Return(s)),
                Err(e) => Err(e),
            };
        }
        let save = input.cursor();
        match Break::parse(input) {
            Ok(s) => {
                proof {
                    assert(s0.taken(*input).len() == 1);
                }
                return Ok(Stmt::Break(s));
            },
            Err(_) => input.set_cursor(save),
        }
        match Continue::parse(input) {
            Ok(s) => {
                proof {
                    assert(s0.taken(*input).len() == 1);
                }
                return Ok(Stmt::Continue(s));
            },
            Err(_) => input.set_cursor(save),
        }
        if input.peek_matches(TokenKind::While).is_some() {
            assert(stmt_end(b, c) == while_end(b, c));
            return match WhileLoop::parse(input) {
                Ok(s) => Ok(Stmt::WhileLoop(s)),
                Err(e) => Err(e),
            };
        }
        if input.peek_matches(TokenKind::If).is_some() {
            assert(stmt_end(b, c) == if_end(b, c));
            return match If::parse(input) {
                Ok(s) => Ok(Stmt::If(s)),
                Err(e) => Err(e),
            };
        }
        if input.peek_matches(TokenKind::Class).is_some() {
            assert(stmt_end(b, c) == class_end(b, c));
            return match ClassDef::parse(input) {
                Ok(s) => Ok(Stmt::ClassDef(s)),
                Err(e) => Err(e),
            };
        }
        assert(stmt_end(b, c) == match expr_assign_end(b, c) {
            Ok(p) => Ok(p),
            Err(_) => match term_ending_with(b, c, Suffix::Call) {
                Ok(p) => Ok(p),
                Err(_) => Err(Failure::Internal(token.spec_span(), no_statement_message())),
            },
        });
        match ExprAssign::parse(input) {
            Ok(s) => return Ok(Stmt::ExprAssign(s)),
            Err(_) => input.set_cursor(save),
        }
        match Call::parse(input) {
            Ok(s) => return Ok(Stmt::Call(s)),
            Err(_) => input.set_cursor(save),
        }
        proof {
            reveal_strlit("no statement matched");
        }
        Err(internal_at(span, String::from_str("no statement matched")))
    }
}

impl<'src> Program<'src> {
    /// Reads statements until the input ends; the first statement that cannot be read ends
    /// the program with its error.
    pub fn parse(input: &mut ParseStream<'src>) -> (r: ParseResult<'src, Program<'src>>)
        requires
            old(input).wf(),
        ensures
            old(input).moved_to(*final(input)),
            read_as(r, program_end(old(input).spec_buffer(), old(input).spec_cursor() as int), old(input).spec_buffer(), *final(input)),
            r matches Ok(p) ==> p.wf() && reads(*old(input), *final(input), p.spec_tokens())
                && final(input).spec_peek() is None,
    {
        let ghost start = *input;
        let mut stmts: Vec<Stmt<'src>> = Vec::new();
        proof {
            lemma_taken_none(start, *input);
        }
        while input.peek().is_some()
            invariant
                start == *old(input),
                start.wf(),
                start.moved_to(*input),
                stmts_wf(stmts@),
                stmts_tokens(stmts@) == start.taken(*input),
                program_end(start.spec_buffer(), start.spec_cursor() as int) == program_end(
                    input.spec_buffer(),
                    input.spec_cursor() as int,
                ),
            decreases input.spec_len(),
        {
            let ghost before = *input;
            let stmt = match Stmt::parse(input) {
                Ok(s) => s,
                Err(e) => return Err(e),
            };
            proof {
                lemma_stmt_nonempty(stmt);
                lemma_taken_concat(start, before, *input);
            }
            let ghost old_stmts = stmts@;
            stmts.push(stmt);
            proof {
                assert(stmts@.drop_last() =~= old_stmts);
            }
        }
        Ok(Program { stmts })
    }
}

/// A node that can be read from a stream of tokens.
pub trait Parse<'src>: Sized + ASTNode<'src> {
    /// The node is well formed: each of its tokens is of the kind its place calls for.
    spec fn node_wf(&self) -> bool;

    /// Where a node read from `pos` of `toks` ends, or why none can be read there.
    spec fn read_end(toks: Seq<Token<'src>>, pos: int) -> Result<int, Failure<'src>>;

    /// Reads a node. It succeeds exactly where [`Parse::read_end`] says, and then ends
    /// there, else it reports the failure that `read_end` gives. On success the node is
    /// well formed and holds exactly the tokens read.
    fn parse(input: &mut ParseStream<'src>) -> (r: ParseResult<'src, Self>)
        requires
            old(input).wf(),
        ensures
            old(input).moved_to(*final(input)),
            read_as(r, Self::read_end(old(input).spec_buffer(), old(input).spec_cursor() as int), old(input).spec_buffer(), *final(input)),
            r matches Ok(n) ==> n.node_wf() && reads(*old(input), *final(input), n.node_tokens()),
    ;
}

/// A node that can be read with a lower bound on the binding power of its operators.
pub trait ParsePrecedence<'src>: Parse<'src> {
    /// Where a node read from `pos` of `toks`, with its operators binding at least as tightly
    /// as `precedence`, ends, or why none can be read there.
    spec fn read_end_at(toks: Seq<Token<'src>>, pos: int, precedence: u8) -> Result<int, Failure<'src>>;

    /// Reads a node whose operators bind at least as tightly as `precedence`, as
    /// [`ParsePrecedence::read_end_at`] says.
    fn parse_precedence(input: &mut ParseStream<'src>, precedence: u8) -> (r: ParseResult<'src, Self>)
        requires
            old(input).wf(),
        ensures
            old(input).moved_to(*final(input)),
            read_as(r, Self::read_end_at(old(input).spec_buffer(), old(input).spec_cursor() as int, precedence), old(input).spec_buffer(), *final(input)),
            r matches Ok(n) ==> n.node_wf() && reads(*old(input), *final(input), n.node_tokens()),
    ;
}

impl<'src> ParsePrecedence<'src> for Expr<'src> {
    open spec fn read_end_at(toks: Seq<Token<'src>>, pos: int, precedence: u8) -> Result<
        int,
        Failure<'src>,
    > {
        expr_end(toks, pos, precedence)
    }

    fn parse_precedence(input: &mut ParseStream<'src>, precedence: u8) -> (r: ParseResult<'src, Self>) {
        Expr::parse_precedence(input, precedence)
    }
}

impl<'src> Parse<'src> for Ident<'src> {
    open spec fn read_end(toks: Seq<Token<'src>>, pos: int) -> Result<int, Failure<'src>> {
        expect_at(toks, pos, TokenKind::Ident)
    }

    open spec fn node_wf(&self) -> bool {
        self.wf()
    }

    fn parse(input: &mut ParseStream<'src>) -> (r: ParseResult<'src, Self>) {
        Ident::parse(input)
    }
}

impl<'src> Parse<'src> for SelfKw<'src> {
    open spec fn read_end(toks: Seq<Token<'src>>, pos: int) -> Result<int, Failure<'src>> {
        self_end(toks, pos)
    }

    open spec fn node_wf(&self) -> bool {
        self.wf()
    }

    fn parse(input: &mut ParseStream<'src>) -> (r: ParseResult<'src, Self>) {
        SelfKw::parse(input)
    }
}

impl<'src> Parse<'src> for Lit<'src> {
    open spec fn read_end(toks: Seq<Token<'src>>, pos: int) -> Result<int, Failure<'src>> {
        lit_end(toks, pos)
    }

    open spec fn node_wf(&self) -> bool {
        self.wf()
    }

    fn parse(input: &mut ParseStream<'src>) -> (r: ParseResult<'src, Self>) {
        Lit::parse(input)
    }
}

impl<'src> Parse<'src> for Break<'src> {
    open spec fn read_end(toks: Seq<Token<'src>>, pos: int) -> Result<int, Failure<'src>> {
        expect_at(toks, pos, TokenKind::Break)
    }

    open spec fn node_wf(&self) -> bool {
        self.wf()
    }

    fn parse(input: &mut ParseStream<'src>) -> (r: ParseResult<'src, Self>) {
        Break::parse(input)
    }
}

impl<'src> Parse<'src> for Continue<'src> {
    open spec fn read_end(toks: Seq<Token<'src>>, pos: int) -> Result<int, Failure<'src>> {
        expect_at(toks, pos, TokenKind::Continue)
    }

    open spec fn node_wf(&self) -> bool {
        self.wf()
    }

    fn parse(input: &mut ParseStream<'src>) -> (r: ParseResult<'src, Self>) {
        Continue::parse(input)
    }
}

impl<'src> Parse<'src> for Expr<'src> {
    open spec fn read_end(toks: Seq<Token<'src>>, pos: int) -> Result<int, Failure<'src>> {
        expr_end(toks, pos, 0)
    }

    open spec fn node_wf(&self) -> bool {
        self.wf()
    }

    fn parse(input: &mut ParseStream<'src>) -> (r: ParseResult<'src, Self>) {
        Expr::parse(input)
    }
}

impl<'src> Parse<'src> for Term<'src> {
    open spec fn read_end(toks: Seq<Token<'src>>, pos: int) -> Result<int, Failure<'src>> {
        term_only_end(toks, pos)
    }

    open spec fn node_wf(&self) -> bool {
        self.wf()
    }

    fn parse(input: &mut ParseStream<'src>) -> (r: ParseResult<'src, Self>) {
        Term::parse(input)
    }
}

impl<'src> Parse<'src> for UnaryExpr<'src> {
    open spec fn read_end(toks: Seq<Token<'src>>, pos: int) -> Result<int, Failure<'src>> {
        unary_expr_end(toks, pos)
    }

    open spec fn node_wf(&self) -> bool {
        self.wf()
    }

    fn parse(input: &mut ParseStream<'src>) -> (r: ParseResult<'src, Self>) {
        UnaryExpr::parse(input)
    }
}

impl<'src> Parse<'src> for ParenExpr<'src> {
    open spec fn read_end(toks: Seq<Token<'src>>, pos: int) -> Result<int, Failure<'src>> {
        paren_end(toks, pos)
    }

    open spec fn node_wf(&self) -> bool {
        self.wf()
    }

    fn parse(input: &mut ParseStream<'src>) -> (r: ParseResult<'src, Self>) {
        ParenExpr::parse(input)
    }
}

impl<'src> Parse<'src> for Func<'src> {
    open spec fn read_end(toks: Seq<Token<'src>>, pos: int) -> Result<int, Failure<'src>> {
        func_end(toks, pos)
    }

    open spec fn node_wf(&self) -> bool {
        self.wf()
    }

    fn parse(input: &mut ParseStream<'src>) -> (r: ParseResult<'src, Self>) {
        Func::parse(input)
    }
}

impl<'src> Parse<'src> for FuncArgs<'src> {
    open spec fn read_end(toks: Seq<Token<'src>>, pos: int) -> Result<int, Failure<'src>> {
        func_args_end(toks, pos)
    }

    open spec fn node_wf(&self) -> bool {
        self.wf()
    }

    fn parse(input: &mut ParseStream<'src>) -> (r: ParseResult<'src, Self>) {
        FuncArgs::parse(input)
    }
}

impl<'src> Parse<'src> for List<'src> {
    open spec fn read_end(toks: Seq<Token<'src>>, pos: int) -> Result<int, Failure<'src>> {
        list_end(toks, pos)
    }

    open spec fn node_wf(&self) -> bool {
        self.wf()
    }

    fn parse(input: &mut ParseStream<'src>) -> (r: ParseResult<'src, Self>) {
        List::parse(input)
    }
}

impl<'src> Parse<'src> for Obj<'src> {
    open spec fn read_end(toks: Seq<Token<'src>>, pos: int) -> Result<int, Failure<'src>> {
        obj_end(toks, pos)
    }

    open spec fn node_wf(&self) -> bool {
        self.wf()
    }

    fn parse(input: &mut ParseStream<'src>) -> (r: ParseResult<'src, Self>) {
        Obj::parse(input)
    }
}

impl<'src> Parse<'src> for ObjField<'src> {
    open spec fn read_end(toks: Seq<Token<'src>>, pos: int) -> Result<int, Failure<'src>> {
        field_end(toks, pos)
    }

    open spec fn node_wf(&self) -> bool {
        self.wf()
    }

    fn parse(input: &mut ParseStream<'src>) -> (r: ParseResult<'src, Self>) {
        ObjField::parse(input)
    }
}

impl<'src> Parse<'src> for Extern<'src> {
    open spec fn read_end(toks: Seq<Token<'src>>, pos: int) -> Result<int, Failure<'src>> {
        extern_end(toks, pos)
    }

    open spec fn node_wf(&self) -> bool {
        self.wf()
    }

    fn parse(input: &mut ParseStream<'src>) -> (r: ParseResult<'src, Self>) {
        Extern::parse(input)
    }
}

impl<'src> Parse<'src> for Call<'src> {
    open spec fn read_end(toks: Seq<Token<'src>>, pos: int) -> Result<int, Failure<'src>> {
        term_ending_with(toks, pos, Suffix::Call)
    }

    open spec fn node_wf(&self) -> bool {
        self.wf()
    }

    fn parse(input: &mut ParseStream<'src>) -> (r: ParseResult<'src, Self>) {
        Call::parse(input)
    }
}

impl<'src> Parse<'src> for IndexAcc<'src> {
    open spec fn read_end(toks: Seq<Token<'src>>, pos: int) -> Result<int, Failure<'src>> {
        term_ending_with(toks, pos, Suffix::Index)
    }

    open spec fn node_wf(&self) -> bool {
        self.wf()
    }

    fn parse(input: &mut ParseStream<'src>) -> (r: ParseResult<'src, Self>) {
        IndexAcc::parse(input)
    }
}

impl<'src> Parse<'src> for FieldAcc<'src> {
    open spec fn read_end(toks: Seq<Token<'src>>, pos: int) -> Result<int, Failure<'src>> {
        term_ending_with(toks, pos, Suffix::Field)
    }

    open spec fn node_wf(&self) -> bool {
        self.wf()
    }

    fn parse(input: &mut ParseStream<'src>) -> (r: ParseResult<'src, Self>) {
        FieldAcc::parse(input)
    }
}

impl<'src> Parse<'src> for Stmt<'src> {
    open spec fn read_end(toks: Seq<Token<'src>>, pos: int) -> Result<int, Failure<'src>> {
        stmt_end(toks, pos)
    }

    open spec fn node_wf(&self) -> bool {
        self.wf()
    }

    fn parse(input: &mut ParseStream<'src>) -> (r: ParseResult<'src, Self>) {
        Stmt::parse(input)
    }
}

impl<'src> Parse<'src> for VarDefine<'src> {
    open spec fn read_end(toks: Seq<Token<'src>>, pos: int) -> Result<int, Failure<'src>> {
        var_define_end(toks, pos)
    }

    open spec fn node_wf(&self) -> bool {
        self.wf()
    }

    fn parse(input: &mut ParseStream<'src>) -> (r: ParseResult<'src, Self>) {
        VarDefine::parse(input)
    }
}

impl<'src> Parse<'src> for VarAssign<'src> {
    open spec fn read_end(toks: Seq<Token<'src>>, pos: int) -> Result<int, Failure<'src>> {
        var_assign_end(toks, pos)
    }

    open spec fn node_wf(&self) -> bool {
        self.wf()
    }

    fn parse(input: &mut ParseStream<'src>) -> (r: ParseResult<'src, Self>) {
        VarAssign::parse(input)
    }
}

impl<'src> Parse<'src> for DoBlock<'src> {
    open spec fn read_end(toks: Seq<Token<'src>>, pos: int) -> Result<int, Failure<'src>> {
        do_block_end(toks, pos)
    }

    open spec fn node_wf(&self) -> bool {
        self.wf()
    }

    fn parse(input: &mut ParseStream<'src>) -> (r: ParseResult<'src, Self>) {
        DoBlock::parse(input)
    }
}

impl<'src> Parse<'src> for Return<'src> {
    open spec fn read_end(toks: Seq<Token<'src>>, pos: int) -> Result<int, Failure<'src>> {
        return_end(toks, pos)
    }

    open spec fn node_wf(&self) -> bool {
        self.wf()
    }

    fn parse(input: &mut ParseStream<'src>) -> (r: ParseResult<'src, Self>) {
        Return::parse(input)
    }
}

impl<'src> Parse<'src> for WhileLoop<'src> {
    open spec fn read_end(toks: Seq<Token<'src>>, pos: int) -> Result<int, Failure<'src>> {
        while_end(toks, pos)
    }

    open spec fn node_wf(&self) -> bool {
        self.wf()
    }

    fn parse(input: &mut ParseStream<'src>) -> (r: ParseResult<'src, Self>) {
        WhileLoop::parse(input)
    }
}

impl<'src> Parse<'src> for If<'src> {
    open spec fn read_end(toks: Seq<Token<'src>>, pos: int) -> Result<int, Failure<'src>> {
        if_end(toks, pos)
    }

    open spec fn node_wf(&self) -> bool {
        self.wf()
    }

    fn parse(input: &mut ParseStream<'src>) -> (r: ParseResult<'src, Self>) {
        If::parse(input)
    }
}

impl<'src> Parse<'src> for ElseIf<'src> {
    open spec fn read_end(toks: Seq<Token<'src>>, pos: int) -> Result<int, Failure<'src>> {
        else_if_end(toks, pos)
    }

    open spec fn node_wf(&self) -> bool {
        self.wf()
    }

    fn parse(input: &mut ParseStream<'src>) -> (r: ParseResult<'src, Self>) {
        ElseIf::parse(input)
    }
}

impl<'src> Parse<'src> for Else<'src> {
    open spec fn read_end(toks: Seq<Token<'src>>, pos: int) -> Result<int, Failure<'src>> {
        else_end(toks, pos)
    }

    open spec fn node_wf(&self) -> bool {
        self.wf()
    }

    fn parse(input: &mut ParseStream<'src>) -> (r: ParseResult<'src, Self>) {
        Else::parse(input)
    }
}

impl<'src> Parse<'src> for ExprAssign<'src> {
    open spec fn read_end(toks: Seq<Token<'src>>, pos: int) -> Result<int, Failure<'src>> {
        expr_assign_end(toks, pos)
    }

    open spec fn node_wf(&self) -> bool {
        self.wf()
    }

    fn parse(input: &mut ParseStream<'src>) -> (r: ParseResult<'src, Self>) {
        ExprAssign::parse(input)
    }
}

impl<'src> Parse<'src> for IndexAssign<'src> {
    open spec fn read_end(toks: Seq<Token<'src>>, pos: int) -> Result<int, Failure<'src>> {
        index_assign_end(toks, pos)
    }

    open spec fn node_wf(&self) -> bool {
        self.wf()
    }

    fn parse(input: &mut ParseStream<'src>) -> (r: ParseResult<'src, Self>) {
        IndexAssign::parse(input)
    }
}

impl<'src> Parse<'src> for FieldAssign<'src> {
    open spec fn read_end(toks: Seq<Token<'src>>, pos: int) -> Result<int, Failure<'src>> {
        field_assign_end(toks, pos)
    }

    open spec fn node_wf(&self) -> bool {
        self.wf()
    }

    fn parse(input: &mut ParseStream<'src>) -> (r: ParseResult<'src, Self>) {
        FieldAssign::parse(input)
    }
}

impl<'src> Parse<'src> for ClassDef<'src> {
    open spec fn read_end(toks: Seq<Token<'src>>, pos: int) -> Result<int, Failure<'src>> {
        class_end(toks, pos)
    }

    open spec fn node_wf(&self) -> bool {
        self.wf()
    }

    fn parse(input: &mut ParseStream<'src>) -> (r: ParseResult<'src, Self>) {
        ClassDef::parse(input)
    }
}

impl<'src> Parse<'src> for Program<'src> {
    open spec fn read_end(toks: Seq<Token<'src>>, pos: int) -> Result<int, Failure<'src>> {
        program_end(toks, pos)
    }

    open spec fn node_wf(&self) -> bool {
        self.wf()
    }

    fn parse(input: &mut ParseStream<'src>) -> (r: ParseResult<'src, Self>) {
        Program::parse(input)
    }
}

impl<'src> Parse<'src> for BinaryOp<'src> {
    open spec fn read_end(toks: Seq<Token<'src>>, pos: int) -> Result<int, Failure<'src>> {
        binary_op_end(toks, pos)
    }

    /// Any operator read is well formed.
    open spec fn node_wf(&self) -> bool {
        true
    }

    fn parse(input: &mut ParseStream<'src>) -> (r: ParseResult<'src, Self>) {
        BinaryOp::parse(input)
    }
}

impl<'src> Parse<'src> for UnaryOp<'src> {
    open spec fn read_end(toks: Seq<Token<'src>>, pos: int) -> Result<int, Failure<'src>> {
        unary_op_end(toks, pos)
    }

    /// Any operator read is well formed.
    open spec fn node_wf(&self) -> bool {
        true
    }

    fn parse(input: &mut ParseStream<'src>) -> (r: ParseResult<'src, Self>) {
        UnaryOp::parse(input)
    }
}

} // verus!
