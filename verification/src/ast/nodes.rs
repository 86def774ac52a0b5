//! The syntax tree that the parser builds: each node keeps the tokens it was read from.

use vstd::prelude::*;
use crate::ast::grammar::{grouped, no_access_operators};
use crate::lexer::{Token, TokenKind};
use crate::punctuated::{Punctuated, lemma_parts_decrease};
use crate::span::Span;

verus! {

/// An identifier.
#[derive(Debug, Clone, Copy)]
pub struct Ident<'src> {
    _ident: Token<'src>,
}

/// The keyword `self`, read as an identifier.
#[derive(Debug, Clone, Copy)]
pub struct SelfKw<'src> {
    _ident: Ident<'src>,
}

/// A literal value.
#[derive(Debug)]
pub struct Lit<'src> {
    pub kind: LitKind,
    pub span: Span<'src>,
}

/// What a literal holds. A number keeps the text it was written as.
#[derive(Debug)]
pub enum LitKind {
    Num(String),
    Bool(bool),
    Str(String),
    /// The literal `none`.
    Nil,
}

/// An operator between two operands.
#[derive(Debug, Clone, Copy)]
pub struct BinaryOp<'src> {
    pub kind: BinaryOpKind,
    pub span: Span<'src>,
}

/// The kinds of binary operator, named after their tokens.
#[derive(Debug, Clone, Copy, PartialEq, Eq, Structural)]
pub enum BinaryOpKind {
    Plus,
    Minus,
    Asterisk,
    Slash,
    Sign,
    EqEq,
    Neq,
    And,
    Or,
    Gt,
    Lt,
    Gte,
    Lte,
    LeftBracket,
    Dot,
}

/// An operator in front of one operand.
#[derive(Debug, Clone, Copy)]
pub struct UnaryOp<'src> {
    pub kind: UnaryOpKind,
    pub span: Span<'src>,
}

/// The kinds of unary operator, named after their tokens.
#[derive(Debug, Clone, Copy, PartialEq, Eq, Structural)]
pub enum UnaryOpKind {
    Minus,
    Not,
}

/// `lhs op rhs`.
pub struct BinaryExpr<'src> {
    pub lhs: Term<'src>,
    pub op: BinaryOp<'src>,
    pub rhs: Term<'src>,
}

/// `op operand`.
pub struct UnaryExpr<'src> {
    pub op: UnaryOp<'src>,
    pub operand: Term<'src>,
}

/// An expression.
pub enum Expr<'src> {
    Binary(BinaryExpr<'src>),
    Unary(UnaryExpr<'src>),
    Term(Term<'src>),
}

/// `( expr )`.
pub struct ParenExpr<'src> {
    pub _lp: Token<'src>,
    pub expr: Box<Expr<'src>>,
    pub _rp: Token<'src>,
}

/// An operand.
pub enum Term<'src> {
    /// An expression that stands as an operand of a larger one.
    Expr(Box<Expr<'src>>),
    ParenExpr(ParenExpr<'src>),
    Lit(Lit<'src>),
    Ident(Ident<'src>),
    Func(Box<Func<'src>>),
    List(List<'src>),
    Obj(Obj<'src>),
    Extern(Extern<'src>),
    Call(Call<'src>),
    IndexAcc(IndexAcc<'src>),
    FieldAcc(FieldAcc<'src>),
}

/// `func ( args ) do ... end`.
pub struct Func<'src> {
    pub _func: Token<'src>,
    pub _lp: Token<'src>,
    pub args: FuncArgs<'src>,
    pub _rp: Token<'src>,
    pub block: DoBlock<'src>,
}

/// The arguments of a function: `self` first, or not.
pub enum FuncArgs<'src> {
    WithSelf { _self: SelfKw<'src>, args: Option<(Token<'src>, Punctuated<Ident<'src>, Token<'src>>)> },
    WithoutSelf { args: Punctuated<Ident<'src>, Token<'src>> },
}

/// `[ items ]`.
pub struct List<'src> {
    pub _lb: Token<'src>,
    pub items: Option<Box<Punctuated<Expr<'src>, Token<'src>>>>,
    pub _rb: Token<'src>,
}

/// `{ fields }`.
pub struct Obj<'src> {
    pub _lb: Token<'src>,
    pub fields: Option<Box<Punctuated<ObjField<'src>, Token<'src>>>>,
    pub _rb: Token<'src>,
}

/// `name = value` inside an object.
pub struct ObjField<'src> {
    pub name: Ident<'src>,
    pub _eq: Token<'src>,
    pub value: Expr<'src>,
}

/// `extern value`.
pub struct Extern<'src> {
    pub _extern: Token<'src>,
    pub value: Box<Expr<'src>>,
}

/// `callee ( args )`.
pub struct Call<'src> {
    pub callee: Box<Term<'src>>,
    pub _lp: Token<'src>,
    pub args: Box<Punctuated<Expr<'src>, Token<'src>>>,
    pub _rp: Token<'src>,
}

/// `list [ index ]`.
pub struct IndexAcc<'src> {
    pub list: Box<Term<'src>>,
    pub _lb: Token<'src>,
    pub index: Box<Expr<'src>>,
    pub _rb: Token<'src>,
}

/// `object . field`.
pub struct FieldAcc<'src> {
    pub object: Box<Term<'src>>,
    pub _dot: Token<'src>,
    pub field: Ident<'src>,
}

/// A statement.
pub enum Stmt<'src> {
    VarDefine(VarDefine<'src>),
    VarAssign(VarAssign<'src>),
    DoBlock(DoBlock<'src>),
    Return(Return<'src>),
    Call(Call<'src>),
    WhileLoop(WhileLoop<'src>),
    Break(Break<'src>),
    Continue(Continue<'src>),
    If(If<'src>),
    ExprAssign(ExprAssign<'src>),
    ClassDef(ClassDef<'src>),
}

/// `def name = value` or `def name`.
pub enum VarDefine<'src> {
    WithValue { _def: Token<'src>, name: Ident<'src>, _eq: Token<'src>, value: Expr<'src> },
    NoValue { _def: Token<'src>, name: Ident<'src> },
}

/// `name = value`.
pub struct VarAssign<'src> {
    pub name: Ident<'src>,
    pub _eq: Token<'src>,
    pub value: Expr<'src>,
}

/// `do stmts end`.
pub struct DoBlock<'src> {
    pub _do: Token<'src>,
    pub stmts: Vec<Stmt<'src>>,
    pub _end: Token<'src>,
}

/// `return value`.
pub struct Return<'src> {
    pub _return: Token<'src>,
    pub value: Expr<'src>,
}

/// `break`.
#[derive(Debug)]
pub struct Break<'src> {
    _break: Token<'src>,
}

/// `continue`.
#[derive(Debug)]
pub struct Continue<'src> {
    _continue: Token<'src>,
}

/// `while cond do ... end`.
pub struct WhileLoop<'src> {
    pub _while: Token<'src>,
    pub cond: Expr<'src>,
    pub block: DoBlock<'src>,
}

/// `if cond then stmts (elseif ...)* (else ...)? end`.
pub struct If<'src> {
    pub _if: Token<'src>,
    pub cond: Expr<'src>,
    pub _then: Token<'src>,
    pub stmts: Vec<Stmt<'src>>,
    pub b_elifs: Vec<ElseIf<'src>>,
    pub b_else: Option<Else<'src>>,
    pub _end: Token<'src>,
}

/// `elseif cond then stmts`.
pub struct ElseIf<'src> {
    pub _elseif: Token<'src>,
    pub cond: Expr<'src>,
    pub _then: Token<'src>,
    pub stmts: Vec<Stmt<'src>>,
}

/// `else stmts`.
pub struct Else<'src> {
    pub _else: Token<'src>,
    pub stmts: Vec<Stmt<'src>>,
}

/// An assignment to an element or a field.
pub enum ExprAssign<'src> {
    IndexAssign(IndexAssign<'src>),
    FieldAssign(FieldAssign<'src>),
}

/// `list[index] = value`.
///
/// Where a field assignment follows an element assignment directly, the statement parser
/// reads it and then drops it (see `ExprAssign::parse`); `skipped` records, for proofs only,
/// the tokens it read that way.
pub struct IndexAssign<'src> {
    pub acc: IndexAcc<'src>,
    pub _eq: Token<'src>,
    pub value: Expr<'src>,
    pub skipped: Ghost<Seq<Token<'src>>>,
}

/// `object.field = value`.
pub struct FieldAssign<'src> {
    pub acc: FieldAcc<'src>,
    pub _eq: Token<'src>,
    pub value: Expr<'src>,
}

/// `class name fields end`.
pub struct ClassDef<'src> {
    pub _class: Token<'src>,
    pub name: Ident<'src>,
    pub fields: Vec<VarDefine<'src>>,
    pub _end: Token<'src>,
}

/// A whole program: its statements.
pub struct Program<'src> {
    pub stmts: Vec<Stmt<'src>>,
}

// ---------------------------------------------------------------------------------------
// The tokens each node was read from.

/// The token kind of each binary operator.
pub open spec fn binary_op_token(kind: BinaryOpKind) -> TokenKind {
    match kind {
        BinaryOpKind::Plus => TokenKind::Plus,
        BinaryOpKind::Minus => TokenKind::Minus,
        BinaryOpKind::Asterisk => TokenKind::Asterisk,
        BinaryOpKind::Slash => TokenKind::Slash,
        BinaryOpKind::Sign => TokenKind::Sign,
        BinaryOpKind::EqEq => TokenKind::EqEq,
        BinaryOpKind::Neq => TokenKind::Neq,
        BinaryOpKind::And => TokenKind::And,
        BinaryOpKind::Or => TokenKind::Or,
        BinaryOpKind::Gt => TokenKind::Gt,
        BinaryOpKind::Lt => TokenKind::Lt,
        BinaryOpKind::Gte => TokenKind::Gte,
        BinaryOpKind::Lte => TokenKind::Lte,
        BinaryOpKind::LeftBracket => TokenKind::LeftBracket,
        BinaryOpKind::Dot => TokenKind::Dot,
    }
}

/// The token kind of each unary operator.
pub open spec fn unary_op_token(kind: UnaryOpKind) -> TokenKind {
    match kind {
        UnaryOpKind::Minus => TokenKind::Minus,
        UnaryOpKind::Not => TokenKind::Not,
    }
}

/// The token kind a literal is read from.
pub open spec fn lit_token(kind: LitKind) -> TokenKind {
    match kind {
        LitKind::Num(_) => TokenKind::Number,
        LitKind::Bool(true) => TokenKind::True,
        LitKind::Bool(false) => TokenKind::False,
        LitKind::Str(_) => TokenKind::String,
        LitKind::Nil => TokenKind::NoneKw,
    }
}

impl<'src> Ident<'src> {
    pub closed spec fn spec_token(self) -> Token<'src> {
        self._ident
    }

    pub open spec fn spec_tokens(self) -> Seq<Token<'src>> {
        seq![self.spec_token()]
    }

    pub open spec fn wf(self) -> bool {
        self.spec_token().spec_kind() == TokenKind::Ident
    }

    /// The identifier of `token`.
    pub(crate) fn from_token(token: Token<'src>) -> (i: Self)
        ensures
            i.spec_token() == token,
    {
        Ident { _ident: token }
    }

    /// The identifier's token.
    pub fn token(&self) -> (t: Token<'src>)
        ensures
            t == self.spec_token(),
    {
        self._ident
    }
}

impl<'src> SelfKw<'src> {
    pub closed spec fn spec_ident(self) -> Ident<'src> {
        self._ident
    }

    pub open spec fn spec_tokens(self) -> Seq<Token<'src>> {
        self.spec_ident().spec_tokens()
    }

    /// An identifier whose text is `self`.
    pub open spec fn wf(self) -> bool {
        &&& self.spec_ident().wf()
        &&& self.spec_ident().spec_token().spec_span().spec_text() == "self"@
    }

    pub(crate) fn from_ident(ident: Ident<'src>) -> (s: Self)
        ensures
            s.spec_ident() == ident,
    {
        SelfKw { _ident: ident }
    }

    /// The identifier that reads `self`.
    pub fn ident(&self) -> (i: Ident<'src>)
        ensures
            i == self.spec_ident(),
    {
        self._ident
    }
}

impl<'src> Break<'src> {
    pub closed spec fn spec_token(self) -> Token<'src> {
        self._break
    }

    pub open spec fn spec_tokens(self) -> Seq<Token<'src>> {
        seq![self.spec_token()]
    }

    pub open spec fn wf(self) -> bool {
        self.spec_token().spec_kind() == TokenKind::Break
    }

    pub(crate) fn from_token(token: Token<'src>) -> (b: Self)
        ensures
            b.spec_token() == token,
    {
        Break { _break: token }
    }

    /// The keyword's token.
    pub fn token(&self) -> (t: Token<'src>)
        ensures
            t == self.spec_token(),
    {
        self._break
    }
}

impl<'src> Continue<'src> {
    pub closed spec fn spec_token(self) -> Token<'src> {
        self._continue
    }

    pub open spec fn spec_tokens(self) -> Seq<Token<'src>> {
        seq![self.spec_token()]
    }

    pub open spec fn wf(self) -> bool {
        self.spec_token().spec_kind() == TokenKind::Continue
    }

    pub(crate) fn from_token(token: Token<'src>) -> (c: Self)
        ensures
            c.spec_token() == token,
    {
        Continue { _continue: token }
    }

    /// The keyword's token.
    pub fn token(&self) -> (t: Token<'src>)
        ensures
            t == self.spec_token(),
    {
        self._continue
    }
}

impl<'src> Lit<'src> {
    /// The token the literal was read from.
    pub open spec fn spec_token(self) -> Token<'src> {
        Token::spec_new(lit_token(self.kind), self.span)
    }

    pub open spec fn spec_tokens(self) -> Seq<Token<'src>> {
        seq![self.spec_token()]
    }

    /// A number keeps the text of its token, a string that text without its quotes.
    pub open spec fn wf(self) -> bool {
        match self.kind {
            LitKind::Num(text) => text@ == self.span.spec_text(),
            LitKind::Str(text) => text@ == crate::text::spec_strip_quotes(self.span.spec_text()),
            _ => true,
        }
    }
}

impl<'src> BinaryOp<'src> {
    pub open spec fn spec_token(self) -> Token<'src> {
        Token::spec_new(binary_op_token(self.kind), self.span)
    }

    pub open spec fn spec_tokens(self) -> Seq<Token<'src>> {
        seq![self.spec_token()]
    }
}

impl<'src> UnaryOp<'src> {
    pub open spec fn spec_token(self) -> Token<'src> {
        Token::spec_new(unary_op_token(self.kind), self.span)
    }

    pub open spec fn spec_tokens(self) -> Seq<Token<'src>> {
        seq![self.spec_token()]
    }
}

/// The tokens of a punctuated list of identifiers.
pub open spec fn idents_tokens<'src>(list: Punctuated<Ident<'src>, Token<'src>>) -> Seq<Token<'src>> {
    ident_pairs_tokens(list.spec_pairs()) + match list.spec_tail() {
        Some(i) => i.spec_tokens(),
        None => Seq::empty(),
    }
}

/// The tokens of (identifier, punctuation) pairs, in order.
pub open spec fn ident_pairs_tokens<'src>(pairs: Seq<(Ident<'src>, Token<'src>)>) -> Seq<Token<'src>>
    decreases pairs.len(),
{
    if pairs.len() == 0 {
        Seq::empty()
    } else {
        ident_pairs_tokens(pairs.drop_last()) + pairs.last().0.spec_tokens() + seq![pairs.last().1]
    }
}

/// The identifiers of a list and its separators are what they should be.
pub open spec fn idents_wf<'src>(list: Punctuated<Ident<'src>, Token<'src>>) -> bool {
    &&& forall|i: int|
        0 <= i < list.spec_pairs().len() ==> (#[trigger] list.spec_pairs()[i]).0.wf()
            && list.spec_pairs()[i].1.spec_kind() == TokenKind::Comma
    &&& list.spec_tail() matches Some(t) ==> t.wf()
}

/// The tokens of a punctuated list of expressions.
pub open spec fn exprs_tokens<'src>(list: Punctuated<Expr<'src>, Token<'src>>) -> Seq<Token<'src>>
    decreases list,
{
    proof {
        lemma_parts_decrease(list);
    }
    expr_pairs_tokens(list.spec_pairs()) + match list.spec_tail() {
        Some(e) => e.spec_tokens(),
        None => Seq::empty(),
    }
}

/// The tokens of (expression, punctuation) pairs, in order.
pub open spec fn expr_pairs_tokens<'src>(pairs: Seq<(Expr<'src>, Token<'src>)>) -> Seq<Token<'src>>
    decreases pairs,
{
    if pairs.len() == 0 {
        Seq::empty()
    } else {
        expr_pairs_tokens(pairs.drop_last()) + pairs.last().0.spec_tokens() + seq![pairs.last().1]
    }
}

/// The tokens of a punctuated list of object fields.
pub open spec fn fields_tokens<'src>(list: Punctuated<ObjField<'src>, Token<'src>>) -> Seq<Token<'src>>
    decreases list,
{
    proof {
        lemma_parts_decrease(list);
    }
    field_pairs_tokens(list.spec_pairs()) + match list.spec_tail() {
        Some(f) => f.spec_tokens(),
        None => Seq::empty(),
    }
}

/// The tokens of (field, punctuation) pairs, in order.
pub open spec fn field_pairs_tokens<'src>(pairs: Seq<(ObjField<'src>, Token<'src>)>) -> Seq<Token<'src>>
    decreases pairs,
{
    if pairs.len() == 0 {
        Seq::empty()
    } else {
        field_pairs_tokens(pairs.drop_last()) + pairs.last().0.spec_tokens() + seq![pairs.last().1]
    }
}

/// The tokens of statements, one after the other.
pub open spec fn stmts_tokens<'src>(stmts: Seq<Stmt<'src>>) -> Seq<Token<'src>>
    decreases stmts,
{
    if stmts.len() == 0 {
        Seq::empty()
    } else {
        stmts_tokens(stmts.drop_last()) + stmts.last().spec_tokens()
    }
}

/// The tokens of `elseif` branches, one after the other.
pub open spec fn elifs_tokens<'src>(elifs: Seq<ElseIf<'src>>) -> Seq<Token<'src>>
    decreases elifs,
{
    if elifs.len() == 0 {
        Seq::empty()
    } else {
        elifs_tokens(elifs.drop_last()) + elifs.last().spec_tokens()
    }
}

/// The tokens of variable definitions, one after the other.
pub open spec fn defines_tokens<'src>(defs: Seq<VarDefine<'src>>) -> Seq<Token<'src>>
    decreases defs,
{
    if defs.len() == 0 {
        Seq::empty()
    } else {
        defines_tokens(defs.drop_last()) + defs.last().spec_tokens()
    }
}

impl<'src> Expr<'src> {
    pub open spec fn spec_tokens(self) -> Seq<Token<'src>>
        decreases self,
    {
        match self {
            Expr::Binary(b) => b.spec_tokens(),
            Expr::Unary(u) => u.spec_tokens(),
            Expr::Term(t) => t.spec_tokens(),
        }
    }
}

impl<'src> Term<'src> {
    pub open spec fn spec_tokens(self) -> Seq<Token<'src>>
        decreases self,
    {
        match self {
            Term::Expr(e) => e.spec_tokens(),
            Term::ParenExpr(p) => p.spec_tokens(),
            Term::Lit(l) => l.spec_tokens(),
            Term::Ident(i) => i.spec_tokens(),
            Term::Func(f) => f.spec_tokens(),
            Term::List(l) => l.spec_tokens(),
            Term::Obj(o) => o.spec_tokens(),
            Term::Extern(x) => x.spec_tokens(),
            Term::Call(c) => c.spec_tokens(),
            Term::IndexAcc(a) => a.spec_tokens(),
            Term::FieldAcc(a) => a.spec_tokens(),
        }
    }
}

impl<'src> BinaryExpr<'src> {
    pub open spec fn spec_tokens(self) -> Seq<Token<'src>>
        decreases self,
    {
        self.lhs.spec_tokens() + self.op.spec_tokens() + self.rhs.spec_tokens()
    }
}

impl<'src> UnaryExpr<'src> {
    pub open spec fn spec_tokens(self) -> Seq<Token<'src>>
        decreases self,
    {
        self.op.spec_tokens() + self.operand.spec_tokens()
    }
}

impl<'src> ParenExpr<'src> {
    pub open spec fn spec_tokens(self) -> Seq<Token<'src>>
        decreases self,
    {
        seq![self._lp] + self.expr.spec_tokens() + seq![self._rp]
    }
}

impl<'src> Func<'src> {
    pub open spec fn spec_tokens(self) -> Seq<Token<'src>>
        decreases self,
    {
        seq![self._func, self._lp] + self.args.spec_tokens() + seq![self._rp]
            + self.block.spec_tokens()
    }
}

impl<'src> List<'src> {
    pub open spec fn spec_tokens(self) -> Seq<Token<'src>>
        decreases self,
    {
        seq![self._lb] + match self.items {
            Some(items) => exprs_tokens(*items),
            None => Seq::empty(),
        } + seq![self._rb]
    }
}

impl<'src> Obj<'src> {
    pub open spec fn spec_tokens(self) -> Seq<Token<'src>>
        decreases self,
    {
        seq![self._lb] + match self.fields {
            Some(fields) => fields_tokens(*fields),
            None => Seq::empty(),
        } + seq![self._rb]
    }
}

impl<'src> Extern<'src> {
    pub open spec fn spec_tokens(self) -> Seq<Token<'src>>
        decreases self,
    {
        seq![self._extern] + self.value.spec_tokens()
    }
}

impl<'src> Call<'src> {
    pub open spec fn spec_tokens(self) -> Seq<Token<'src>>
        decreases self,
    {
        self.callee.spec_tokens() + seq![self._lp] + exprs_tokens(*self.args) + seq![self._rp]
    }
}

impl<'src> IndexAcc<'src> {
    pub open spec fn spec_tokens(self) -> Seq<Token<'src>>
        decreases self,
    {
        self.list.spec_tokens() + seq![self._lb] + self.index.spec_tokens() + seq![self._rb]
    }
}

impl<'src> FieldAcc<'src> {
    pub open spec fn spec_tokens(self) -> Seq<Token<'src>>
        decreases self,
    {
        self.object.spec_tokens() + seq![self._dot] + self.field.spec_tokens()
    }
}

impl<'src> FuncArgs<'src> {
    pub open spec fn spec_tokens(self) -> Seq<Token<'src>> {
        match self {
            FuncArgs::WithSelf { _self, args } => _self.spec_tokens() + match args {
                Some((comma, list)) => seq![comma] + idents_tokens(list),
                None => Seq::empty(),
            },
            FuncArgs::WithoutSelf { args } => idents_tokens(args),
        }
    }
}

impl<'src> ObjField<'src> {
    pub open spec fn spec_tokens(self) -> Seq<Token<'src>>
        decreases self,
    {
        self.name.spec_tokens() + seq![self._eq] + self.value.spec_tokens()
    }
}

impl<'src> Stmt<'src> {
    pub open spec fn spec_tokens(self) -> Seq<Token<'src>>
        decreases self,
    {
        match self {
            Stmt::VarDefine(d) => d.spec_tokens(),
            Stmt::VarAssign(a) => a.spec_tokens(),
            Stmt::DoBlock(b) => b.spec_tokens(),
            Stmt::Return(r) => r.spec_tokens(),
            Stmt::Call(c) => c.spec_tokens(),
            Stmt::WhileLoop(w) => w.spec_tokens(),
            Stmt::Break(b) => b.spec_tokens(),
            Stmt::Continue(c) => c.spec_tokens(),
            Stmt::If(i) => i.spec_tokens(),
            Stmt::ExprAssign(a) => a.spec_tokens(),
            Stmt::ClassDef(c) => c.spec_tokens(),
        }
    }
}

impl<'src> VarAssign<'src> {
    pub open spec fn spec_tokens(self) -> Seq<Token<'src>>
        decreases self,
    {
        self.name.spec_tokens() + seq![self._eq] + self.value.spec_tokens()
    }
}

impl<'src> Return<'src> {
    pub open spec fn spec_tokens(self) -> Seq<Token<'src>>
        decreases self,
    {
        seq![self._return] + self.value.spec_tokens()
    }
}

impl<'src> WhileLoop<'src> {
    pub open spec fn spec_tokens(self) -> Seq<Token<'src>>
        decreases self,
    {
        seq![self._while] + self.cond.spec_tokens() + self.block.spec_tokens()
    }
}

impl<'src> If<'src> {
    pub open spec fn spec_tokens(self) -> Seq<Token<'src>>
        decreases self,
    {
        seq![self._if] + self.cond.spec_tokens() + seq![self._then] + stmts_tokens(self.stmts@)
            + elifs_tokens(self.b_elifs@) + match self.b_else {
            Some(e) => e.spec_tokens(),
            None => Seq::empty(),
        } + seq![self._end]
    }
}

impl<'src> Else<'src> {
    pub open spec fn spec_tokens(self) -> Seq<Token<'src>>
        decreases self,
    {
        seq![self._else] + stmts_tokens(self.stmts@)
    }
}

impl<'src> ExprAssign<'src> {
    pub open spec fn spec_tokens(self) -> Seq<Token<'src>>
        decreases self,
    {
        match self {
            ExprAssign::IndexAssign(a) => a.spec_tokens(),
            ExprAssign::FieldAssign(a) => a.spec_tokens(),
        }
    }
}

impl<'src> IndexAssign<'src> {
    /// The tokens read after the assignment and dropped.
    pub open spec fn spec_skipped(self) -> Seq<Token<'src>> {
        self.skipped@
    }

    /// The tokens of the assignment itself: target, `=`, value.
    pub open spec fn own_tokens(self) -> Seq<Token<'src>>
        decreases self,
    {
        self.acc.spec_tokens() + seq![self._eq] + self.value.spec_tokens()
    }

    /// The tokens of the assignment, then those read after it and dropped.
    pub open spec fn spec_tokens(self) -> Seq<Token<'src>>
        decreases self,
    {
        self.acc.spec_tokens() + seq![self._eq] + self.value.spec_tokens() + self.spec_skipped()
    }
}

impl<'src> FieldAssign<'src> {
    pub open spec fn spec_tokens(self) -> Seq<Token<'src>>
        decreases self,
    {
        self.acc.spec_tokens() + seq![self._eq] + self.value.spec_tokens()
    }
}

impl<'src> ClassDef<'src> {
    pub open spec fn spec_tokens(self) -> Seq<Token<'src>>
        decreases self,
    {
        seq![self._class] + self.name.spec_tokens() + defines_tokens(self.fields@) + seq![self._end]
    }
}

impl<'src> Program<'src> {
    pub open spec fn spec_tokens(self) -> Seq<Token<'src>> {
        stmts_tokens(self.stmts@)
    }
}

impl<'src> VarDefine<'src> {
    pub open spec fn spec_tokens(self) -> Seq<Token<'src>>
        decreases self,
    {
        match self {
            VarDefine::WithValue { _def, name, _eq, value } => seq![_def] + name.spec_tokens()
                + seq![_eq] + value.spec_tokens(),
            VarDefine::NoValue { _def, name } => seq![_def] + name.spec_tokens(),
        }
    }
}

impl<'src> DoBlock<'src> {
    pub open spec fn spec_tokens(self) -> Seq<Token<'src>>
        decreases self,
    {
        seq![self._do] + stmts_tokens(self.stmts@) + seq![self._end]
    }
}

impl<'src> ElseIf<'src> {
    pub open spec fn spec_tokens(self) -> Seq<Token<'src>>
        decreases self,
    {
        seq![self._elseif] + self.cond.spec_tokens() + seq![self._then] + stmts_tokens(self.stmts@)
    }
}

// ---------------------------------------------------------------------------------------
// Well-formed nodes: each token is of the kind its place calls for.

/// The binding powers (left, right) of a token that continues an expression; `None` for a
/// token that ends one.
pub open spec fn spec_binding_power(kind: TokenKind) -> Option<(u8, u8)> {
    match kind {
        TokenKind::Plus | TokenKind::Minus => Some((1, 2)),
        TokenKind::Asterisk | TokenKind::Slash => Some((3, 4)),
        TokenKind::Dot | TokenKind::LeftBracket => Some((5, 6)),
        TokenKind::EqEq | TokenKind::Gt | TokenKind::Lt | TokenKind::Gte | TokenKind::Lte => Some(
            (1, 2),
        ),
        TokenKind::And => Some((3, 2)),
        TokenKind::Or => Some((1, 1)),
        _ => None,
    }
}

/// `e` is a whole expression as the parser reads one: its operators group by their
/// binding powers, and none of them is an access.
pub open spec fn grouped_whole<'src>(e: Expr<'src>) -> bool {
    grouped(e, 0) && no_access_operators(e)
}

/// `token` is of kind `kind`.
pub open spec fn is_kind<'src>(token: Token<'src>, kind: TokenKind) -> bool {
    token.spec_kind() == kind
}

/// The (expression, comma) pairs are well formed.
pub open spec fn expr_pairs_wf<'src>(pairs: Seq<(Expr<'src>, Token<'src>)>) -> bool
    decreases pairs,
{
    if pairs.len() == 0 {
        true
    } else {
        expr_pairs_wf(pairs.drop_last()) && pairs.last().0.wf() && grouped_whole(pairs.last().0)
            && is_kind(
            pairs.last().1,
            TokenKind::Comma,
        )
    }
}

/// The expressions of a comma-separated list are well formed.
pub open spec fn exprs_wf<'src>(list: Punctuated<Expr<'src>, Token<'src>>) -> bool
    decreases list,
{
    proof {
        lemma_parts_decrease(list);
    }
    expr_pairs_wf(list.spec_pairs()) && match list.spec_tail() {
        Some(e) => e.wf() && grouped_whole(e),
        None => true,
    }
}

/// The (field, comma) pairs are well formed.
pub open spec fn field_pairs_wf<'src>(pairs: Seq<(ObjField<'src>, Token<'src>)>) -> bool
    decreases pairs,
{
    if pairs.len() == 0 {
        true
    } else {
        field_pairs_wf(pairs.drop_last()) && pairs.last().0.wf() && is_kind(
            pairs.last().1,
            TokenKind::Comma,
        )
    }
}

/// The fields of a comma-separated list are well formed.
pub open spec fn fields_wf<'src>(list: Punctuated<ObjField<'src>, Token<'src>>) -> bool
    decreases list,
{
    proof {
        lemma_parts_decrease(list);
    }
    field_pairs_wf(list.spec_pairs()) && match list.spec_tail() {
        Some(f) => f.wf(),
        None => true,
    }
}

/// Every statement is well formed.
pub open spec fn stmts_wf<'src>(stmts: Seq<Stmt<'src>>) -> bool
    decreases stmts,
{
    if stmts.len() == 0 {
        true
    } else {
        stmts_wf(stmts.drop_last()) && stmts.last().wf()
    }
}

/// Every `elseif` branch is well formed.
pub open spec fn elifs_wf<'src>(elifs: Seq<ElseIf<'src>>) -> bool
    decreases elifs,
{
    if elifs.len() == 0 {
        true
    } else {
        elifs_wf(elifs.drop_last()) && elifs.last().wf()
    }
}

/// Every variable definition is well formed.
pub open spec fn defines_wf<'src>(defs: Seq<VarDefine<'src>>) -> bool
    decreases defs,
{
    if defs.len() == 0 {
        true
    } else {
        defines_wf(defs.drop_last()) && defs.last().wf()
    }
}

impl<'src> Expr<'src> {
    pub open spec fn wf(self) -> bool
        decreases self,
    {
        match self {
            Expr::Binary(b) => b.wf(),
            Expr::Unary(u) => u.wf(),
            Expr::Term(t) => t.wf(),
        }
    }
}

impl<'src> BinaryExpr<'src> {
    /// The operator is one that continues an expression.
    pub open spec fn wf(self) -> bool
        decreases self,
    {
        &&& self.lhs.wf()
        &&& spec_binding_power(binary_op_token(self.op.kind)) is Some
        &&& self.rhs.wf()
    }
}

impl<'src> UnaryExpr<'src> {
    pub open spec fn wf(self) -> bool
        decreases self,
    {
        self.operand.wf()
    }
}

impl<'src> Term<'src> {
    /// An expression stands as an operand only where it is not a lone operand itself.
    pub open spec fn wf(self) -> bool
        decreases self,
    {
        match self {
            Term::Expr(e) => !(*e is Term) && e.wf(),
            Term::ParenExpr(p) => p.wf(),
            Term::Lit(l) => l.wf(),
            Term::Ident(i) => i.wf(),
            Term::Func(f) => f.wf(),
            Term::List(l) => l.wf(),
            Term::Obj(o) => o.wf(),
            Term::Extern(x) => x.wf(),
            Term::Call(c) => c.wf(),
            Term::IndexAcc(a) => a.wf(),
            Term::FieldAcc(a) => a.wf(),
        }
    }
}

impl<'src> ParenExpr<'src> {
    pub open spec fn wf(self) -> bool
        decreases self,
    {
        is_kind(self._lp, TokenKind::LeftParen) && self.expr.wf() && grouped_whole(*self.expr)
            && is_kind(
            self._rp,
            TokenKind::RightParen,
        )
    }
}

impl<'src> Func<'src> {
    pub open spec fn wf(self) -> bool
        decreases self,
    {
        &&& is_kind(self._func, TokenKind::Func)
        &&& is_kind(self._lp, TokenKind::LeftParen)
        &&& self.args.wf()
        &&& is_kind(self._rp, TokenKind::RightParen)
        &&& self.block.wf()
    }
}

impl<'src> FuncArgs<'src> {
    pub open spec fn wf(self) -> bool {
        match self {
            FuncArgs::WithSelf { _self, args } => _self.wf() && match args {
                Some((comma, list)) => is_kind(comma, TokenKind::Comma) && idents_wf(list),
                None => true,
            },
            FuncArgs::WithoutSelf { args } => idents_wf(args),
        }
    }
}

impl<'src> List<'src> {
    /// Where there are items, there is at least one.
    pub open spec fn wf(self) -> bool
        decreases self,
    {
        &&& is_kind(self._lb, TokenKind::LeftBracket)
        &&& match self.items {
            Some(items) => items.spec_len() > 0 && exprs_wf(*items),
            None => true,
        }
        &&& is_kind(self._rb, TokenKind::RightBracket)
    }
}

impl<'src> Obj<'src> {
    /// Where there are fields, there is at least one.
    pub open spec fn wf(self) -> bool
        decreases self,
    {
        &&& is_kind(self._lb, TokenKind::LeftBrace)
        &&& match self.fields {
            Some(fields) => fields.spec_len() > 0 && fields_wf(*fields),
            None => true,
        }
        &&& is_kind(self._rb, TokenKind::RightBrace)
    }
}

impl<'src> ObjField<'src> {
    pub open spec fn wf(self) -> bool
        decreases self,
    {
        self.name.wf() && is_kind(self._eq, TokenKind::Eq) && self.value.wf() && grouped_whole(
            self.value,
        )
    }
}

impl<'src> Extern<'src> {
    pub open spec fn wf(self) -> bool
        decreases self,
    {
        is_kind(self._extern, TokenKind::Extern) && self.value.wf() && grouped_whole(*self.value)
    }
}

impl<'src> Call<'src> {
    pub open spec fn wf(self) -> bool
        decreases self,
    {
        &&& self.callee.wf()
        &&& is_kind(self._lp, TokenKind::LeftParen)
        &&& exprs_wf(*self.args)
        &&& is_kind(self._rp, TokenKind::RightParen)
    }
}

impl<'src> IndexAcc<'src> {
    pub open spec fn wf(self) -> bool
        decreases self,
    {
        &&& self.list.wf()
        &&& is_kind(self._lb, TokenKind::LeftBracket)
        &&& self.index.wf()
        &&& grouped_whole(*self.index)
        &&& is_kind(self._rb, TokenKind::RightBracket)
    }
}

impl<'src> FieldAcc<'src> {
    pub open spec fn wf(self) -> bool
        decreases self,
    {
        self.object.wf() && is_kind(self._dot, TokenKind::Dot) && self.field.wf()
    }
}

impl<'src> Stmt<'src> {
    pub open spec fn wf(self) -> bool
        decreases self,
    {
        match self {
            Stmt::VarDefine(d) => d.wf(),
            Stmt::VarAssign(a) => a.wf(),
            Stmt::DoBlock(b) => b.wf(),
            Stmt::Return(r) => r.wf(),
            Stmt::Call(c) => c.wf(),
            Stmt::WhileLoop(w) => w.wf(),
            Stmt::Break(b) => b.wf(),
            Stmt::Continue(c) => c.wf(),
            Stmt::If(i) => i.wf(),
            Stmt::ExprAssign(a) => a.wf(),
            Stmt::ClassDef(c) => c.wf(),
        }
    }
}

impl<'src> VarDefine<'src> {
    pub open spec fn wf(self) -> bool
        decreases self,
    {
        match self {
            VarDefine::WithValue { _def, name, _eq, value } => is_kind(_def, TokenKind::Def)
                && name.wf() && is_kind(_eq, TokenKind::Eq) && value.wf() && grouped_whole(value),
            VarDefine::NoValue { _def, name } => is_kind(_def, TokenKind::Def) && name.wf(),
        }
    }
}

impl<'src> VarAssign<'src> {
    pub open spec fn wf(self) -> bool
        decreases self,
    {
        self.name.wf() && is_kind(self._eq, TokenKind::Eq) && self.value.wf() && grouped_whole(
            self.value,
        )
    }
}

impl<'src> DoBlock<'src> {
    pub open spec fn wf(self) -> bool
        decreases self,
    {
        is_kind(self._do, TokenKind::Do) && stmts_wf(self.stmts@) && is_kind(
            self._end,
            TokenKind::End,
        )
    }
}

impl<'src> Return<'src> {
    pub open spec fn wf(self) -> bool
        decreases self,
    {
        is_kind(self._return, TokenKind::Return) && self.value.wf() && grouped_whole(self.value)
    }
}

impl<'src> WhileLoop<'src> {
    pub open spec fn wf(self) -> bool
        decreases self,
    {
        is_kind(self._while, TokenKind::While) && self.cond.wf() && grouped_whole(self.cond)
            && self.block.wf()
    }
}

impl<'src> If<'src> {
    pub open spec fn wf(self) -> bool
        decreases self,
    {
        &&& is_kind(self._if, TokenKind::If)
        &&& self.cond.wf()
        &&& grouped_whole(self.cond)
        &&& is_kind(self._then, TokenKind::Then)
        &&& stmts_wf(self.stmts@)
        &&& elifs_wf(self.b_elifs@)
        &&& match self.b_else {
            Some(e) => e.wf(),
            None => true,
        }
        &&& is_kind(self._end, TokenKind::End)
    }
}

impl<'src> ElseIf<'src> {
    pub open spec fn wf(self) -> bool
        decreases self,
    {
        &&& is_kind(self._elseif, TokenKind::ElseIf)
        &&& self.cond.wf()
        &&& grouped_whole(self.cond)
        &&& is_kind(self._then, TokenKind::Then)
        &&& stmts_wf(self.stmts@)
    }
}

impl<'src> Else<'src> {
    pub open spec fn wf(self) -> bool
        decreases self,
    {
        is_kind(self._else, TokenKind::Else) && stmts_wf(self.stmts@)
    }
}

impl<'src> ExprAssign<'src> {
    pub open spec fn wf(self) -> bool
        decreases self,
    {
        match self {
            ExprAssign::IndexAssign(a) => a.wf(),
            ExprAssign::FieldAssign(a) => a.wf(),
        }
    }
}

impl<'src> IndexAssign<'src> {
    pub open spec fn wf(self) -> bool
        decreases self,
    {
        self.acc.wf() && is_kind(self._eq, TokenKind::Eq) && self.value.wf() && grouped_whole(
            self.value,
        )
    }
}

impl<'src> FieldAssign<'src> {
    pub open spec fn wf(self) -> bool
        decreases self,
    {
        self.acc.wf() && is_kind(self._eq, TokenKind::Eq) && self.value.wf() && grouped_whole(
            self.value,
        )
    }
}

impl<'src> ClassDef<'src> {
    pub open spec fn wf(self) -> bool
        decreases self,
    {
        &&& is_kind(self._class, TokenKind::Class)
        &&& self.name.wf()
        &&& defines_wf(self.fields@)
        &&& is_kind(self._end, TokenKind::End)
    }
}

impl<'src> Program<'src> {
    pub open spec fn wf(self) -> bool {
        stmts_wf(self.stmts@)
    }
}

// ---------------------------------------------------------------------------------------
// Every expression, term and statement is read from at least one token.

/// An expression holds at least one token.
pub proof fn lemma_expr_nonempty<'src>(e: Expr<'src>)
    ensures
        e.spec_tokens().len() > 0,
    decreases e,
{
    match e {
        Expr::Term(t) => lemma_term_nonempty(t),
        _ => {},
    }
}

/// A term holds at least one token.
pub proof fn lemma_term_nonempty<'src>(t: Term<'src>)
    ensures
        t.spec_tokens().len() > 0,
    decreases t,
{
    match t {
        Term::Expr(e) => lemma_expr_nonempty(*e),
        _ => {},
    }
}

/// A statement holds at least one token.
pub proof fn lemma_stmt_nonempty<'src>(s: Stmt<'src>)
    ensures
        s.spec_tokens().len() > 0,
{
    if let Stmt::ExprAssign(ExprAssign::IndexAssign(a)) = s {
        assert(a.acc.spec_tokens().len() > 0);
    }
}

/// A list of identifiers with at least one item holds at least one token.
pub proof fn lemma_ident_list_nonempty<'src>(l: Punctuated<Ident<'src>, Token<'src>>)
    requires
        l.spec_len() > 0,
    ensures
        idents_tokens(l).len() > 0,
{
    if l.spec_pairs().len() > 0 {
        assert(ident_pairs_tokens(l.spec_pairs()).len() > 0);
    }
}

impl<'src> FuncArgs<'src> {
    /// Whether there is no argument at all, `self` included.
    pub fn is_empty(&self) -> (empty: bool)
        ensures
            empty == (self matches FuncArgs::WithoutSelf { args } && args.spec_len() == 0),
    {
        match self {
            FuncArgs::WithSelf { .. } => false,
            FuncArgs::WithoutSelf { args } => args.is_empty(),
        }
    }

    /// The arguments as identifiers: `self` first, where it is there, then the others in
    /// order.
    pub fn items(&self) -> (items: Vec<Ident<'src>>)
        ensures
            items@ == match *self {
                FuncArgs::WithSelf { _self, args } => seq![_self.spec_ident()] + match args {
                    Some((_, list)) => list.spec_items(),
                    None => Seq::empty(),
                },
                FuncArgs::WithoutSelf { args } => args.spec_items(),
            },
    {
        let mut items: Vec<Ident<'src>> = Vec::new();
        let ghost prefix = items@;
        let list = match self {
            FuncArgs::WithSelf { _self, args } => {
                items.push(_self.ident());
                match args {
                    Some((_, list)) => list,
                    None => {
                        proof {
                            assert(items@ =~= seq![_self.spec_ident()] + Seq::<Ident<'src>>::empty());
                        }
                        return items;
                    },
                }
            },
            FuncArgs::WithoutSelf { args } => args,
        };
        let ghost base = items@;
        let refs = list.items();
        let n = refs.len();
        for k in 0..n
            invariant
                n == refs@.len(),
                refs@.len() == list.spec_items().len(),
                forall|i: int| 0 <= i < refs@.len() ==> *refs@[i] == list.spec_items()[i],
                items@ == base + list.spec_items().subrange(0, k as int),
        {
            items.push(*refs[k]);
            proof {
                assert(list.spec_items().subrange(0, k + 1) =~= list.spec_items().subrange(0, k as int).push(list.spec_items()[k as int]));
            }
        }
        proof {
            assert(list.spec_items().subrange(0, n as int) =~= list.spec_items());
        }
        items
    }
}

} // verus!
