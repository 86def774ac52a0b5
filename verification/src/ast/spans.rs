//! The span of each node: from the start of its first token to the end of its last.

use vstd::prelude::*;
use crate::ast::nodes::{
    BinaryExpr, BinaryOp, Break, Call, ClassDef, Continue, DoBlock, Else, ElseIf, Expr,
    ExprAssign, Extern, FieldAcc, FieldAssign, Func, FuncArgs, Ident, If, IndexAcc, IndexAssign,
    List, Lit, Obj, ObjField, ParenExpr, Program, Return, SelfKw, Stmt, Term, UnaryExpr, UnaryOp,
    VarAssign, VarDefine, WhileLoop, idents_tokens, lemma_expr_nonempty, lemma_stmt_nonempty,
    lemma_term_nonempty, stmts_tokens,
};
use crate::lexer::{
    Token, coherent, covering, lemma_cover_bounds, lemma_cover_one, lemma_cover_parts,
    lemma_spec_new,
};
use crate::punctuated::Punctuated;
use crate::span::{Position, Span, join, join_spans};
use vstd::string::StringSliceAdditionalSpecFns;

verus! {

broadcast use lemma_spec_new;

/// A node of the syntax tree, read from tokens.
pub trait ASTNode<'src> {
    /// The tokens the node was read from, in order.
    spec fn node_tokens(&self) -> Seq<Token<'src>>;

    /// The node's span can be computed.
    spec fn has_span(&self) -> bool;

    /// The node's span.
    spec fn node_span(&self) -> Span<'src>;

    /// A span that can be computed can be cut out of its source.
    proof fn lemma_span_valid(&self)
        requires
            self.has_span(),
        ensures
            self.node_span().valid(),
    ;

    /// The node's span.
    fn span(&self) -> (s: Span<'src>)
        requires
            self.has_span(),
        ensures
            s == self.node_span(),
    ;

    /// The source the node was read from.
    fn source(&self) -> (s: &'src str)
        requires
            self.has_span(),
        ensures
            s == self.node_span().spec_source(),
    {
        self.span().source()
    }

    /// The name of the file the node was read from.
    fn file(&self) -> (f: &'src str)
        requires
            self.has_span(),
        ensures
            f == self.node_span().spec_file(),
    {
        self.span().file()
    }

    /// Where the node lies in its source.
    fn position(&self) -> (p: Position)
        requires
            self.has_span(),
        ensures
            p == self.node_span().spec_position(),
    {
        self.span().position()
    }

    /// The byte offset where the node starts.
    fn start(&self) -> (n: usize)
        requires
            self.has_span(),
        ensures
            n == self.node_span().spec_position().spec_start(),
    {
        self.position().start()
    }

    /// The byte offset where the node ends.
    fn end(&self) -> (n: usize)
        requires
            self.has_span(),
        ensures
            n == self.node_span().spec_position().spec_end(),
    {
        self.position().end()
    }

    /// The source text of the node.
    fn value(&self) -> (v: &'src str)
        requires
            self.has_span(),
        ensures
            v@ == self.node_span().spec_text(),
    {
        proof {
            self.lemma_span_valid();
        }
        self.span().value()
    }

    /// The source text of the node, as a string of its own.
    fn value_owned(&self) -> (v: String)
        requires
            self.has_span(),
        ensures
            v@ == self.node_span().spec_text(),
    {
        self.value().to_owned()
    }
}

impl<'src> ASTNode<'src> for Token<'src> {
    open spec fn node_tokens(&self) -> Seq<Token<'src>> {
        seq![*self]
    }

    open spec fn has_span(&self) -> bool {
        coherent(self.node_tokens())
    }

    open spec fn node_span(&self) -> Span<'src> {
        covering(self.node_tokens())
    }

    proof fn lemma_span_valid(&self) {
        lemma_cover_bounds(self.node_tokens());
    }

    fn span(&self) -> (s: Span<'src>) {
        proof {
            lemma_cover_one(*self);
        }
        Token::span(self)
    }
}


/// The statements' tokens, for statements one after the other, are the tokens of the first
/// ones followed by those of the last ones.
pub proof fn lemma_stmts_tokens_concat<'src>(a: Seq<Stmt<'src>>, b: Seq<Stmt<'src>>)
    ensures
        stmts_tokens(a + b) == stmts_tokens(a) + stmts_tokens(b),
    decreases b.len(),
{
    if b.len() == 0 {
        assert(a + b =~= a);
        assert(stmts_tokens(a) + stmts_tokens(b) =~= stmts_tokens(a));
    } else {
        lemma_stmts_tokens_concat(a, b.drop_last());
        assert((a + b).drop_last() =~= a + b.drop_last());
        assert((a + b).last() == b.last());
        assert(stmts_tokens(a + b) =~= stmts_tokens(a) + stmts_tokens(b));
    }
}

/// The tokens of a (identifier, comma) list: two per pair, the identifier's then the
/// comma.
pub proof fn lemma_ident_pairs_tokens<'src>(pairs: Seq<(Ident<'src>, Token<'src>)>)
    ensures
        crate::ast::nodes::ident_pairs_tokens(pairs).len() == 2 * pairs.len(),
        forall|i: int|
            0 <= i < pairs.len() ==> crate::ast::nodes::ident_pairs_tokens(pairs)[2 * i]
                == (#[trigger] pairs[i]).0.spec_token() && crate::ast::nodes::ident_pairs_tokens(
                pairs,
            )[2 * i + 1] == pairs[i].1,
    decreases pairs.len(),
{
    if pairs.len() > 0 {
        let prefix = pairs.drop_last();
        lemma_ident_pairs_tokens(prefix);
        let t = crate::ast::nodes::ident_pairs_tokens(pairs);
        let p = crate::ast::nodes::ident_pairs_tokens(prefix);
        assert(t == p + pairs.last().0.spec_tokens() + seq![pairs.last().1]);
        assert forall|i: int| 0 <= i < pairs.len() implies t[2 * i] == (#[trigger] pairs[i]).0.spec_token()
            && t[2 * i + 1] == pairs[i].1 by {
            if i < pairs.len() - 1 {
                assert(prefix[i] == pairs[i]);
            }
        }
    }
}


impl<'src> IndexAssign<'src> {
    /// From the start of the target to the end of the value; what was dropped after the
    /// assignment does not count.
    pub open spec fn spec_span(self) -> Span<'src> {
        covering(self.own_tokens())
    }
}

impl<'src> ExprAssign<'src> {
    /// The span of the assignment, whichever kind it is.
    pub open spec fn spec_span(self) -> Span<'src> {
        match self {
            ExprAssign::IndexAssign(a) => a.spec_span(),
            ExprAssign::FieldAssign(a) => covering(a.spec_tokens()),
        }
    }
}

impl<'src> Stmt<'src> {
    /// The span of the statement: that of its tokens, but for an assignment to an element,
    /// where what was dropped after it does not count.
    pub open spec fn spec_span(self) -> Span<'src> {
        match self {
            Stmt::ExprAssign(a) => a.spec_span(),
            _ => covering(self.spec_tokens()),
        }
    }
}

impl<'src> ElseIf<'src> {
    /// From `elseif` to the end of the last statement, or of `then` where there is none.
    pub open spec fn spec_span(self) -> Span<'src> {
        if self.stmts@.len() > 0 {
            join_spans(self._elseif.spec_span(), self.stmts@.last().spec_span())
        } else {
            join_spans(self._elseif.spec_span(), self._then.spec_span())
        }
    }
}

impl<'src> Else<'src> {
    /// From `else` to the end of the last statement, or of `else` where there is none.
    pub open spec fn spec_span(self) -> Span<'src> {
        if self.stmts@.len() > 0 {
            join_spans(self._else.spec_span(), self.stmts@.last().spec_span())
        } else {
            join_spans(self._else.spec_span(), self._else.spec_span())
        }
    }
}

impl<'src> Program<'src> {
    /// From the start of the first statement to the end of the last.
    pub open spec fn spec_span(self) -> Span<'src> {
        join_spans(self.stmts@[0].spec_span(), self.stmts@.last().spec_span())
    }
}

/// A statement's span is the covering span of its first `k` tokens, for some `k` that is
/// not 0.
pub proof fn lemma_stmt_span_prefix<'src>(s: Stmt<'src>) -> (k: int)
    ensures
        0 < k <= s.spec_tokens().len(),
        s.spec_span() == covering(s.spec_tokens().subrange(0, k)),
{
    lemma_stmt_nonempty(s);
    match s {
        Stmt::ExprAssign(ExprAssign::IndexAssign(a)) => {
            lemma_term_nonempty(*a.acc.list);
            assert(s.spec_tokens().subrange(0, a.own_tokens().len() as int) =~= a.own_tokens());
            a.own_tokens().len() as int
        },
        _ => {
            assert(s.spec_tokens().subrange(0, s.spec_tokens().len() as int) =~= s.spec_tokens());
            s.spec_tokens().len() as int
        },
    }
}

/// A list of identifiers that is not empty, read in order from one source, gives the
/// span from its first token to its last.
pub proof fn lemma_ident_list_span<'src>(l: Punctuated<Ident<'src>, Token<'src>>)
    requires
        l.spec_len() > 0,
        coherent(idents_tokens(l)),
    ensures
        l.has_span(),
        l.node_span() == covering(idents_tokens(l)),
{
    let t = idents_tokens(l);
    let pairs = l.spec_pairs();
    let n = t.len() as int;
    lemma_ident_pairs_tokens(pairs);
    let first = l.spec_items()[0];
    if pairs.len() > 0 {
        assert(pairs[0].0 == first);
        assert(t[0] == first.spec_token());
    } else {
        assert(t =~= first.spec_tokens());
    }
    match l.spec_tail() {
        Some(tl) => {
            assert(t.last() == tl.spec_token());
            lemma_cover_one(tl.spec_token());
        },
        None => {
            assert(pairs[pairs.len() - 1] == pairs.last());
            assert(t.last() == pairs.last().1);
        },
    }
    assert(t.subrange(0, 1) =~= seq![t[0]]);
    assert(t.subrange(n - 1, n) =~= seq![t[n - 1]]);
    crate::lexer::lemma_join_runs(t, 0, 1, n - 1, n);
    lemma_cover_one(t[0]);
    lemma_cover_one(t[n - 1]);
    assert(t.subrange(0, n) =~= t);
}

impl<'src> FuncArgs<'src> {
    /// From `self`, or from the first argument where there is no `self`, to the last
    /// argument; a comma after `self` followed by no argument does not count.
    pub open spec fn spec_span(self) -> Span<'src> {
        match self {
            FuncArgs::WithSelf { _self, args } => match args {
                Some((_, list)) => if list.spec_len() > 0 {
                    join_spans(covering(_self.spec_tokens()), list.node_span())
                } else {
                    covering(_self.spec_tokens())
                },
                None => covering(_self.spec_tokens()),
            },
            FuncArgs::WithoutSelf { args } => args.node_span(),
        }
    }

    /// The arguments can give their span: they are read in order from one source, and there
    /// is at least one.
    pub open spec fn spannable(self) -> bool {
        &&& coherent(self.spec_tokens())
        &&& self matches FuncArgs::WithoutSelf { args } ==> args.spec_len() > 0
    }

    /// From `self`, or from the first argument where there is no `self`, to the last
    /// argument.
    pub fn span(&self) -> (s: Span<'src>)
        requires
            self.spannable(),
        ensures
            s == self.spec_span(),
    {
        match self {
            FuncArgs::WithSelf { _self, args } => {
                let first = _self.span();
                proof {
                    lemma_cover_one(_self.spec_ident().spec_token());
                    assert(self.spec_tokens()[0] == _self.spec_ident().spec_token());
                    assert(self.spec_tokens()[0].spec_span().valid());
                }
                match args {
                    Some((_comma, list)) => {
                        if !list.is_empty() {
                            proof {
                                let rest = idents_tokens(*list);
                                assert(self.spec_tokens() =~= _self.spec_tokens() + seq![*_comma] + rest);
                                crate::ast::nodes::lemma_ident_list_nonempty(*list);
                                lemma_cover_parts(_self.spec_tokens(), seq![*_comma], rest);
                                lemma_ident_list_span(*list);
                            }
                            join(first, list.span())
                        } else {
                            proof {
                                crate::span::lemma_span_rebuild(first);
                            }
                            join(first, first)
                        }
                    },
                    None => {
                        proof {
                            crate::span::lemma_span_rebuild(first);
                        }
                        join(first, first)
                    },
                }
            },
            FuncArgs::WithoutSelf { args } => {
                proof {
                    crate::ast::nodes::lemma_ident_list_nonempty(*args);
                    lemma_ident_list_span(*args);
                }
                args.span()
            },
        }
    }
}

impl<'src> ASTNode<'src> for FuncArgs<'src> {
    open spec fn node_tokens(&self) -> Seq<Token<'src>> {
        self.spec_tokens()
    }

    open spec fn has_span(&self) -> bool {
        self.spannable()
    }

    open spec fn node_span(&self) -> Span<'src> {
        self.spec_span()
    }

    proof fn lemma_span_valid(&self) {
        let t = self.spec_tokens();
        match self {
            FuncArgs::WithSelf { _self, args } => {
                assert(t[0] == _self.spec_ident().spec_token());
                assert(t.subrange(0, 1) =~= _self.spec_tokens());
                lemma_cover_bounds(t.subrange(0, 1));
                crate::lexer::lemma_coherent_subrange(t, 0, 1);
                if let Some((c, list)) = args {
                    if list.spec_len() > 0 {
                        let rest = idents_tokens(*list);
                        assert(t =~= _self.spec_tokens() + seq![*c] + rest);
                        crate::ast::nodes::lemma_ident_list_nonempty(*list);
                        lemma_cover_parts(_self.spec_tokens(), seq![*c], rest);
                        lemma_ident_list_span(*list);
                        lemma_cover_bounds(t);
                    }
                }
            },
            FuncArgs::WithoutSelf { args } => {
                crate::ast::nodes::lemma_ident_list_nonempty(*args);
                lemma_ident_list_span(*args);
                lemma_cover_bounds(t);
            },
        }
    }

    fn span(&self) -> (s: Span<'src>) {
        FuncArgs::span(self)
    }
}

impl<'src> Ident<'src> {
    /// The span of the identifier's token.
    pub fn span(&self) -> (s: Span<'src>)
        ensures
            s == covering(self.spec_tokens()),
    {
        proof {
            lemma_cover_one(self.spec_token());
        }
        self.token().span()
    }
}

impl<'src> SelfKw<'src> {
    /// The span of the keyword's token.
    pub fn span(&self) -> (s: Span<'src>)
        ensures
            s == covering(self.spec_tokens()),
    {
        self.ident().span()
    }
}

impl<'src> Break<'src> {
    /// The span of the keyword's token.
    pub fn span(&self) -> (s: Span<'src>)
        ensures
            s == covering(self.spec_tokens()),
    {
        proof {
            lemma_cover_one(self.spec_token());
        }
        self.token().span()
    }
}

impl<'src> Continue<'src> {
    /// The span of the keyword's token.
    pub fn span(&self) -> (s: Span<'src>)
        ensures
            s == covering(self.spec_tokens()),
    {
        proof {
            lemma_cover_one(self.spec_token());
        }
        self.token().span()
    }
}

impl<'src> Lit<'src> {
    /// The span of the literal's token.
    pub fn span(&self) -> (s: Span<'src>)
        ensures
            s == covering(self.spec_tokens()),
    {
        proof {
            lemma_cover_one(self.spec_token());
        }
        self.span
    }
}

impl<'src> BinaryOp<'src> {
    /// The span of the operator's token.
    pub fn span(&self) -> (s: Span<'src>)
        ensures
            s == covering(self.spec_tokens()),
    {
        proof {
            lemma_cover_one(self.spec_token());
        }
        self.span
    }
}

impl<'src> UnaryOp<'src> {
    /// The span of the operator's token.
    pub fn span(&self) -> (s: Span<'src>)
        ensures
            s == covering(self.spec_tokens()),
    {
        proof {
            lemma_cover_one(self.spec_token());
        }
        self.span
    }
}

impl<'src> BinaryExpr<'src> {
    /// From the start of the left operand to the end of the right one.
    pub fn span(&self) -> (s: Span<'src>)
        requires
            coherent(self.spec_tokens()),
        ensures
            s == covering(self.spec_tokens()),
        decreases self,
    {
        proof {
            lemma_term_nonempty(self.lhs);
            lemma_term_nonempty(self.rhs);
            lemma_cover_parts(self.lhs.spec_tokens(), self.op.spec_tokens(), self.rhs.spec_tokens());
        }
        join(self.lhs.span(), self.rhs.span())
    }
}

impl<'src> UnaryExpr<'src> {
    /// From the operator to the end of the operand.
    pub fn span(&self) -> (s: Span<'src>)
        requires
            coherent(self.spec_tokens()),
        ensures
            s == covering(self.spec_tokens()),
        decreases self,
    {
        proof {
            lemma_term_nonempty(self.operand);
            lemma_cover_parts(self.op.spec_tokens(), Seq::empty(), self.operand.spec_tokens());
            assert(self.op.spec_tokens() + Seq::empty() + self.operand.spec_tokens()
                =~= self.spec_tokens());
        }
        join(self.op.span(), self.operand.span())
    }
}

impl<'src> Expr<'src> {
    /// The span of the expression, whichever kind it is.
    pub fn span(&self) -> (s: Span<'src>)
        requires
            coherent(self.spec_tokens()),
        ensures
            s == covering(self.spec_tokens()),
        decreases self,
    {
        match self {
            Expr::Binary(e) => e.span(),
            Expr::Unary(e) => e.span(),
            Expr::Term(e) => e.span(),
        }
    }
}

impl<'src> ParenExpr<'src> {
    /// From the opening parenthesis to the closing one.
    pub fn span(&self) -> (s: Span<'src>)
        requires
            coherent(self.spec_tokens()),
        ensures
            s == covering(self.spec_tokens()),
        decreases self,
    {
        proof {
            lemma_cover_parts(seq![self._lp], self.expr.spec_tokens(), seq![self._rp]);
            lemma_cover_one(self._lp);
            lemma_cover_one(self._rp);
        }
        join(self._lp.span(), self._rp.span())
    }
}

impl<'src> Term<'src> {
    /// The span of the term, whichever kind it is.
    pub fn span(&self) -> (s: Span<'src>)
        requires
            coherent(self.spec_tokens()),
        ensures
            s == covering(self.spec_tokens()),
        decreases self,
    {
        match self {
            Term::Expr(t) => t.span(),
            Term::ParenExpr(t) => t.span(),
            Term::Lit(t) => t.span(),
            Term::Ident(t) => t.span(),
            Term::Func(t) => t.span(),
            Term::List(t) => t.span(),
            Term::Obj(t) => t.span(),
            Term::Extern(t) => t.span(),
            Term::Call(t) => t.span(),
            Term::IndexAcc(t) => t.span(),
            Term::FieldAcc(t) => t.span(),
        }
    }
}

impl<'src> Func<'src> {
    /// From `func` to the end of the body.
    pub fn span(&self) -> (s: Span<'src>)
        requires
            coherent(self.spec_tokens()),
        ensures
            s == covering(self.spec_tokens()),
        decreases self,
    {
        proof {
            let mid = seq![self._lp] + self.args.spec_tokens() + seq![self._rp];
            assert(seq![self._func] + mid + self.block.spec_tokens() =~= self.spec_tokens());
            lemma_cover_parts(seq![self._func], mid, self.block.spec_tokens());
            lemma_cover_one(self._func);
        }
        join(self._func.span(), self.block.span())
    }
}

impl<'src> List<'src> {
    /// From the opening bracket to the closing one.
    pub fn span(&self) -> (s: Span<'src>)
        requires
            coherent(self.spec_tokens()),
        ensures
            s == covering(self.spec_tokens()),
    {
        proof {
            let mid = match &self.items {
                Some(items) => crate::ast::nodes::exprs_tokens(**items),
                None => Seq::empty(),
            };
            lemma_cover_parts(seq![self._lb], mid, seq![self._rb]);
            lemma_cover_one(self._lb);
            lemma_cover_one(self._rb);
        }
        join(self._lb.span(), self._rb.span())
    }
}

impl<'src> Obj<'src> {
    /// From the opening brace to the closing one.
    pub fn span(&self) -> (s: Span<'src>)
        requires
            coherent(self.spec_tokens()),
        ensures
            s == covering(self.spec_tokens()),
    {
        proof {
            let mid = match &self.fields {
                Some(fields) => crate::ast::nodes::fields_tokens(**fields),
                None => Seq::empty(),
            };
            lemma_cover_parts(seq![self._lb], mid, seq![self._rb]);
            lemma_cover_one(self._lb);
            lemma_cover_one(self._rb);
        }
        join(self._lb.span(), self._rb.span())
    }
}

impl<'src> ObjField<'src> {
    /// From the field's name to the end of its value.
    pub fn span(&self) -> (s: Span<'src>)
        requires
            coherent(self.spec_tokens()),
        ensures
            s == covering(self.spec_tokens()),
        decreases self,
    {
        proof {
            lemma_expr_nonempty(self.value);
            lemma_cover_parts(self.name.spec_tokens(), seq![self._eq], self.value.spec_tokens());
        }
        join(self.name.span(), self.value.span())
    }
}

impl<'src> Extern<'src> {
    /// From `extern` to the end of its value.
    pub fn span(&self) -> (s: Span<'src>)
        requires
            coherent(self.spec_tokens()),
        ensures
            s == covering(self.spec_tokens()),
        decreases self,
    {
        proof {
            lemma_expr_nonempty(*self.value);
            assert(seq![self._extern] + Seq::empty() + self.value.spec_tokens() =~= self.spec_tokens());
            lemma_cover_parts(seq![self._extern], Seq::empty(), self.value.spec_tokens());
            lemma_cover_one(self._extern);
        }
        join(self._extern.span(), self.value.span())
    }
}

impl<'src> Call<'src> {
    /// From the start of the callee to the closing parenthesis.
    pub fn span(&self) -> (s: Span<'src>)
        requires
            coherent(self.spec_tokens()),
        ensures
            s == covering(self.spec_tokens()),
        decreases self,
    {
        proof {
            lemma_term_nonempty(*self.callee);
            let mid = seq![self._lp] + crate::ast::nodes::exprs_tokens(*self.args);
            assert(self.callee.spec_tokens() + mid + seq![self._rp] =~= self.spec_tokens());
            lemma_cover_parts(self.callee.spec_tokens(), mid, seq![self._rp]);
            lemma_cover_one(self._rp);
        }
        join(self.callee.span(), self._rp.span())
    }
}

impl<'src> IndexAcc<'src> {
    /// From the start of the indexed term to the closing bracket.
    pub fn span(&self) -> (s: Span<'src>)
        requires
            coherent(self.spec_tokens()),
        ensures
            s == covering(self.spec_tokens()),
        decreases self,
    {
        proof {
            lemma_term_nonempty(*self.list);
            let mid = seq![self._lb] + self.index.spec_tokens();
            assert(self.list.spec_tokens() + mid + seq![self._rb] =~= self.spec_tokens());
            lemma_cover_parts(self.list.spec_tokens(), mid, seq![self._rb]);
            lemma_cover_one(self._rb);
        }
        join(self.list.span(), self._rb.span())
    }
}

impl<'src> FieldAcc<'src> {
    /// From the start of the object to the end of the field's name.
    pub fn span(&self) -> (s: Span<'src>)
        requires
            coherent(self.spec_tokens()),
        ensures
            s == covering(self.spec_tokens()),
        decreases self,
    {
        proof {
            lemma_term_nonempty(*self.object);
            lemma_cover_parts(self.object.spec_tokens(), seq![self._dot], self.field.spec_tokens());
        }
        join(self.object.span(), self.field.span())
    }
}

impl<'src> Stmt<'src> {
    /// The span of the statement, whichever kind it is.
    pub fn span(&self) -> (s: Span<'src>)
        requires
            coherent(self.spec_tokens()),
        ensures
            s == self.spec_span(),
        decreases self,
    {
        match self {
            Stmt::VarDefine(s) => s.span(),
            Stmt::VarAssign(s) => s.span(),
            Stmt::DoBlock(s) => s.span(),
            Stmt::Return(s) => s.span(),
            Stmt::Call(s) => s.span(),
            Stmt::WhileLoop(s) => s.span(),
            Stmt::Break(s) => s.span(),
            Stmt::Continue(s) => s.span(),
            Stmt::If(s) => s.span(),
            Stmt::ExprAssign(s) => s.span(),
            Stmt::ClassDef(s) => s.span(),
        }
    }
}

impl<'src> VarDefine<'src> {
    /// From `def` to the end of the value, or of the name where there is no value.
    pub fn span(&self) -> (s: Span<'src>)
        requires
            coherent(self.spec_tokens()),
        ensures
            s == covering(self.spec_tokens()),
        decreases self,
    {
        match self {
            VarDefine::WithValue { _def, name, _eq, value } => {
                proof {
                    lemma_expr_nonempty(*value);
                    let mid = name.spec_tokens() + seq![*_eq];
                    assert(seq![*_def] + mid + value.spec_tokens() =~= self.spec_tokens());
                    lemma_cover_parts(seq![*_def], mid, value.spec_tokens());
                    lemma_cover_one(*_def);
                }
                join(_def.span(), value.span())
            },
            VarDefine::NoValue { _def, name } => {
                proof {
                    assert(seq![*_def] + Seq::empty() + name.spec_tokens() =~= self.spec_tokens());
                    lemma_cover_parts(seq![*_def], Seq::empty(), name.spec_tokens());
                    lemma_cover_one(*_def);
                }
                join(_def.span(), name.span())
            },
        }
    }
}

impl<'src> VarAssign<'src> {
    /// From the name to the end of the value.
    pub fn span(&self) -> (s: Span<'src>)
        requires
            coherent(self.spec_tokens()),
        ensures
            s == covering(self.spec_tokens()),
        decreases self,
    {
        proof {
            lemma_expr_nonempty(self.value);
            lemma_cover_parts(self.name.spec_tokens(), seq![self._eq], self.value.spec_tokens());
        }
        join(self.name.span(), self.value.span())
    }
}

impl<'src> DoBlock<'src> {
    /// From `do` to `end`.
    pub fn span(&self) -> (s: Span<'src>)
        requires
            coherent(self.spec_tokens()),
        ensures
            s == covering(self.spec_tokens()),
    {
        proof {
            lemma_cover_parts(seq![self._do], stmts_tokens(self.stmts@), seq![self._end]);
            lemma_cover_one(self._do);
            lemma_cover_one(self._end);
        }
        join(self._do.span(), self._end.span())
    }
}

impl<'src> Return<'src> {
    /// From `return` to the end of the value.
    pub fn span(&self) -> (s: Span<'src>)
        requires
            coherent(self.spec_tokens()),
        ensures
            s == covering(self.spec_tokens()),
        decreases self,
    {
        proof {
            lemma_expr_nonempty(self.value);
            assert(seq![self._return] + Seq::empty() + self.value.spec_tokens() =~= self.spec_tokens());
            lemma_cover_parts(seq![self._return], Seq::empty(), self.value.spec_tokens());
            lemma_cover_one(self._return);
        }
        join(self._return.span(), self.value.span())
    }
}

impl<'src> WhileLoop<'src> {
    /// From `while` to the end of the body.
    pub fn span(&self) -> (s: Span<'src>)
        requires
            coherent(self.spec_tokens()),
        ensures
            s == covering(self.spec_tokens()),
        decreases self,
    {
        proof {
            lemma_cover_parts(seq![self._while], self.cond.spec_tokens(), self.block.spec_tokens());
            lemma_cover_one(self._while);
        }
        join(self._while.span(), self.block.span())
    }
}

impl<'src> If<'src> {
    /// From `if` to `end`.
    pub fn span(&self) -> (s: Span<'src>)
        requires
            coherent(self.spec_tokens()),
        ensures
            s == covering(self.spec_tokens()),
    {
        proof {
            let mid = self.cond.spec_tokens() + seq![self._then] + stmts_tokens(self.stmts@)
                + crate::ast::nodes::elifs_tokens(self.b_elifs@) + match &self.b_else {
                Some(e) => e.spec_tokens(),
                None => Seq::empty(),
            };
            assert(seq![self._if] + mid + seq![self._end] =~= self.spec_tokens());
            lemma_cover_parts(seq![self._if], mid, seq![self._end]);
            lemma_cover_one(self._if);
            lemma_cover_one(self._end);
        }
        join(self._if.span(), self._end.span())
    }
}

impl<'src> ElseIf<'src> {
    /// From `elseif` to the end of its last statement, or to `then` where there is none.
    pub fn span(&self) -> (s: Span<'src>)
        requires
            coherent(self.spec_tokens()),
        ensures
            s == self.spec_span(),
        decreases self,
    {
        let n = self.stmts.len();
        let ghost t = self.spec_tokens();
        proof {
            lemma_cover_one(self._elseif);
            assert(t.subrange(0, 1) =~= seq![self._elseif]);
        }
        if n > 0 {
            proof {
                let ss = self.stmts@;
                let last = ss.last();
                let k = lemma_stmt_span_prefix(last);
                let lt = last.spec_tokens();
                let pre = seq![self._elseif] + self.cond.spec_tokens() + seq![self._then]
                    + stmts_tokens(ss.drop_last());
                assert(t =~= pre + lt);
                assert(t.subrange(pre.len() as int, (pre.len() + lt.len()) as int) =~= lt);
                assert(t.subrange(pre.len() as int, pre.len() + k) =~= lt.subrange(0, k));
                crate::lexer::lemma_coherent_subrange(t, pre.len() as int, (pre.len() + lt.len()) as int);
                crate::lexer::lemma_join_runs(t, 0, 1, pre.len() as int, pre.len() + k);
            }
            join(self._elseif.span(), self.stmts[n - 1].span())
        } else {
            proof {
                assert(t =~= seq![self._elseif] + self.cond.spec_tokens() + seq![self._then]);
                lemma_cover_parts(seq![self._elseif], self.cond.spec_tokens(), seq![self._then]);
                lemma_cover_one(self._then);
            }
            join(self._elseif.span(), self._then.span())
        }
    }
}

impl<'src> Else<'src> {
    /// From `else` to the end of its last statement, or of `else` where there is none.
    pub fn span(&self) -> (s: Span<'src>)
        requires
            coherent(self.spec_tokens()),
        ensures
            s == self.spec_span(),
        decreases self,
    {
        let n = self.stmts.len();
        let ghost t = self.spec_tokens();
        proof {
            lemma_cover_one(self._else);
            assert(t.subrange(0, 1) =~= seq![self._else]);
        }
        if n > 0 {
            proof {
                let ss = self.stmts@;
                let last = ss.last();
                let k = lemma_stmt_span_prefix(last);
                let lt = last.spec_tokens();
                let pre = seq![self._else] + stmts_tokens(ss.drop_last());
                assert(t =~= pre + lt);
                assert(t.subrange(pre.len() as int, (pre.len() + lt.len()) as int) =~= lt);
                assert(t.subrange(pre.len() as int, pre.len() + k) =~= lt.subrange(0, k));
                crate::lexer::lemma_coherent_subrange(t, pre.len() as int, (pre.len() + lt.len()) as int);
                crate::lexer::lemma_join_runs(t, 0, 1, pre.len() as int, pre.len() + k);
            }
            join(self._else.span(), self.stmts[n - 1].span())
        } else {
            proof {
                assert(t[0] == self._else);
                assert(self._else.spec_span().valid());
            }
            join(self._else.span(), self._else.span())
        }
    }
}

impl<'src> ExprAssign<'src> {
    /// The span of the assignment, whichever kind it is.
    pub fn span(&self) -> (s: Span<'src>)
        requires
            coherent(self.spec_tokens()),
        ensures
            s == self.spec_span(),
        decreases self,
    {
        match self {
            ExprAssign::IndexAssign(a) => a.span(),
            ExprAssign::FieldAssign(a) => a.span(),
        }
    }
}

impl<'src> IndexAssign<'src> {
    /// From the start of the target to the end of the value.
    pub fn span(&self) -> (s: Span<'src>)
        requires
            coherent(self.spec_tokens()),
        ensures
            s == self.spec_span(),
        decreases self,
    {
        proof {
            lemma_expr_nonempty(self.value);
            lemma_term_nonempty(*self.acc.list);
            let own = self.own_tokens();
            assert(self.spec_tokens().subrange(0, own.len() as int) =~= own);
            crate::lexer::lemma_coherent_subrange(self.spec_tokens(), 0, own.len() as int);
            lemma_cover_parts(self.acc.spec_tokens(), seq![self._eq], self.value.spec_tokens());
        }
        join(self.acc.span(), self.value.span())
    }
}

impl<'src> FieldAssign<'src> {
    /// From the start of the target to the end of the value.
    pub fn span(&self) -> (s: Span<'src>)
        requires
            coherent(self.spec_tokens()),
        ensures
            s == covering(self.spec_tokens()),
        decreases self,
    {
        proof {
            lemma_expr_nonempty(self.value);
            lemma_term_nonempty(*self.acc.object);
            lemma_cover_parts(self.acc.spec_tokens(), seq![self._eq], self.value.spec_tokens());
        }
        join(self.acc.span(), self.value.span())
    }
}

impl<'src> ClassDef<'src> {
    /// From `class` to `end`.
    pub fn span(&self) -> (s: Span<'src>)
        requires
            coherent(self.spec_tokens()),
        ensures
            s == covering(self.spec_tokens()),
    {
        proof {
            let mid = self.name.spec_tokens() + crate::ast::nodes::defines_tokens(self.fields@);
            assert(seq![self._class] + mid + seq![self._end] =~= self.spec_tokens());
            lemma_cover_parts(seq![self._class], mid, seq![self._end]);
            lemma_cover_one(self._class);
            lemma_cover_one(self._end);
        }
        join(self._class.span(), self._end.span())
    }
}

impl<'src> Program<'src> {
    /// From the start of the first statement to the end of the last; the program may not be
    /// empty.
    pub fn span(&self) -> (s: Span<'src>)
        requires
            self.stmts@.len() > 0,
            coherent(self.spec_tokens()),
        ensures
            s == self.spec_span(),
    {
        let n = self.stmts.len();
        proof {
            lemma_program_span(*self);
        }
        join(self.stmts[0].span(), self.stmts[n - 1].span())
    }
}

/// The first and the last statement of a program that is not empty can give their spans,
/// and these can be joined into a span that can be cut out of the source.
proof fn lemma_program_span<'src>(p: Program<'src>)
    requires
        p.stmts@.len() > 0,
        coherent(p.spec_tokens()),
    ensures
        coherent(p.stmts@[0].spec_tokens()),
        coherent(p.stmts@.last().spec_tokens()),
        p.stmts@[0].spec_span().spec_position().spec_start() <= p.stmts@.last().spec_span().spec_position().spec_end(),
        p.stmts@.last().spec_span().spec_position().spec_end() <= p.stmts@[0].spec_span().spec_source().spec_bytes().len(),
        p.spec_span().valid(),
{
    let ss = p.stmts@;
    let n = ss.len() as int;
    let t = p.spec_tokens();
    let first = ss[0];
    let last = ss.last();
    let k0 = lemma_stmt_span_prefix(first);
    let k1 = lemma_stmt_span_prefix(last);
    let ft = first.spec_tokens();
    let lt = last.spec_tokens();
    reveal_with_fuel(stmts_tokens, 2);
    assert(ss.subrange(0, 1) + ss.subrange(1, n) =~= ss);
    lemma_stmts_tokens_concat(ss.subrange(0, 1), ss.subrange(1, n));
    assert(ss.subrange(0, 1).drop_last() =~= Seq::<Stmt<'src>>::empty());
    assert(stmts_tokens(ss.subrange(0, 1)) =~= ft);
    assert(ss.subrange(0, n - 1) + ss.subrange(n - 1, n) =~= ss);
    lemma_stmts_tokens_concat(ss.subrange(0, n - 1), ss.subrange(n - 1, n));
    assert(ss.subrange(n - 1, n).drop_last() =~= Seq::<Stmt<'src>>::empty());
    assert(stmts_tokens(ss.subrange(n - 1, n)) =~= lt);
    let pre = stmts_tokens(ss.subrange(0, n - 1));
    assert(t.subrange(0, ft.len() as int) =~= ft);
    assert(t.subrange(0, k0) =~= ft.subrange(0, k0));
    assert(t.subrange(pre.len() as int, (pre.len() + lt.len()) as int) =~= lt);
    assert(t.subrange(pre.len() as int, pre.len() + k1) =~= lt.subrange(0, k1));
    crate::lexer::lemma_coherent_subrange(t, 0, ft.len() as int);
    crate::lexer::lemma_coherent_subrange(t, pre.len() as int, (pre.len() + lt.len()) as int);
    crate::lexer::lemma_join_runs(t, 0, k0, pre.len() as int, pre.len() + k1);
}

impl<'src> ASTNode<'src> for Ident<'src> {
    open spec fn node_tokens(&self) -> Seq<Token<'src>> {
        self.spec_tokens()
    }

    open spec fn has_span(&self) -> bool {
        coherent(self.spec_tokens())
    }

    open spec fn node_span(&self) -> Span<'src> {
        covering(self.spec_tokens())
    }

    proof fn lemma_span_valid(&self) {
        
        lemma_cover_bounds(self.spec_tokens());
    }

    fn span(&self) -> (s: Span<'src>) {
        Ident::span(self)
    }
}

impl<'src> ASTNode<'src> for SelfKw<'src> {
    open spec fn node_tokens(&self) -> Seq<Token<'src>> {
        self.spec_tokens()
    }

    open spec fn has_span(&self) -> bool {
        coherent(self.spec_tokens())
    }

    open spec fn node_span(&self) -> Span<'src> {
        covering(self.spec_tokens())
    }

    proof fn lemma_span_valid(&self) {
        
        lemma_cover_bounds(self.spec_tokens());
    }

    fn span(&self) -> (s: Span<'src>) {
        SelfKw::span(self)
    }
}

impl<'src> ASTNode<'src> for Break<'src> {
    open spec fn node_tokens(&self) -> Seq<Token<'src>> {
        self.spec_tokens()
    }

    open spec fn has_span(&self) -> bool {
        coherent(self.spec_tokens())
    }

    open spec fn node_span(&self) -> Span<'src> {
        covering(self.spec_tokens())
    }

    proof fn lemma_span_valid(&self) {
        
        lemma_cover_bounds(self.spec_tokens());
    }

    fn span(&self) -> (s: Span<'src>) {
        Break::span(self)
    }
}

impl<'src> ASTNode<'src> for Continue<'src> {
    open spec fn node_tokens(&self) -> Seq<Token<'src>> {
        self.spec_tokens()
    }

    open spec fn has_span(&self) -> bool {
        coherent(self.spec_tokens())
    }

    open spec fn node_span(&self) -> Span<'src> {
        covering(self.spec_tokens())
    }

    proof fn lemma_span_valid(&self) {
        
        lemma_cover_bounds(self.spec_tokens());
    }

    fn span(&self) -> (s: Span<'src>) {
        Continue::span(self)
    }
}

impl<'src> ASTNode<'src> for Lit<'src> {
    open spec fn node_tokens(&self) -> Seq<Token<'src>> {
        self.spec_tokens()
    }

    open spec fn has_span(&self) -> bool {
        coherent(self.spec_tokens())
    }

    open spec fn node_span(&self) -> Span<'src> {
        covering(self.spec_tokens())
    }

    proof fn lemma_span_valid(&self) {
        
        lemma_cover_bounds(self.spec_tokens());
    }

    fn span(&self) -> (s: Span<'src>) {
        Lit::span(self)
    }
}

impl<'src> ASTNode<'src> for BinaryOp<'src> {
    open spec fn node_tokens(&self) -> Seq<Token<'src>> {
        self.spec_tokens()
    }

    open spec fn has_span(&self) -> bool {
        coherent(self.spec_tokens())
    }

    open spec fn node_span(&self) -> Span<'src> {
        covering(self.spec_tokens())
    }

    proof fn lemma_span_valid(&self) {
        
        lemma_cover_bounds(self.spec_tokens());
    }

    fn span(&self) -> (s: Span<'src>) {
        BinaryOp::span(self)
    }
}

impl<'src> ASTNode<'src> for UnaryOp<'src> {
    open spec fn node_tokens(&self) -> Seq<Token<'src>> {
        self.spec_tokens()
    }

    open spec fn has_span(&self) -> bool {
        coherent(self.spec_tokens())
    }

    open spec fn node_span(&self) -> Span<'src> {
        covering(self.spec_tokens())
    }

    proof fn lemma_span_valid(&self) {
        
        lemma_cover_bounds(self.spec_tokens());
    }

    fn span(&self) -> (s: Span<'src>) {
        UnaryOp::span(self)
    }
}

impl<'src> ASTNode<'src> for BinaryExpr<'src> {
    open spec fn node_tokens(&self) -> Seq<Token<'src>> {
        self.spec_tokens()
    }

    open spec fn has_span(&self) -> bool {
        coherent(self.spec_tokens())
    }

    open spec fn node_span(&self) -> Span<'src> {
        covering(self.spec_tokens())
    }

    proof fn lemma_span_valid(&self) {
        
        lemma_cover_bounds(self.spec_tokens());
    }

    fn span(&self) -> (s: Span<'src>) {
        BinaryExpr::span(self)
    }
}

impl<'src> ASTNode<'src> for UnaryExpr<'src> {
    open spec fn node_tokens(&self) -> Seq<Token<'src>> {
        self.spec_tokens()
    }

    open spec fn has_span(&self) -> bool {
        coherent(self.spec_tokens())
    }

    open spec fn node_span(&self) -> Span<'src> {
        covering(self.spec_tokens())
    }

    proof fn lemma_span_valid(&self) {
        
        lemma_cover_bounds(self.spec_tokens());
    }

    fn span(&self) -> (s: Span<'src>) {
        UnaryExpr::span(self)
    }
}

impl<'src> ASTNode<'src> for Expr<'src> {
    open spec fn node_tokens(&self) -> Seq<Token<'src>> {
        self.spec_tokens()
    }

    open spec fn has_span(&self) -> bool {
        coherent(self.spec_tokens())
    }

    open spec fn node_span(&self) -> Span<'src> {
        covering(self.spec_tokens())
    }

    proof fn lemma_span_valid(&self) {
        lemma_expr_nonempty(*self);
        lemma_cover_bounds(self.spec_tokens());
    }

    fn span(&self) -> (s: Span<'src>) {
        Expr::span(self)
    }
}

impl<'src> ASTNode<'src> for ParenExpr<'src> {
    open spec fn node_tokens(&self) -> Seq<Token<'src>> {
        self.spec_tokens()
    }

    open spec fn has_span(&self) -> bool {
        coherent(self.spec_tokens())
    }

    open spec fn node_span(&self) -> Span<'src> {
        covering(self.spec_tokens())
    }

    proof fn lemma_span_valid(&self) {
        
        lemma_cover_bounds(self.spec_tokens());
    }

    fn span(&self) -> (s: Span<'src>) {
        ParenExpr::span(self)
    }
}

impl<'src> ASTNode<'src> for Term<'src> {
    open spec fn node_tokens(&self) -> Seq<Token<'src>> {
        self.spec_tokens()
    }

    open spec fn has_span(&self) -> bool {
        coherent(self.spec_tokens())
    }

    open spec fn node_span(&self) -> Span<'src> {
        covering(self.spec_tokens())
    }

    proof fn lemma_span_valid(&self) {
        lemma_term_nonempty(*self);
        lemma_cover_bounds(self.spec_tokens());
    }

    fn span(&self) -> (s: Span<'src>) {
        Term::span(self)
    }
}

impl<'src> ASTNode<'src> for Func<'src> {
    open spec fn node_tokens(&self) -> Seq<Token<'src>> {
        self.spec_tokens()
    }

    open spec fn has_span(&self) -> bool {
        coherent(self.spec_tokens())
    }

    open spec fn node_span(&self) -> Span<'src> {
        covering(self.spec_tokens())
    }

    proof fn lemma_span_valid(&self) {
        
        lemma_cover_bounds(self.spec_tokens());
    }

    fn span(&self) -> (s: Span<'src>) {
        Func::span(self)
    }
}

impl<'src> ASTNode<'src> for List<'src> {
    open spec fn node_tokens(&self) -> Seq<Token<'src>> {
        self.spec_tokens()
    }

    open spec fn has_span(&self) -> bool {
        coherent(self.spec_tokens())
    }

    open spec fn node_span(&self) -> Span<'src> {
        covering(self.spec_tokens())
    }

    proof fn lemma_span_valid(&self) {
        
        lemma_cover_bounds(self.spec_tokens());
    }

    fn span(&self) -> (s: Span<'src>) {
        List::span(self)
    }
}

impl<'src> ASTNode<'src> for Obj<'src> {
    open spec fn node_tokens(&self) -> Seq<Token<'src>> {
        self.spec_tokens()
    }

    open spec fn has_span(&self) -> bool {
        coherent(self.spec_tokens())
    }

    open spec fn node_span(&self) -> Span<'src> {
        covering(self.spec_tokens())
    }

    proof fn lemma_span_valid(&self) {
        
        lemma_cover_bounds(self.spec_tokens());
    }

    fn span(&self) -> (s: Span<'src>) {
        Obj::span(self)
    }
}

impl<'src> ASTNode<'src> for ObjField<'src> {
    open spec fn node_tokens(&self) -> Seq<Token<'src>> {
        self.spec_tokens()
    }

    open spec fn has_span(&self) -> bool {
        coherent(self.spec_tokens())
    }

    open spec fn node_span(&self) -> Span<'src> {
        covering(self.spec_tokens())
    }

    proof fn lemma_span_valid(&self) {
        
        lemma_cover_bounds(self.spec_tokens());
    }

    fn span(&self) -> (s: Span<'src>) {
        ObjField::span(self)
    }
}

impl<'src> ASTNode<'src> for Extern<'src> {
    open spec fn node_tokens(&self) -> Seq<Token<'src>> {
        self.spec_tokens()
    }

    open spec fn has_span(&self) -> bool {
        coherent(self.spec_tokens())
    }

    open spec fn node_span(&self) -> Span<'src> {
        covering(self.spec_tokens())
    }

    proof fn lemma_span_valid(&self) {
        
        lemma_cover_bounds(self.spec_tokens());
    }

    fn span(&self) -> (s: Span<'src>) {
        Extern::span(self)
    }
}

impl<'src> ASTNode<'src> for Call<'src> {
    open spec fn node_tokens(&self) -> Seq<Token<'src>> {
        self.spec_tokens()
    }

    open spec fn has_span(&self) -> bool {
        coherent(self.spec_tokens())
    }

    open spec fn node_span(&self) -> Span<'src> {
        covering(self.spec_tokens())
    }

    proof fn lemma_span_valid(&self) {
        
        lemma_cover_bounds(self.spec_tokens());
    }

    fn span(&self) -> (s: Span<'src>) {
        Call::span(self)
    }
}

impl<'src> ASTNode<'src> for IndexAcc<'src> {
    open spec fn node_tokens(&self) -> Seq<Token<'src>> {
        self.spec_tokens()
    }

    open spec fn has_span(&self) -> bool {
        coherent(self.spec_tokens())
    }

    open spec fn node_span(&self) -> Span<'src> {
        covering(self.spec_tokens())
    }

    proof fn lemma_span_valid(&self) {
        
        lemma_cover_bounds(self.spec_tokens());
    }

    fn span(&self) -> (s: Span<'src>) {
        IndexAcc::span(self)
    }
}

impl<'src> ASTNode<'src> for FieldAcc<'src> {
    open spec fn node_tokens(&self) -> Seq<Token<'src>> {
        self.spec_tokens()
    }

    open spec fn has_span(&self) -> bool {
        coherent(self.spec_tokens())
    }

    open spec fn node_span(&self) -> Span<'src> {
        covering(self.spec_tokens())
    }

    proof fn lemma_span_valid(&self) {
        
        lemma_cover_bounds(self.spec_tokens());
    }

    fn span(&self) -> (s: Span<'src>) {
        FieldAcc::span(self)
    }
}

impl<'src> ASTNode<'src> for Stmt<'src> {
    open spec fn node_tokens(&self) -> Seq<Token<'src>> {
        self.spec_tokens()
    }

    open spec fn has_span(&self) -> bool {
        coherent(self.spec_tokens())
    }

    open spec fn node_span(&self) -> Span<'src> {
        self.spec_span()
    }

    proof fn lemma_span_valid(&self) {
        let k = lemma_stmt_span_prefix(*self);
        crate::lexer::lemma_coherent_subrange(self.spec_tokens(), 0, k);
        lemma_cover_bounds(self.spec_tokens().subrange(0, k));
    }

    fn span(&self) -> (s: Span<'src>) {
        Stmt::span(self)
    }
}

impl<'src> ASTNode<'src> for VarDefine<'src> {
    open spec fn node_tokens(&self) -> Seq<Token<'src>> {
        self.spec_tokens()
    }

    open spec fn has_span(&self) -> bool {
        coherent(self.spec_tokens())
    }

    open spec fn node_span(&self) -> Span<'src> {
        covering(self.spec_tokens())
    }

    proof fn lemma_span_valid(&self) {
        
        lemma_cover_bounds(self.spec_tokens());
    }

    fn span(&self) -> (s: Span<'src>) {
        VarDefine::span(self)
    }
}

impl<'src> ASTNode<'src> for VarAssign<'src> {
    open spec fn node_tokens(&self) -> Seq<Token<'src>> {
        self.spec_tokens()
    }

    open spec fn has_span(&self) -> bool {
        coherent(self.spec_tokens())
    }

    open spec fn node_span(&self) -> Span<'src> {
        covering(self.spec_tokens())
    }

    proof fn lemma_span_valid(&self) {
        
        lemma_cover_bounds(self.spec_tokens());
    }

    fn span(&self) -> (s: Span<'src>) {
        VarAssign::span(self)
    }
}

impl<'src> ASTNode<'src> for DoBlock<'src> {
    open spec fn node_tokens(&self) -> Seq<Token<'src>> {
        self.spec_tokens()
    }

    open spec fn has_span(&self) -> bool {
        coherent(self.spec_tokens())
    }

    open spec fn node_span(&self) -> Span<'src> {
        covering(self.spec_tokens())
    }

    proof fn lemma_span_valid(&self) {
        
        lemma_cover_bounds(self.spec_tokens());
    }

    fn span(&self) -> (s: Span<'src>) {
        DoBlock::span(self)
    }
}

impl<'src> ASTNode<'src> for Return<'src> {
    open spec fn node_tokens(&self) -> Seq<Token<'src>> {
        self.spec_tokens()
    }

    open spec fn has_span(&self) -> bool {
        coherent(self.spec_tokens())
    }

    open spec fn node_span(&self) -> Span<'src> {
        covering(self.spec_tokens())
    }

    proof fn lemma_span_valid(&self) {
        
        lemma_cover_bounds(self.spec_tokens());
    }

    fn span(&self) -> (s: Span<'src>) {
        Return::span(self)
    }
}

impl<'src> ASTNode<'src> for WhileLoop<'src> {
    open spec fn node_tokens(&self) -> Seq<Token<'src>> {
        self.spec_tokens()
    }

    open spec fn has_span(&self) -> bool {
        coherent(self.spec_tokens())
    }

    open spec fn node_span(&self) -> Span<'src> {
        covering(self.spec_tokens())
    }

    proof fn lemma_span_valid(&self) {
        
        lemma_cover_bounds(self.spec_tokens());
    }

    fn span(&self) -> (s: Span<'src>) {
        WhileLoop::span(self)
    }
}

impl<'src> ASTNode<'src> for If<'src> {
    open spec fn node_tokens(&self) -> Seq<Token<'src>> {
        self.spec_tokens()
    }

    open spec fn has_span(&self) -> bool {
        coherent(self.spec_tokens())
    }

    open spec fn node_span(&self) -> Span<'src> {
        covering(self.spec_tokens())
    }

    proof fn lemma_span_valid(&self) {
        
        lemma_cover_bounds(self.spec_tokens());
    }

    fn span(&self) -> (s: Span<'src>) {
        If::span(self)
    }
}

impl<'src> ASTNode<'src> for ElseIf<'src> {
    open spec fn node_tokens(&self) -> Seq<Token<'src>> {
        self.spec_tokens()
    }

    open spec fn has_span(&self) -> bool {
        coherent(self.spec_tokens())
    }

    open spec fn node_span(&self) -> Span<'src> {
        self.spec_span()
    }

    proof fn lemma_span_valid(&self) {
        let t = self.spec_tokens();
        lemma_cover_one(self._elseif);
        assert(t.subrange(0, 1) =~= seq![self._elseif]);
        let ss = self.stmts@;
        if ss.len() > 0 {
            let last = ss.last();
            let k = lemma_stmt_span_prefix(last);
            let lt = last.spec_tokens();
            let pre = seq![self._elseif] + self.cond.spec_tokens() + seq![self._then]
                + stmts_tokens(ss.drop_last());
            assert(t =~= pre + lt);
            assert(t.subrange(pre.len() as int, pre.len() + k) =~= lt.subrange(0, k));
            crate::lexer::lemma_join_runs(t, 0, 1, pre.len() as int, pre.len() + k);
        } else {
            assert(t =~= seq![self._elseif] + self.cond.spec_tokens() + seq![self._then]);
            lemma_cover_one(self._then);
            assert(t.subrange(t.len() - 1, t.len() as int) =~= seq![self._then]);
            crate::lexer::lemma_join_runs(t, 0, 1, t.len() - 1, t.len() as int);
        }
    }

    fn span(&self) -> (s: Span<'src>) {
        ElseIf::span(self)
    }
}

impl<'src> ASTNode<'src> for Else<'src> {
    open spec fn node_tokens(&self) -> Seq<Token<'src>> {
        self.spec_tokens()
    }

    open spec fn has_span(&self) -> bool {
        coherent(self.spec_tokens())
    }

    open spec fn node_span(&self) -> Span<'src> {
        self.spec_span()
    }

    proof fn lemma_span_valid(&self) {
        let t = self.spec_tokens();
        lemma_cover_one(self._else);
        assert(t.subrange(0, 1) =~= seq![self._else]);
        let ss = self.stmts@;
        if ss.len() > 0 {
            let last = ss.last();
            let k = lemma_stmt_span_prefix(last);
            let lt = last.spec_tokens();
            let pre = seq![self._else] + stmts_tokens(ss.drop_last());
            assert(t =~= pre + lt);
            assert(t.subrange(pre.len() as int, pre.len() + k) =~= lt.subrange(0, k));
            crate::lexer::lemma_join_runs(t, 0, 1, pre.len() as int, pre.len() + k);
        } else {
            crate::lexer::lemma_join_runs(t, 0, 1, 0, 1);
        }
    }

    fn span(&self) -> (s: Span<'src>) {
        Else::span(self)
    }
}

impl<'src> ASTNode<'src> for ExprAssign<'src> {
    open spec fn node_tokens(&self) -> Seq<Token<'src>> {
        self.spec_tokens()
    }

    open spec fn has_span(&self) -> bool {
        coherent(self.spec_tokens())
    }

    open spec fn node_span(&self) -> Span<'src> {
        self.spec_span()
    }

    proof fn lemma_span_valid(&self) {
        let k = lemma_stmt_span_prefix(Stmt::ExprAssign(*self));
        crate::lexer::lemma_coherent_subrange(self.spec_tokens(), 0, k);
        lemma_cover_bounds(self.spec_tokens().subrange(0, k));
    }

    fn span(&self) -> (s: Span<'src>) {
        ExprAssign::span(self)
    }
}

impl<'src> ASTNode<'src> for IndexAssign<'src> {
    open spec fn node_tokens(&self) -> Seq<Token<'src>> {
        self.spec_tokens()
    }

    open spec fn has_span(&self) -> bool {
        coherent(self.spec_tokens())
    }

    open spec fn node_span(&self) -> Span<'src> {
        self.spec_span()
    }

    proof fn lemma_span_valid(&self) {
        let k = lemma_stmt_span_prefix(Stmt::ExprAssign(ExprAssign::IndexAssign(*self)));
        crate::lexer::lemma_coherent_subrange(self.spec_tokens(), 0, k);
        lemma_cover_bounds(self.spec_tokens().subrange(0, k));
    }

    fn span(&self) -> (s: Span<'src>) {
        IndexAssign::span(self)
    }
}

impl<'src> ASTNode<'src> for FieldAssign<'src> {
    open spec fn node_tokens(&self) -> Seq<Token<'src>> {
        self.spec_tokens()
    }

    open spec fn has_span(&self) -> bool {
        coherent(self.spec_tokens())
    }

    open spec fn node_span(&self) -> Span<'src> {
        covering(self.spec_tokens())
    }

    proof fn lemma_span_valid(&self) {
        
        lemma_cover_bounds(self.spec_tokens());
    }

    fn span(&self) -> (s: Span<'src>) {
        FieldAssign::span(self)
    }
}

impl<'src> ASTNode<'src> for ClassDef<'src> {
    open spec fn node_tokens(&self) -> Seq<Token<'src>> {
        self.spec_tokens()
    }

    open spec fn has_span(&self) -> bool {
        coherent(self.spec_tokens())
    }

    open spec fn node_span(&self) -> Span<'src> {
        covering(self.spec_tokens())
    }

    proof fn lemma_span_valid(&self) {
        
        lemma_cover_bounds(self.spec_tokens());
    }

    fn span(&self) -> (s: Span<'src>) {
        ClassDef::span(self)
    }
}

impl<'src> ASTNode<'src> for Program<'src> {
    open spec fn node_tokens(&self) -> Seq<Token<'src>> {
        self.spec_tokens()
    }

    /// A program's span is that of its statements, of which there must be one.
    open spec fn has_span(&self) -> bool {
        self.stmts@.len() > 0 && coherent(self.spec_tokens())
    }

    open spec fn node_span(&self) -> Span<'src> {
        self.spec_span()
    }

    proof fn lemma_span_valid(&self) {
        lemma_program_span(*self);
    }

    fn span(&self) -> (s: Span<'src>) {
        Program::span(self)
    }
}

} // verus!
