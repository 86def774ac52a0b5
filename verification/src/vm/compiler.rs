use vstd::prelude::*;
use vstd::string::StringExecFns;
use crate::syntax::expressions::{Binary, Call, Expression, Function, Literal, Term, Unary};
use crate::syntax::operators::{BinaryOperator, UnaryOperator};
use crate::syntax::statements::{
    ConditionBranch, If, Program, Return, Statement, VariableAssign, VariableDefine, WhileLoop,
};
use crate::vm::bytecode::{
    Instruction, InstructionView, instruction_view, instructions_view, lemma_instructions_view_add,
    lemma_instructions_view_push,
};
use crate::vm::value::{Value, ValueView};

verus! {

broadcast use vstd::string::group_string_axioms;

/// A stretch of bytecode, by its view.
pub type Code = Seq<InstructionView>;

/// The compiled pieces of an `elseif` branch: the label and code of its condition, and the
/// label and code of its body.
pub type BranchCode = (Seq<char>, Code, Seq<char>, Code);

/// The decimal digit `d`.
pub open spec fn digit_char(d: nat) -> char {
    (d + 48) as char
}

/// The decimal notation of `n`, without leading zeros.
pub open spec fn decimal(n: nat) -> Seq<char>
    decreases n,
{
    if n < 10 {
        seq![digit_char(n)]
    } else {
        decimal(n / 10).push(digit_char(n % 10))
    }
}

/// The name of the `n`-th label a compiler creates: `L1`, `L2`, ...
pub open spec fn label_text(n: nat) -> Seq<char> {
    seq!['L'] + decimal(n)
}

/// The decimal digit of `d`, which is below ten.
fn digit(d: usize) -> (c: char)
    requires
        d < 10,
    ensures
        c == digit_char(d as nat),
{
    let b: u8 = d as u8 + 48;
    b as char
}

/// The decimal notation of a number.
pub(crate) fn decimal_string(n: usize) -> (text: String)
    ensures
        text@ == decimal(n as nat),
{
    let mut digits: Vec<char> = Vec::new();
    let mut m: usize = n;
    while m >= 10
        invariant
            decimal(n as nat) == decimal(m as nat) + digits@.reverse(),
        decreases m,
    {
        let d = digit(m % 10);
        proof {
            assert(decimal(m as nat) == decimal((m / 10) as nat).push(digit_char((m % 10) as nat)));
            assert(digits@.push(d).reverse() =~= seq![d] + digits@.reverse());
            assert(decimal((m / 10) as nat).push(d) + digits@.reverse() =~= decimal(
                (m / 10) as nat,
            ) + (seq![d] + digits@.reverse()));
        }
        digits.push(d);
        m = m / 10;
    }
    let d = digit(m);
    proof {
        assert(digits@.push(d).reverse() =~= seq![d] + digits@.reverse());
    }
    digits.push(d);
    let mut text = String::new();
    let mut i: usize = digits.len();
    while i > 0
        invariant
            i <= digits@.len(),
            text@ == digits@.subrange(i as int, digits@.len() as int).reverse(),
        decreases i,
    {
        i = i - 1;
        let ghost before = text@;
        crate::text::push_char(&mut text, digits[i]);
        proof {
            let rest = digits@.subrange(i as int, digits@.len() as int);
            assert(rest =~= seq![digits@[i as int]] + digits@.subrange(i + 1, digits@.len() as int));
            assert(rest.reverse() =~= digits@.subrange(i + 1, digits@.len() as int).reverse().push(
                digits@[i as int],
            ));
        }
    }
    proof {
        assert(digits@.subrange(0, digits@.len() as int) =~= digits@);
    }
    text
}

/// A decimal numeral has at least one digit.
pub proof fn lemma_decimal_nonempty(n: nat)
    ensures
        decimal(n).len() >= 1,
    decreases n,
{
    if n >= 10 {
        lemma_decimal_nonempty(n / 10);
    }
}

/// Different numbers have different decimal numerals.
pub proof fn lemma_decimal_injective(n: nat, m: nat)
    requires
        decimal(n) == decimal(m),
    ensures
        n == m,
    decreases n,
{
    if n < 10 && m < 10 {
        assert(decimal(n) == seq![digit_char(n)]);
        assert(decimal(m) == seq![digit_char(m)]);
        assert(seq![digit_char(n)][0] == digit_char(n));
        assert(seq![digit_char(m)][0] == digit_char(m));
        assert(digit_char(n) == digit_char(m));
        assert(digit_char(n) as int == n + 48);
        assert(digit_char(m) as int == m + 48);
    } else if n < 10 {
        lemma_decimal_nonempty(m / 10);
        assert(decimal(m).len() >= 2);
    } else if m < 10 {
        lemma_decimal_nonempty(n / 10);
        assert(decimal(n).len() >= 2);
    } else {
        assert(decimal(n) == decimal(n / 10).push(digit_char(n % 10)));
        assert(decimal(m) == decimal(m / 10).push(digit_char(m % 10)));
        assert(decimal(n).last() == digit_char(n % 10));
        assert(decimal(m).last() == digit_char(m % 10));
        assert(decimal(n).drop_last() == decimal(m).drop_last());
        assert(decimal(n / 10) =~= decimal(n).drop_last());
        assert(decimal(m / 10) =~= decimal(m).drop_last());
        lemma_decimal_injective(n / 10, m / 10);
        let dn = (n % 10) as nat;
        let dm = (m % 10) as nat;
        assert(digit_char(dn) == digit_char(dm));
        assert(digit_char(dn) as int == dn + 48);
        assert(digit_char(dm) as int == dm + 48);
        assert(n == 10 * (n / 10) + n % 10);
        assert(m == 10 * (m / 10) + m % 10);
    }
}

/// Labels made from different counts have different names, so that every label a compiler
/// creates is new.
pub proof fn lemma_label_text_injective(n: nat, m: nat)
    requires
        n != m,
    ensures
        label_text(n) != label_text(m),
{
    if label_text(n) == label_text(m) {
        assert(decimal(n) =~= label_text(n).drop_first());
        assert(decimal(m) =~= label_text(m).drop_first());
        lemma_decimal_injective(n, m);
    }
}

/// The code that pushes a literal.
pub open spec fn literal_code(l: Literal) -> Code {
    seq![
        InstructionView::Push(
            match l {
                Literal::Boolean(b, _) => ValueView::Boolean(b),
                Literal::String(s, _) => ValueView::String(s@),
                Literal::Number(n, _) => ValueView::Number(n),
            },
        ),
    ]
}

/// The instruction that applies a unary operator.
pub open spec fn unary_op_code(op: UnaryOperator) -> InstructionView {
    match op {
        UnaryOperator::Minus => InstructionView::Neg,
        UnaryOperator::Not => InstructionView::Not,
    }
}

/// The instruction that applies a binary operator, for the operators the machine has one
/// for.
pub open spec fn binary_op_code(op: BinaryOperator) -> Option<InstructionView> {
    match op {
        BinaryOperator::Add => Some(InstructionView::Add),
        BinaryOperator::Subtract => Some(InstructionView::Sub),
        BinaryOperator::Multiply => Some(InstructionView::Mul),
        BinaryOperator::Divide => Some(InstructionView::Div),
        BinaryOperator::EqEq => Some(InstructionView::Eq),
        BinaryOperator::Gt => Some(InstructionView::Gt),
        BinaryOperator::Lt => Some(InstructionView::Lt),
        BinaryOperator::Gte => Some(InstructionView::Gte),
        BinaryOperator::Lte => Some(InstructionView::Lte),
        _ => None,
    }
}

/// The code that stores a function's arguments, in order, into their names.
pub open spec fn stores_code(args: Seq<(String, crate::span::Position)>) -> Code {
    Seq::new(args.len(), |i: int| InstructionView::Store(args[i].0@))
}

/// What compiling an expression with label counter `c` emits, and how many labels it
/// creates; `None` where the compiler does not handle the expression.
pub open spec fn c_expr(e: Expression, c: nat) -> Option<(Code, nat)>
    decreases e,
{
    match e {
        Expression::Unary(u) => match c_term(u.operand, c) {
            Some((code, n)) => Some((code.push(unary_op_code(u.operator.0)), n)),
            None => None,
        },
        Expression::Binary(b) => match c_term(b.lhs, c) {
            Some((l, n1)) => match c_term(b.rhs, c + n1) {
                Some((r, n2)) => match binary_op_code(b.operator.0) {
                    Some(op) => Some(((l + r).push(op), n1 + n2)),
                    None => None,
                },
                None => None,
            },
            None => None,
        },
        Expression::Term(t) => c_term(t, c),
        Expression::Empty(_) => None,
    }
}

/// What compiling a term emits; see [`c_expr`].
pub open spec fn c_term(t: Term, c: nat) -> Option<(Code, nat)>
    decreases t,
{
    match t {
        Term::Call(call) => c_call(call, c),
        Term::Function(f) => c_function(f, c),
        Term::Literal(l) => Some((literal_code(l), 0)),
        Term::Identifier(name, _) => Some((seq![InstructionView::Load(name@)], 0)),
        Term::Expression(e) => c_expr(*e, c),
        _ => None,
    }
}

/// What compiling a list of expressions one after the other emits.
pub open spec fn c_exprs(es: Seq<Expression>, c: nat) -> Option<(Code, nat)>
    decreases es,
{
    if es.len() == 0 {
        Some((seq![], 0))
    } else {
        match c_exprs(es.drop_last(), c) {
            Some((a, n1)) => match c_expr(es.last(), c + n1) {
                Some((b, n2)) => Some((a + b, n1 + n2)),
                None => None,
            },
            None => None,
        }
    }
}

/// What compiling a call emits: its arguments, then the function, then `CALL`.
pub open spec fn c_call(call: Call, c: nat) -> Option<(Code, nat)>
    decreases call,
{
    match c_exprs(call.arguments.0@, c) {
        Some((args, n1)) => match c_expr(*call.function, c + n1) {
            Some((f, n2)) => Some(((args + f).push(InstructionView::Call), n1 + n2)),
            None => None,
        },
        None => None,
    }
}

/// What compiling a function literal emits: one `NEWFUNC` whose body stores the arguments
/// and then runs the statements.
pub open spec fn c_function(f: Function, c: nat) -> Option<(Code, nat)>
    decreases f,
{
    match c_stmts(f.statements@, c) {
        Some((body, n)) => Some(
            (
                seq![InstructionView::NewFunc(f.arguments@.len() as usize, stores_code(f.arguments@) + body)],
                n,
            ),
        ),
        None => None,
    }
}

/// What compiling a list of statements one after the other emits.
pub open spec fn c_stmts(ss: Seq<Statement>, c: nat) -> Option<(Code, nat)>
    decreases ss,
{
    if ss.len() == 0 {
        Some((seq![], 0))
    } else {
        match c_stmts(ss.drop_last(), c) {
            Some((a, n1)) => match c_stmt(ss.last(), c + n1) {
                Some((b, n2)) => Some((a + b, n1 + n2)),
                None => None,
            },
            None => None,
        }
    }
}

/// The code of an optional value, or `PUSH none` in its absence.
pub open spec fn c_opt_expr(e: Option<Expression>, c: nat) -> Option<(Code, nat)>
    decreases e,
{
    match e {
        Some(x) => c_expr(x, c),
        None => Some((seq![InstructionView::Push(ValueView::Empty)], 0)),
    }
}

/// What compiling a statement emits; see [`c_expr`].
pub open spec fn c_stmt(s: Statement, c: nat) -> Option<(Code, nat)>
    decreases s,
{
    match s {
        Statement::VariableDefine(d) => match c_opt_expr(d.value, c) {
            Some((code, n)) => Some((code.push(InstructionView::Store(d.name.0@)), n)),
            None => None,
        },
        Statement::VariableAssign(a) => match c_expr(a.value, c) {
            Some((code, n)) => Some((code.push(InstructionView::Store(a.name.0@)), n)),
            None => None,
        },
        Statement::Return(r) => match c_opt_expr(r.expression, c) {
            Some((code, n)) => Some((code.push(InstructionView::Ret), n)),
            None => None,
        },
        Statement::Call(call) => c_call(call, c),
        Statement::WhileLoop(w) => c_while(w, c),
        Statement::If(i) => c_if(i, c),
        _ => None,
    }
}

/// What compiling a loop emits: a label for the condition, which jumps to the body while
/// it holds, a label for the body, which jumps back to the condition, and a jump to the
/// condition.
pub open spec fn c_while(w: WhileLoop, c: nat) -> Option<(Code, nat)>
    decreases w,
{
    let cond_label = label_text(c + 1);
    let body_label = label_text(c + 2);
    match c_expr(w.condition, c + 2) {
        Some((cond, n1)) => match c_stmts(w.statements@, c + 2 + n1) {
            Some((body, n2)) => Some(
                (
                    seq![
                        InstructionView::Label(cond_label, cond.push(InstructionView::Jt(body_label))),
                        InstructionView::Label(body_label, body.push(InstructionView::Jmp(cond_label))),
                        InstructionView::Jmp(cond_label),
                    ],
                    2 + n1 + n2,
                ),
            ),
            None => None,
        },
        None => None,
    }
}

/// What compiling the `elseif` branches emits, branch by branch, before they are linked.
pub open spec fn c_elifs(bs: Seq<ConditionBranch>, c: nat) -> Option<(Seq<BranchCode>, nat)>
    decreases bs,
{
    if bs.len() == 0 {
        Some((seq![], 0))
    } else {
        match c_elifs(bs.drop_last(), c) {
            Some((prev, n1)) => {
                let b = bs.last();
                let cond_label = label_text(c + n1 + 1);
                let body_label = label_text(c + n1 + 2);
                match c_expr(b.condition, c + n1 + 2) {
                    Some((cond, n2)) => match c_stmts(b.statements@, c + n1 + 2 + n2) {
                        Some((body, n3)) => Some(
                            (prev.push((cond_label, cond, body_label, body)), n1 + 2 + n2 + n3),
                        ),
                        None => None,
                    },
                    None => None,
                }
            },
            None => None,
        }
    }
}

/// The jump that ends the condition of branch `i`: on to the next branch's condition, or
/// after the last one to the `else` branch, if there is one.
pub open spec fn branch_exit(branches: Seq<BranchCode>, i: int, else_label: Option<Seq<char>>) -> Code {
    if i + 1 < branches.len() {
        seq![InstructionView::Jtf(branches[i].2, branches[i + 1].0)]
    } else {
        match else_label {
            Some(l) => seq![InstructionView::Jtf(branches[i].2, l)],
            None => seq![],
        }
    }
}

/// The labels of the first `k` linked branches: each branch's condition, then its body.
pub open spec fn linked_branches(branches: Seq<BranchCode>, k: nat, else_label: Option<Seq<char>>) -> Code
    decreases k,
{
    if k == 0 {
        seq![]
    } else {
        let i = k - 1;
        linked_branches(branches, (k - 1) as nat, else_label) + seq![
            InstructionView::Label(branches[i].0, branches[i].1 + branch_exit(branches, i, else_label)),
            InstructionView::Label(branches[i].2, branches[i].3),
        ]
    }
}

/// The jump that ends an `if` statement's condition.
pub open spec fn if_exit(body_label: Seq<char>, branches: Seq<BranchCode>, else_label: Option<Seq<char>>) -> Code {
    if branches.len() == 0 {
        match else_label {
            Some(l) => seq![InstructionView::Jtf(body_label, l)],
            None => seq![InstructionView::Jt(body_label)],
        }
    } else {
        seq![InstructionView::Jtf(body_label, branches[0].0)]
    }
}

/// What compiling the optional `else` branch emits: its label and code.
pub open spec fn c_else(b: Option<ConditionBranch>, c: nat) -> Option<(Option<(Seq<char>, Code)>, nat)>
    decreases b,
{
    match b {
        Some(branch) => match c_stmts(branch.statements@, c + 1) {
            Some((body, n)) => Some((Some((label_text(c + 1), body)), n + 1)),
            None => None,
        },
        None => Some((None, 0)),
    }
}

/// What compiling a conditional emits: the label of its body, the label of its `else`
/// branch, the linked labels of its `elseif` branches, the label of its condition, and a
/// jump to the condition.
pub open spec fn c_if(s: If, c: nat) -> Option<(Code, nat)>
    decreases s,
{
    let body_label = label_text(c + 1);
    match c_stmts(s.statements@, c + 1) {
        Some((body, n1)) => {
            let cond_label = label_text(c + 1 + n1 + 1);
            match c_expr(s.condition, c + n1 + 2) {
                Some((cond, n2)) => match c_elifs(s.elseif_branches@, c + n1 + 2 + n2) {
                    Some((branches, n3)) => match c_else(s.else_branch, c + n1 + 2 + n2 + n3) {
                        Some((els, n4)) => {
                            let else_label = match els {
                                Some((l, _)) => Some(l),
                                None => None,
                            };
                            let else_code = match els {
                                Some((l, code)) => seq![InstructionView::Label(l, code)],
                                None => seq![],
                            };
                            Some(
                                (
                                    seq![InstructionView::Label(body_label, body)] + else_code
                                        + linked_branches(branches, branches.len(), else_label)
                                        + seq![
                                        InstructionView::Label(
                                            cond_label,
                                            cond + if_exit(body_label, branches, else_label),
                                        ),
                                        InstructionView::Jmp(cond_label),
                                    ],
                                    n1 + 2 + n2 + n3 + n4,
                                ),
                            )
                        },
                        None => None,
                    },
                    None => None,
                },
                None => None,
            }
        },
        None => None,
    }
}

/// `result` fits a label counter that stands at `counter`: it is defined, and counting its
/// labels does not overflow the counter.
pub open spec fn fits(result: Option<(Code, nat)>, counter: usize) -> bool {
    result matches Some((_, n)) && counter + n <= usize::MAX
}

/// `code` is what `result` describes, and the counter went from `before` to `after` by the
/// number of labels that `result` creates.
pub open spec fn emits(result: Option<(Code, nat)>, code: Seq<Instruction>, before: usize, after: usize) -> bool {
    &&& before <= after
    &&& result == Some((instructions_view(code), (after - before) as nat))
}

/// A prefix of a compilable list of expressions compiles, with no more labels than the whole.
proof fn lemma_exprs_prefix(es: Seq<Expression>, c: nat, k: int)
    requires
        c_exprs(es, c) is Some,
        0 <= k <= es.len(),
    ensures
        c_exprs(es.take(k), c) is Some,
        (c_exprs(es.take(k), c)->0).1 <= (c_exprs(es, c)->0).1,
    decreases es.len() - k,
{
    if k == es.len() {
        assert(es.take(k) == es);
    } else {
        lemma_exprs_prefix(es.drop_last(), c, k);
        assert(es.drop_last().take(k) == es.take(k));
    }
}

/// A prefix of a compilable list of statements compiles, with no more labels than the whole.
proof fn lemma_stmts_prefix(ss: Seq<Statement>, c: nat, k: int)
    requires
        c_stmts(ss, c) is Some,
        0 <= k <= ss.len(),
    ensures
        c_stmts(ss.take(k), c) is Some,
        (c_stmts(ss.take(k), c)->0).1 <= (c_stmts(ss, c)->0).1,
    decreases ss.len() - k,
{
    if k == ss.len() {
        assert(ss.take(k) == ss);
    } else {
        lemma_stmts_prefix(ss.drop_last(), c, k);
        assert(ss.drop_last().take(k) == ss.take(k));
    }
}

/// A prefix of compilable branches compiles, with no more labels than the whole.
proof fn lemma_elifs_prefix(bs: Seq<ConditionBranch>, c: nat, k: int)
    requires
        c_elifs(bs, c) is Some,
        0 <= k <= bs.len(),
    ensures
        c_elifs(bs.take(k), c) is Some,
        (c_elifs(bs.take(k), c)->0).1 <= (c_elifs(bs, c)->0).1,
    decreases bs.len() - k,
{
    if k == bs.len() {
        assert(bs.take(k) == bs);
    } else {
        lemma_elifs_prefix(bs.drop_last(), c, k);
        assert(bs.drop_last().take(k) == bs.take(k));
    }
}

/// A compiled `elseif` branch: condition label and code, body label and code.
pub type CompiledBranch = (String, Vec<Instruction>, String, Vec<Instruction>);

/// The view of a compiled branch.
pub open spec fn branch_view(b: CompiledBranch) -> BranchCode {
    (b.0@, instructions_view(b.1@), b.2@, instructions_view(b.3@))
}

/// The views of compiled branches.
pub open spec fn branches_view(bs: Seq<CompiledBranch>) -> Seq<BranchCode> {
    bs.map_values(|b: CompiledBranch| branch_view(b))
}

/// The view of an optional label.
pub open spec fn label_view(l: Option<String>) -> Option<Seq<char>> {
    match l {
        Some(s) => Some(s@),
        None => None,
    }
}

/// A label holding `body`.
fn label_instruction(name: String, body: Vec<Instruction>) -> (i: Instruction)
    ensures
        instruction_view(i) == InstructionView::Label(name@, instructions_view(body@)),
{
    Instruction::LABEL(name, body)
}

/// One instruction on its own.
fn single(i: Instruction) -> (code: Vec<Instruction>)
    ensures
        instructions_view(code@) == seq![instruction_view(i)],
        code@ == seq![i],
{
    let mut code = Vec::new();
    code.push(i);
    proof {
        lemma_instructions_view_push(Seq::empty(), i);
        assert(code@ == Seq::<Instruction>::empty().push(i));
    }
    code
}

/// Emits the labels of the compiled `elseif` branches, each condition ending in a jump to the
/// next branch's condition, and the last one to the `else` branch, if there is one.
fn link_branches(branches: Vec<CompiledBranch>, else_label: Option<String>) -> (code: Vec<Instruction>)
    ensures
        instructions_view(code@) == linked_branches(
            branches_view(branches@),
            branches@.len(),
            label_view(else_label),
        ),
{
    let ghost bv = branches_view(branches@);
    let ghost el = label_view(else_label);
    let ghost n = branches@.len();
    let mut emitted: Vec<Instruction> = Vec::new();
    let mut pending: Option<CompiledBranch> = None;
    for branch in it: branches.into_iter()
        invariant
            it.seq() == branches@,
            bv == branches_view(branches@),
            n == branches@.len(),
            el == label_view(else_label),
            it.index() == 0 ==> pending is None && emitted@.len() == 0,
            it.index() > 0 ==> {
                &&& pending matches Some(p)
                &&& branch_view(p) == bv[it.index() - 1]
                &&& instructions_view(emitted@) == linked_branches(bv, (it.index() - 1) as nat, el)
            },
    {
        let ghost k = it.index();
        proof {
            assert(branch == branches@[k as int]);
        }
        match pending {
            Some(prev) => {
                let (cond_label, mut cond, body_label, body) = prev;
                let jump = Instruction::JTF(body_label.clone(), branch.0.clone());
                proof {
                    lemma_instructions_view_push(cond@, jump);
                }
                cond.push(jump);
                let cond_instruction = label_instruction(cond_label, cond);
                let body_instruction = label_instruction(body_label, body);
                proof {
                    lemma_instructions_view_push(emitted@, cond_instruction);
                    lemma_instructions_view_push(emitted@.push(cond_instruction), body_instruction);
                }
                let ghost before = emitted@;
                emitted.push(cond_instruction);
                emitted.push(body_instruction);
                proof {
                    let i = k - 1;
                    assert(bv[k as int] == branch_view(branch));
                    assert(branch_exit(bv, i, el) == seq![InstructionView::Jtf(bv[i].2, bv[k as int].0)]);
                    assert(bv[i].1 + branch_exit(bv, i, el) =~= bv[i].1.push(
                        InstructionView::Jtf(bv[i].2, bv[k as int].0),
                    ));
                    assert(instructions_view(emitted@) =~= instructions_view(before) + seq![
                        instruction_view(cond_instruction),
                        instruction_view(body_instruction),
                    ]);
                    assert(instructions_view(emitted@) == linked_branches(bv, k as nat, el));
                }
            },
            None => {
                proof {
                    assert(instructions_view(emitted@) == Seq::<InstructionView>::empty());
                }
            },
        }
        pending = Some(branch);
    }
    if let Some(prev) = pending {
        let (cond_label, mut cond, body_label, body) = prev;
        let ghost cond_before = cond@;
        match else_label {
            Some(l) => {
                let jump = Instruction::JTF(body_label.clone(), l);
                proof {
                    lemma_instructions_view_push(cond@, jump);
                }
                cond.push(jump);
            },
            None => {
                proof {
                    assert(cond@ + Seq::<Instruction>::empty() == cond@);
                }
            },
        }
        let cond_instruction = label_instruction(cond_label, cond);
        let body_instruction = label_instruction(body_label, body);
        proof {
            lemma_instructions_view_push(emitted@, cond_instruction);
            lemma_instructions_view_push(emitted@.push(cond_instruction), body_instruction);
        }
        let ghost before = emitted@;
        emitted.push(cond_instruction);
        emitted.push(body_instruction);
        proof {
            let i = n - 1;
            assert(branch_view(prev) == bv[i]);
            assert(instructions_view(cond_before) == bv[i].1);
            assert(bv[i].1 + branch_exit(bv, i, el) =~= instructions_view(cond@));
            assert(instructions_view(emitted@) =~= instructions_view(before) + seq![
                instruction_view(cond_instruction),
                instruction_view(body_instruction),
            ]);
        }
    } else {
        proof {
            assert(n == 0);
        }
    }
    emitted
}

/// Translates syntax trees to bytecode, naming the labels it creates `L1`, `L2`, ...
#[derive(Debug)]
pub struct Compiler {
    label_counter: usize,
}

impl Compiler {
    /// How many labels the compiler has created.
    pub closed spec fn counter(&self) -> usize {
        self.label_counter
    }

    pub fn new() -> (compiler: Compiler)
        ensures
            compiler.counter() == 0,
    {
        Compiler { label_counter: 0 }
    }

    /// Compiles a program: its statements, one after the other. The compiler handles
    /// definitions, assignments, returns, calls, loops and conditionals, with unary
    /// expressions and the arithmetic and comparison operators.
    pub fn compile(&mut self, ast: Program) -> (code: Vec<Instruction>)
        requires
            fits(c_stmts(ast.statements@, old(self).counter() as nat), old(self).counter()),
        ensures
            emits(
                c_stmts(ast.statements@, old(self).counter() as nat),
                code@,
                old(self).counter(),
                final(self).counter(),
            ),
    {
        self.compile_statements(ast.statements)
    }

    /// The name of the most recently created label.
    fn current_label(&self) -> (label: String)
        ensures
            label@ == label_text(self.counter() as nat),
    {
        proof {
            reveal_strlit("L");
        }
        let mut label = String::from_str("L");
        let digits = decimal_string(self.label_counter);
        label.append(digits.as_str());
        label
    }

    /// Creates a label and returns its name.
    fn new_label(&mut self) -> (label: String)
        requires
            old(self).counter() < usize::MAX,
        ensures
            final(self).counter() == old(self).counter() + 1,
            label@ == label_text(final(self).counter() as nat),
    {
        self.label_counter = self.label_counter + 1;
        self.current_label()
    }

    fn compile_statements(&mut self, statements: Vec<Statement>) -> (code: Vec<Instruction>)
        requires
            fits(c_stmts(statements@, old(self).counter() as nat), old(self).counter()),
        ensures
            emits(c_stmts(statements@, old(self).counter() as nat), code@, old(self).counter(), final(self).counter()),
        decreases statements,
    {
        let ghost ss = statements@;
        let ghost c0 = self.label_counter;
        let mut emitted: Vec<Instruction> = Vec::new();
        assert(ss.take(0) == Seq::<Statement>::empty());
        for statement in it: statements.into_iter()
            invariant
                it.seq() == ss,
                ss == statements@,
                fits(c_stmts(ss, c0 as nat), c0),
                emits(c_stmts(ss.take(it.index() as int), c0 as nat), emitted@, c0, self.counter()),
        {
            let ghost k = it.index();
            proof {
                lemma_stmts_prefix(ss, c0 as nat, k + 1);
                assert(ss.take(k + 1).drop_last() == ss.take(k as int));
                assert(statement == ss[k as int]);
                assert(decreases_to!(statements => statements@));
            }
            let mut code = self.compile_statement(statement);
            proof {
                lemma_instructions_view_add(emitted@, code@);
            }
            emitted.append(&mut code);
        }
        proof {
            assert(ss.take(ss.len() as int) == ss);
        }
        emitted
    }

    fn compile_statement(&mut self, statement: Statement) -> (code: Vec<Instruction>)
        requires
            fits(c_stmt(statement, old(self).counter() as nat), old(self).counter()),
        ensures
            emits(c_stmt(statement, old(self).counter() as nat), code@, old(self).counter(), final(self).counter()),
        decreases statement,
    {
        match statement {
            Statement::VariableDefine(stmt) => self.compile_variable_define(stmt),
            Statement::VariableAssign(stmt) => self.compile_variable_assign(stmt),
            Statement::Return(stmt) => self.compile_return(stmt),
            Statement::Call(expr) => self.compile_call(expr),
            Statement::WhileLoop(stmt) => self.compile_while(stmt),
            Statement::If(stmt) => self.compile_if(stmt),
            _ => {
                proof {
                    assert(false);
                }
                Vec::new()
            },
        }
    }

    fn compile_expression(&mut self, expression: Expression) -> (code: Vec<Instruction>)
        requires
            fits(c_expr(expression, old(self).counter() as nat), old(self).counter()),
        ensures
            emits(c_expr(expression, old(self).counter() as nat), code@, old(self).counter(), final(self).counter()),
        decreases expression,
    {
        match expression {
            Expression::Unary(expr) => self.compile_unary_expr(expr),
            Expression::Binary(expr) => self.compile_binary_expr(expr),
            Expression::Term(expr) => self.compile_term(expr),
            Expression::Empty(_) => {
                proof {
                    assert(false);
                }
                Vec::new()
            },
        }
    }

    fn compile_unary_expr(&mut self, expression: Unary) -> (code: Vec<Instruction>)
        requires
            fits(c_expr(Expression::Unary(expression), old(self).counter() as nat), old(self).counter()),
        ensures
            emits(
                c_expr(Expression::Unary(expression), old(self).counter() as nat),
                code@,
                old(self).counter(),
                final(self).counter(),
            ),
        decreases expression,
    {
        let mut emitted = self.compile_term(expression.operand);
        let op = match expression.operator.0 {
            UnaryOperator::Minus => Instruction::NEG,
            UnaryOperator::Not => Instruction::NOT,
        };
        proof {
            lemma_instructions_view_push(emitted@, op);
        }
        emitted.push(op);
        emitted
    }

    fn compile_binary_expr(&mut self, expression: Binary) -> (code: Vec<Instruction>)
        requires
            fits(c_expr(Expression::Binary(expression), old(self).counter() as nat), old(self).counter()),
        ensures
            emits(
                c_expr(Expression::Binary(expression), old(self).counter() as nat),
                code@,
                old(self).counter(),
                final(self).counter(),
            ),
        decreases expression,
    {
        let Binary { lhs, operator, rhs, position: _ } = expression;
        let mut emitted = self.compile_term(lhs);
        let mut right = self.compile_term(rhs);
        proof {
            lemma_instructions_view_add(emitted@, right@);
        }
        emitted.append(&mut right);
        let op = match operator.0 {
            BinaryOperator::Add => Instruction::ADD,
            BinaryOperator::Subtract => Instruction::SUB,
            BinaryOperator::Multiply => Instruction::MUL,
            BinaryOperator::Divide => Instruction::DIV,
            BinaryOperator::EqEq => Instruction::EQ,
            BinaryOperator::Gt => Instruction::GT,
            BinaryOperator::Lt => Instruction::LT,
            BinaryOperator::Gte => Instruction::GTE,
            BinaryOperator::Lte => Instruction::LTE,
            _ => {
                proof {
                    assert(false);
                }
                Instruction::POP
            },
        };
        proof {
            lemma_instructions_view_push(emitted@, op);
        }
        emitted.push(op);
        emitted
    }

    fn compile_term(&mut self, term: Term) -> (code: Vec<Instruction>)
        requires
            fits(c_term(term, old(self).counter() as nat), old(self).counter()),
        ensures
            emits(c_term(term, old(self).counter() as nat), code@, old(self).counter(), final(self).counter()),
        decreases term,
    {
        match term {
            Term::Call(expr) => self.compile_call(expr),
            Term::Function(func) => self.compile_function(func),
            Term::Literal(lit) => self.compile_literal(lit),
            Term::Identifier(ident, _) => {
                let load = Instruction::LOAD(ident);
                let mut code = Vec::new();
                code.push(load);
                proof {
                    lemma_instructions_view_push(Seq::empty(), load);
                    assert(code@ == Seq::<Instruction>::empty().push(load));
                }
                code
            },
            Term::Expression(expr) => self.compile_expression(*expr),
            _ => {
                proof {
                    assert(false);
                }
                Vec::new()
            },
        }
    }

    fn compile_function(&mut self, function: Function) -> (code: Vec<Instruction>)
        requires
            fits(c_function(function, old(self).counter() as nat), old(self).counter()),
        ensures
            emits(c_function(function, old(self).counter() as nat), code@, old(self).counter(), final(self).counter()),
        decreases function,
    {
        let Function { arguments, statements, position: _ } = function;
        let argc = arguments.len();
        let ghost args = arguments@;
        let mut func_instructions: Vec<Instruction> = Vec::new();
        for argument in it: arguments.into_iter()
            invariant
                it.seq() == args,
                instructions_view(func_instructions@) == stores_code(args.take(it.index() as int)),
        {
            let ghost k = it.index();
            let (arg, _) = argument;
            let store = Instruction::STORE(arg);
            proof {
                lemma_instructions_view_push(func_instructions@, store);
                assert(stores_code(args.take(k + 1)) == stores_code(args.take(k as int)).push(
                    instruction_view(store),
                ));
            }
            func_instructions.push(store);
        }
        proof {
            assert(args.take(args.len() as int) == args);
        }
        let mut body = self.compile_statements(statements);
        proof {
            lemma_instructions_view_add(func_instructions@, body@);
        }
        func_instructions.append(&mut body);
        let newfunc = Instruction::NEWFUNC(argc, func_instructions);
        let mut code = Vec::new();
        code.push(newfunc);
        proof {
            lemma_instructions_view_push(Seq::empty(), newfunc);
            assert(code@ == Seq::<Instruction>::empty().push(newfunc));
        }
        code
    }

    fn compile_literal(&mut self, literal: Literal) -> (code: Vec<Instruction>)
        ensures
            instructions_view(code@) == literal_code(literal),
            final(self).counter() == old(self).counter(),
    {
        let ghost lit = literal;
        let value = match literal {
            Literal::Boolean(lit, _) => Value::Boolean(lit),
            Literal::String(lit, _) => Value::String(lit),
            Literal::Number(lit, _) => Value::Number(lit),
        };
        let push = Instruction::PUSH(value);
        let mut code = Vec::new();
        code.push(push);
        proof {
            lemma_instructions_view_push(Seq::empty(), push);
            assert(code@ == Seq::<Instruction>::empty().push(push));
        }
        code
    }

    /// The code of an optional value, or `PUSH none` in its absence.
    fn compile_optional(&mut self, value: Option<Expression>) -> (code: Vec<Instruction>)
        requires
            fits(c_opt_expr(value, old(self).counter() as nat), old(self).counter()),
        ensures
            emits(c_opt_expr(value, old(self).counter() as nat), code@, old(self).counter(), final(self).counter()),
        decreases value,
    {
        match value {
            Some(expr) => self.compile_expression(expr),
            None => {
                let push = Instruction::PUSH(Value::Empty);
                let mut code = Vec::new();
                code.push(push);
                proof {
                    lemma_instructions_view_push(Seq::empty(), push);
                    assert(code@ == Seq::<Instruction>::empty().push(push));
                }
                code
            },
        }
    }

    fn compile_variable_define(&mut self, statement: VariableDefine) -> (code: Vec<Instruction>)
        requires
            fits(c_stmt(Statement::VariableDefine(statement), old(self).counter() as nat), old(self).counter()),
        ensures
            emits(
                c_stmt(Statement::VariableDefine(statement), old(self).counter() as nat),
                code@,
                old(self).counter(),
                final(self).counter(),
            ),
        decreases statement,
    {
        let VariableDefine { name, value, position: _ } = statement;
        let mut emitted = self.compile_optional(value);
        let store = Instruction::STORE(name.0);
        proof {
            lemma_instructions_view_push(emitted@, store);
        }
        emitted.push(store);
        emitted
    }

    fn compile_variable_assign(&mut self, statement: VariableAssign) -> (code: Vec<Instruction>)
        requires
            fits(c_stmt(Statement::VariableAssign(statement), old(self).counter() as nat), old(self).counter()),
        ensures
            emits(
                c_stmt(Statement::VariableAssign(statement), old(self).counter() as nat),
                code@,
                old(self).counter(),
                final(self).counter(),
            ),
        decreases statement,
    {
        let VariableAssign { name, value, position: _ } = statement;
        let mut emitted = self.compile_expression(value);
        let store = Instruction::STORE(name.0);
        proof {
            lemma_instructions_view_push(emitted@, store);
        }
        emitted.push(store);
        emitted
    }

    fn compile_return(&mut self, statement: Return) -> (code: Vec<Instruction>)
        requires
            fits(c_stmt(Statement::Return(statement), old(self).counter() as nat), old(self).counter()),
        ensures
            emits(
                c_stmt(Statement::Return(statement), old(self).counter() as nat),
                code@,
                old(self).counter(),
                final(self).counter(),
            ),
        decreases statement,
    {
        let mut emitted = self.compile_optional(statement.expression);
        proof {
            lemma_instructions_view_push(emitted@, Instruction::RET);
        }
        emitted.push(Instruction::RET);
        emitted
    }

    /// Compiles expressions one after the other.
    fn compile_expressions(&mut self, expressions: Vec<Expression>) -> (code: Vec<Instruction>)
        requires
            fits(c_exprs(expressions@, old(self).counter() as nat), old(self).counter()),
        ensures
            emits(c_exprs(expressions@, old(self).counter() as nat), code@, old(self).counter(), final(self).counter()),
        decreases expressions,
    {
        let ghost es = expressions@;
        let ghost c0 = self.label_counter;
        let mut emitted: Vec<Instruction> = Vec::new();
        assert(es.take(0) == Seq::<Expression>::empty());
        for expression in it: expressions.into_iter()
            invariant
                it.seq() == es,
                es == expressions@,
                fits(c_exprs(es, c0 as nat), c0),
                emits(c_exprs(es.take(it.index() as int), c0 as nat), emitted@, c0, self.counter()),
        {
            let ghost k = it.index();
            proof {
                lemma_exprs_prefix(es, c0 as nat, k + 1);
                assert(es.take(k + 1).drop_last() == es.take(k as int));
                assert(expression == es[k as int]);
                assert(decreases_to!(expressions => expressions@));
            }
            let mut code = self.compile_expression(expression);
            proof {
                lemma_instructions_view_add(emitted@, code@);
            }
            emitted.append(&mut code);
        }
        proof {
            assert(es.take(es.len() as int) == es);
        }
        emitted
    }

    fn compile_call(&mut self, expression: Call) -> (code: Vec<Instruction>)
        requires
            fits(c_call(expression, old(self).counter() as nat), old(self).counter()),
        ensures
            emits(c_call(expression, old(self).counter() as nat), code@, old(self).counter(), final(self).counter()),
        decreases expression,
    {
        let Call { arguments, function, position: _ } = expression;
        let mut emitted = self.compile_expressions(arguments.0);
        let mut func = self.compile_expression(*function);
        proof {
            lemma_instructions_view_add(emitted@, func@);
        }
        emitted.append(&mut func);
        proof {
            lemma_instructions_view_push(emitted@, Instruction::CALL);
        }
        emitted.push(Instruction::CALL);
        emitted
    }

    fn compile_while(&mut self, statement: WhileLoop) -> (code: Vec<Instruction>)
        requires
            fits(c_while(statement, old(self).counter() as nat), old(self).counter()),
        ensures
            emits(c_while(statement, old(self).counter() as nat), code@, old(self).counter(), final(self).counter()),
        decreases statement,
    {
        let WhileLoop { condition, statements, position: _ } = statement;
        let condition_label = self.new_label();
        let body_label = self.new_label();

        // Condition label: if the condition holds, jump to the body
        let mut condition_insts = self.compile_expression(condition);
        let ghost cond_view = instructions_view(condition_insts@);
        let to_body = Instruction::JT(body_label.clone());
        proof {
            lemma_instructions_view_push(condition_insts@, to_body);
        }
        condition_insts.push(to_body);
        let condition_instruction = label_instruction(condition_label.clone(), condition_insts);

        // Body label: jump back to the condition after each iteration
        let mut body_insts = self.compile_statements(statements);
        let to_condition = Instruction::JMP(condition_label.clone());
        proof {
            lemma_instructions_view_push(body_insts@, to_condition);
        }
        body_insts.push(to_condition);
        let body_instruction = label_instruction(body_label, body_insts);

        // After all labels have been defined, jump to the condition
        let start = Instruction::JMP(condition_label);
        let mut emitted = single(condition_instruction);
        proof {
            lemma_instructions_view_push(emitted@, body_instruction);
            lemma_instructions_view_push(emitted@.push(body_instruction), start);
        }
        emitted.push(body_instruction);
        emitted.push(start);
        proof {
            assert(instructions_view(emitted@) =~= seq![
                instruction_view(condition_instruction),
                instruction_view(body_instruction),
                instruction_view(start),
            ]);
        }
        emitted
    }

    /// Compiles the `elseif` branches one after the other, each into a label for its
    /// condition and one for its body.
    fn compile_elseif_branches(&mut self, branches: Vec<ConditionBranch>) -> (compiled: Vec<CompiledBranch>)
        requires
            c_elifs(branches@, old(self).counter() as nat) matches Some((_, n)) && old(self).counter() + n
                <= usize::MAX,
        ensures
            old(self).counter() <= final(self).counter(),
            c_elifs(branches@, old(self).counter() as nat) == Some(
                (branches_view(compiled@), (final(self).counter() - old(self).counter()) as nat),
            ),
        decreases branches,
    {
        let ghost bs = branches@;
        let ghost c0 = self.label_counter;
        let mut compiled: Vec<CompiledBranch> = Vec::new();
        assert(bs.take(0) == Seq::<ConditionBranch>::empty());
        assert(branches_view(compiled@) == Seq::<BranchCode>::empty());
        for branch in it: branches.into_iter()
            invariant
                it.seq() == bs,
                bs == branches@,
                c_elifs(bs, c0 as nat) matches Some((_, n)) && c0 + n <= usize::MAX,
                c0 <= self.counter(),
                c_elifs(bs.take(it.index() as int), c0 as nat) == Some(
                    (branches_view(compiled@), (self.counter() - c0) as nat),
                ),
        {
            let ghost k = it.index();
            proof {
                lemma_elifs_prefix(bs, c0 as nat, k + 1);
                assert(bs.take(k + 1).drop_last() == bs.take(k as int));
                assert(branch == bs[k as int]);
                assert(decreases_to!(branches => branches@));
                assert(decreases_to!(branches@ => branches@[k as int]));
            }
            let ConditionBranch { condition, statements, position: _ } = branch;
            let cond_label = self.new_label();
            let body_label = self.new_label();
            let cond = self.compile_expression(condition);
            let body = self.compile_statements(statements);
            let ghost before = compiled@;
            compiled.push((cond_label, cond, body_label, body));
            proof {
                assert(branches_view(compiled@) == branches_view(before).push(
                    branch_view(compiled@.last()),
                ));
            }
        }
        proof {
            assert(bs.take(bs.len() as int) == bs);
        }
        compiled
    }

    #[verifier::spinoff_prover]
    #[verifier::rlimit(40)]
    fn compile_if(&mut self, statement: If) -> (code: Vec<Instruction>)
        requires
            fits(c_if(statement, old(self).counter() as nat), old(self).counter()),
        ensures
            emits(c_if(statement, old(self).counter() as nat), code@, old(self).counter(), final(self).counter()),
        decreases statement,
    {
        let ghost c0 = self.label_counter;
        let ghost st = statement;
        let If { condition, statements, elseif_branches, else_branch, position: _ } = statement;

        // Body label
        let body_label = self.new_label();
        let body_insts = self.compile_statements(statements);
        let ghost body_view = instructions_view(body_insts@);
        let mut emitted = single(label_instruction(body_label.clone(), body_insts));

        // Condition label
        let condition_label = self.new_label();
        let mut condition_insts = self.compile_expression(condition);
        let ghost cond_view = instructions_view(condition_insts@);

        let branches = self.compile_elseif_branches(elseif_branches);
        let ghost bv = branches_view(branches@);
        let ghost c3 = self.label_counter;
        let first_branch_cond_label: Option<String> = if branches.len() > 0 {
            Some(branches[0].0.clone())
        } else {
            None
        };

        let else_part: Option<(String, Vec<Instruction>)> = match else_branch {
            Some(branch) => {
                let else_label = self.new_label();
                let else_insts = self.compile_statements(branch.statements);
                Some((else_label, else_insts))
            },
            None => None,
        };

        // The condition jumps to the body if it holds, and otherwise to the first `elseif`
        // branch, or else to the `else` branch
        let exit = match (&else_part, &first_branch_cond_label) {
            (_, Some(first)) => Instruction::JTF(body_label.clone(), first.clone()),
            (Some((else_label, _)), None) => Instruction::JTF(body_label.clone(), else_label.clone()),
            (None, None) => Instruction::JT(body_label.clone()),
        };
        proof {
            lemma_instructions_view_push(condition_insts@, exit);
        }
        condition_insts.push(exit);

        let ghost else_view = match &else_part {
            Some((l, code)) => Some((l@, instructions_view(code@))),
            None => None,
        };
        let ghost emitted_before_else = emitted@;
        let else_label: Option<String> = match &else_part {
            Some((l, _)) => Some(l.clone()),
            None => None,
        };
        // Inserting the `else` branch label
        if let Some((l, insts)) = else_part {
            let else_instruction = label_instruction(l, insts);
            proof {
                lemma_instructions_view_push(emitted@, else_instruction);
            }
            emitted.push(else_instruction);
        }
        // Inserting the `else-if` branch labels
        let mut linked = link_branches(branches, else_label);
        proof {
            lemma_instructions_view_add(emitted@, linked@);
        }
        emitted.append(&mut linked);

        // Inserting the condition label, then jumping to it
        let condition_instruction = label_instruction(condition_label.clone(), condition_insts);
        let start = Instruction::JMP(condition_label);
        proof {
            lemma_instructions_view_push(emitted@, condition_instruction);
            lemma_instructions_view_push(emitted@.push(condition_instruction), start);
        }
        let ghost before_cond = emitted@;
        emitted.push(condition_instruction);
        emitted.push(start);
        proof {
            let c = c0 as nat;
            let n1 = (c_stmts(st.statements@, c + 1)->0).1;
            let n2 = (c_expr(st.condition, c + n1 + 2)->0).1;
            let n3 = (c_elifs(st.elseif_branches@, c + n1 + 2 + n2)->0).1;
            assert(c3 == c + n1 + 2 + n2 + n3);
            assert(c_else(st.else_branch, c3 as nat) == Some(
                (else_view, (self.counter() - c3) as nat),
            ));
            let el = label_view(else_label);
            assert(el == match else_view {
                Some((l, _)) => Some(l),
                None => None,
            });
            assert(instructions_view(condition_insts@) == cond_view + if_exit(
                label_text(c + 1),
                bv,
                el,
            ));
            let else_code = match else_view {
                Some((l, code)) => seq![InstructionView::Label(l, code)],
                None => seq![],
            };
            assert(instructions_view(emitted_before_else) == seq![InstructionView::Label(label_text(c + 1), body_view)]);
            assert(instructions_view(emitted@) =~= instructions_view(before_cond) + seq![
                instruction_view(condition_instruction),
                instruction_view(start),
            ]);
            assert(instructions_view(emitted@) =~= seq![InstructionView::Label(label_text(c + 1), body_view)]
                + else_code + linked_branches(bv, bv.len(), el) + seq![
                InstructionView::Label(label_text(c + n1 + 2), cond_view + if_exit(label_text(c + 1), bv, el)),
                InstructionView::Jmp(label_text(c + n1 + 2)),
            ]);
        }
        emitted
    }
}

/// The name of a label, where `step` is one.
pub open spec fn label_name(step: InstructionView) -> Seq<char> {
    match step {
        InstructionView::Label(name, _) => name,
        _ => Seq::empty(),
    }
}

/// The code of a label, where `step` is one.
pub open spec fn label_code(step: InstructionView) -> Code {
    match step {
        InstructionView::Label(_, code) => code,
        _ => Seq::empty(),
    }
}

/// A conditional with an `else` branch and no `elseif` branch compiles to the label of its
/// body, holding the compiled statements of the body; the label of the `else` branch,
/// holding the compiled statements of that branch; and the label of its condition, whose
/// code ends in a two-way jump to the body where the condition holds and to the `else`
/// branch where it does not; then a jump to the condition. The two labels differ.
pub proof fn lemma_if_else_jumps(s: If, c: nat)
    requires
        c_if(s, c) is Some,
        s.elseif_branches@.len() == 0,
        s.else_branch is Some,
    ensures
        ({
            let code = (c_if(s, c)->0).0;
            let cond = label_code(code[2]);
            &&& code.len() == 4
            &&& code[0] is Label && code[1] is Label && code[2] is Label
            &&& label_code(code[0]) == (c_stmts(s.statements@, c + 1)->0).0
            &&& exists|k: nat|
                label_code(code[1]) == (#[trigger] c_stmts(s.else_branch->0.statements@, k)->0).0
            &&& label_name(code[0]) != label_name(code[1])
            &&& cond.len() > 0
            &&& cond.last() == InstructionView::Jtf(label_name(code[0]), label_name(code[1]))
            &&& code[3] == InstructionView::Jmp(label_name(code[2]))
        }),
{
    let n1 = (c_stmts(s.statements@, c + 1)->0).1;
    let n2 = (c_expr(s.condition, c + n1 + 2)->0).1;
    assert(c_elifs(s.elseif_branches@, c + n1 + 2 + n2) == Some((Seq::<BranchCode>::empty(), 0nat)));
    let k = c + n1 + 2 + n2;
    let b = s.else_branch->0;
    assert(c_stmts(b.statements@, k + 1) is Some);
    lemma_label_text_injective(c + 1, k + 1);
    assert(linked_branches(Seq::<BranchCode>::empty(), 0, Some(label_text(k + 1))) == Seq::<
        InstructionView,
    >::empty());
    let code = (c_if(s, c)->0).0;
    assert(label_code(code[1]) == (c_stmts(b.statements@, k + 1)->0).0);
}

/// A conditional with neither an `elseif` nor an `else` branch compiles to the label of
/// its body, holding the compiled statements of the body, and the label of its condition,
/// whose code ends in a jump to the body where the condition holds; then a jump to the
/// condition.
pub proof fn lemma_if_jumps(s: If, c: nat)
    requires
        c_if(s, c) is Some,
        s.elseif_branches@.len() == 0,
        s.else_branch is None,
    ensures
        ({
            let code = (c_if(s, c)->0).0;
            let cond = label_code(code[1]);
            &&& code.len() == 3
            &&& code[0] is Label && code[1] is Label
            &&& label_code(code[0]) == (c_stmts(s.statements@, c + 1)->0).0
            &&& cond.len() > 0
            &&& cond.last() == InstructionView::Jt(label_name(code[0]))
            &&& code[2] == InstructionView::Jmp(label_name(code[1]))
        }),
{
    let n1 = (c_stmts(s.statements@, c + 1)->0).1;
    let n2 = (c_expr(s.condition, c + n1 + 2)->0).1;
    assert(c_elifs(s.elseif_branches@, c + n1 + 2 + n2) == Some((Seq::<BranchCode>::empty(), 0nat)));
    assert(linked_branches(Seq::<BranchCode>::empty(), 0, None) == Seq::<InstructionView>::empty());
}

/// A loop compiles to the label of its condition, whose code is the compiled condition
/// followed by a jump to the body where it holds; the label of its body, whose code is the
/// compiled statements followed by a jump back to the condition; and a jump to the
/// condition. The two labels differ.
pub proof fn lemma_while_jumps(w: WhileLoop, c: nat)
    requires
        c_while(w, c) is Some,
    ensures
        ({
            let code = (c_while(w, c)->0).0;
            &&& code.len() == 3
            &&& code[0] is Label && code[1] is Label
            &&& label_name(code[0]) != label_name(code[1])
            &&& label_code(code[0]) == (c_expr(w.condition, c + 2)->0).0.push(
                InstructionView::Jt(label_name(code[1])),
            )
            &&& exists|k: nat|
                label_code(code[1]) == (#[trigger] c_stmts(w.statements@, k)->0).0.push(
                    InstructionView::Jmp(label_name(code[0])),
                )
            &&& code[2] == InstructionView::Jmp(label_name(code[0]))
        }),
{
    lemma_label_text_injective(c + 1, c + 2);
    let n1 = (c_expr(w.condition, c + 2)->0).1;
    let code = (c_while(w, c)->0).0;
    assert(label_code(code[1]) == (c_stmts(w.statements@, c + 2 + n1)->0).0.push(
        InstructionView::Jmp(label_name(code[0])),
    ));
}

/// The first `k` linked branches lie two by two: for branch `i`, the label of its
/// condition, whose code ends in the branch's exit, then the label of its body.
proof fn lemma_linked_branches_at(
    branches: Seq<BranchCode>,
    k: nat,
    else_label: Option<Seq<char>>,
    i: int,
)
    requires
        k <= branches.len(),
        0 <= i < k,
    ensures
        linked_branches(branches, k, else_label).len() == 2 * k,
        linked_branches(branches, k, else_label)[2 * i] == InstructionView::Label(
            branches[i].0,
            branches[i].1 + branch_exit(branches, i, else_label),
        ),
        linked_branches(branches, k, else_label)[2 * i + 1] == InstructionView::Label(
            branches[i].2,
            branches[i].3,
        ),
    decreases k,
{
    lemma_linked_branches_len(branches, (k - 1) as nat, else_label);
    if i < k - 1 {
        lemma_linked_branches_at(branches, (k - 1) as nat, else_label, i);
    }
}

/// `k` linked branches take two labels each.
proof fn lemma_linked_branches_len(branches: Seq<BranchCode>, k: nat, else_label: Option<Seq<char>>)
    ensures
        linked_branches(branches, k, else_label).len() == 2 * k,
    decreases k,
{
    if k > 0 {
        lemma_linked_branches_len(branches, (k - 1) as nat, else_label);
    }
}

/// Each compiled `elseif` branch holds the compiled condition and statements of its
/// branch, under two different labels.
proof fn lemma_elifs_parts(bs: Seq<ConditionBranch>, c: nat)
    requires
        c_elifs(bs, c) is Some,
    ensures
        (c_elifs(bs, c)->0).0.len() == bs.len(),
        forall|i: int|
            0 <= i < bs.len() ==> {
                let b = #[trigger] (c_elifs(bs, c)->0).0[i];
                &&& b.0 != b.2
                &&& exists|k: nat| b.1 == (#[trigger] c_expr(bs[i].condition, k)->0).0
                &&& exists|k: nat| b.3 == (#[trigger] c_stmts(bs[i].statements@, k)->0).0
            },
    decreases bs.len(),
{
    if bs.len() > 0 {
        lemma_elifs_parts(bs.drop_last(), c);
        let n1 = (c_elifs(bs.drop_last(), c)->0).1;
        lemma_label_text_injective(c + n1 + 1, c + n1 + 2);
        let n2 = (c_expr(bs.last().condition, c + n1 + 2)->0).1;
        let branches = (c_elifs(bs, c)->0).0;
        let last = bs.len() - 1;
        assert(branches[last].1 == (c_expr(bs[last].condition, c + n1 + 2)->0).0);
        assert(branches[last].3 == (c_stmts(bs[last].statements@, c + n1 + 2 + n2)->0).0);
        assert forall|i: int| 0 <= i < bs.len() implies {
            let b = #[trigger] (c_elifs(bs, c)->0).0[i];
            &&& b.0 != b.2
            &&& exists|k: nat| b.1 == (#[trigger] c_expr(bs[i].condition, k)->0).0
            &&& exists|k: nat| b.3 == (#[trigger] c_stmts(bs[i].statements@, k)->0).0
        } by {
            if i < last {
                assert(bs.drop_last()[i] == bs[i]);
                assert(branches[i] == (c_elifs(bs.drop_last(), c)->0).0[i]);
            }
        }
    }
}

/// How many labels an `else` branch adds to a compiled conditional: one where there is one.
pub open spec fn else_count(s: If) -> int {
    if s.else_branch is Some {
        1
    } else {
        0
    }
}

/// The compiled conditional, laid out: the label of the body, the label of the `else`
/// branch where there is one, the linked `elseif` branches, the label of the condition, and
/// the jump to it.
proof fn lemma_if_layout(s: If, c: nat)
    requires
        c_if(s, c) is Some,
    ensures
        ({
            let n1 = (c_stmts(s.statements@, c + 1)->0).1;
            let n2 = (c_expr(s.condition, c + n1 + 2)->0).1;
            let r = c_elifs(s.elseif_branches@, c + n1 + 2 + n2)->0;
            let els = (c_else(s.else_branch, c + n1 + 2 + n2 + r.1)->0).0;
            let else_label = match els {
                Some((l, _)) => Some(l),
                None => None,
            };
            let code = (c_if(s, c)->0).0;
            let linked = linked_branches(r.0, r.0.len(), else_label);
            &&& r.0.len() == s.elseif_branches@.len()
            &&& code.len() == 3 + else_count(s) + linked.len()
            &&& linked.len() == 2 * r.0.len()
            &&& code[0] == InstructionView::Label(label_text(c + 1), (c_stmts(s.statements@, c + 1)->0).0)
            &&& else_count(s) == 1 ==> code[1] == InstructionView::Label(else_label->0, (els->0).1)
            &&& forall|j: int| 0 <= j < linked.len() ==> #[trigger] code[1 + else_count(s) + j] == linked[j]
            &&& code[1 + else_count(s) + linked.len()] == InstructionView::Label(
                label_text(c + n1 + 2),
                (c_expr(s.condition, c + n1 + 2)->0).0 + if_exit(label_text(c + 1), r.0, else_label),
            )
        }),
{
    let n1 = (c_stmts(s.statements@, c + 1)->0).1;
    let n2 = (c_expr(s.condition, c + n1 + 2)->0).1;
    lemma_elifs_parts(s.elseif_branches@, c + n1 + 2 + n2);
    let r = c_elifs(s.elseif_branches@, c + n1 + 2 + n2)->0;
    let els = (c_else(s.else_branch, c + n1 + 2 + n2 + r.1)->0).0;
    let else_label = match els {
        Some((l, _)) => Some(l),
        None => None,
    };
    lemma_linked_branches_len(r.0, r.0.len(), else_label);
}

/// A conditional with `elseif` branches compiles so that each condition that fails goes
/// on to the next: the condition of the `if` ends in a two-way jump to the body where it
/// holds and to the condition of the first branch otherwise; the condition of each branch
/// but the last ends in a two-way jump to that branch's body and to the next branch's
/// condition; where there is an `else` branch, the condition of the last branch ends in a
/// two-way jump to its body and to the `else` branch. Each branch's labels hold its
/// compiled condition and statements, under two different names.
#[verifier::spinoff_prover]
pub proof fn lemma_elseif_chain(s: If, c: nat)
    requires
        c_if(s, c) is Some,
        s.elseif_branches@.len() > 0,
    ensures
        ({
            let code = (c_if(s, c)->0).0;
            let nb = s.elseif_branches@.len() as int;
            let cond = label_code(code[1 + else_count(s) + 2 * nb]);
            &&& code.len() == 3 + else_count(s) + 2 * nb
            &&& label_code(code[0]) == (c_stmts(s.statements@, c + 1)->0).0
            &&& cond.len() > 0
            &&& cond.last() == InstructionView::Jtf(label_name(code[0]), label_name(code[1 + else_count(s)]))
            &&& forall|i: int|
                0 <= i < nb ==> {
                    &&& (#[trigger] code[1 + else_count(s) + 2 * i]) is Label
                    &&& code[2 + else_count(s) + 2 * i] is Label
                    &&& label_name(code[1 + else_count(s) + 2 * i]) != label_name(code[2 + else_count(s) + 2 * i])
                    &&& exists|k: nat|
                        label_code(code[1 + else_count(s) + 2 * i]).take(
                            (c_expr(s.elseif_branches@[i].condition, k)->0).0.len() as int,
                        ) == (#[trigger] c_expr(s.elseif_branches@[i].condition, k)->0).0
                    &&& exists|k: nat|
                        label_code(code[2 + else_count(s) + 2 * i]) == (#[trigger] c_stmts(
                            s.elseif_branches@[i].statements@,
                            k,
                        )->0).0
                }
            &&& forall|i: int|
                0 <= i < nb - 1 ==> label_code(#[trigger] code[1 + else_count(s) + 2 * i]).last()
                    == InstructionView::Jtf(
                    label_name(code[2 + else_count(s) + 2 * i]),
                    label_name(code[1 + else_count(s) + 2 * (i + 1)]),
                )
            &&& s.else_branch is Some ==> label_code(code[1 + else_count(s) + 2 * (nb - 1)]).last()
                == InstructionView::Jtf(label_name(code[2 + else_count(s) + 2 * (nb - 1)]), label_name(code[1]))
        }),
{
    lemma_if_layout(s, c);
    let n1 = (c_stmts(s.statements@, c + 1)->0).1;
    let n2 = (c_expr(s.condition, c + n1 + 2)->0).1;
    let bs = s.elseif_branches@;
    let nb = bs.len() as int;
    lemma_elifs_parts(bs, c + n1 + 2 + n2);
    let r = c_elifs(bs, c + n1 + 2 + n2)->0;
    let branches = r.0;
    let els = (c_else(s.else_branch, c + n1 + 2 + n2 + r.1)->0).0;
    let else_label: Option<Seq<char>> = match els {
        Some((l, _)) => Some(l),
        None => None,
    };
    let e = else_count(s);
    let code = (c_if(s, c)->0).0;
    let linked = linked_branches(branches, branches.len(), else_label);
    assert(code[1 + e + 2 * nb] == code[1 + e + linked.len()]);
    assert(code[1 + e] == linked[0]);
    lemma_linked_branches_at(branches, branches.len(), else_label, 0);
    assert forall|i: int| 0 <= i < nb implies {
        &&& (#[trigger] code[1 + e + 2 * i]) is Label
        &&& code[2 + e + 2 * i] is Label
        &&& label_name(code[1 + e + 2 * i]) != label_name(code[2 + e + 2 * i])
        &&& exists|k: nat|
            label_code(code[1 + e + 2 * i]).take(
                (c_expr(s.elseif_branches@[i].condition, k)->0).0.len() as int,
            ) == (#[trigger] c_expr(s.elseif_branches@[i].condition, k)->0).0
        &&& exists|k: nat|
            label_code(code[2 + e + 2 * i]) == (#[trigger] c_stmts(
                s.elseif_branches@[i].statements@,
                k,
            )->0).0
    } by {
        lemma_linked_branches_at(branches, branches.len(), else_label, i);
        assert(code[1 + e + 2 * i] == linked[2 * i]);
        assert(code[2 + e + 2 * i] == code[1 + e + (2 * i + 1)]);
        assert(code[2 + e + 2 * i] == linked[2 * i + 1]);
        let b = branches[i];
        assert(b == #[trigger] (c_elifs(bs, c + n1 + 2 + n2)->0).0[i]);
        let k1 = choose|k: nat| b.1 == (#[trigger] c_expr(bs[i].condition, k)->0).0;
        assert((b.1 + branch_exit(branches, i, else_label)).take(b.1.len() as int) =~= b.1);
        assert(label_code(code[1 + e + 2 * i]).take(
            (c_expr(s.elseif_branches@[i].condition, k1)->0).0.len() as int,
        ) == (c_expr(s.elseif_branches@[i].condition, k1)->0).0);
    }
    assert forall|i: int| 0 <= i < nb - 1 implies label_code(#[trigger] code[1 + e + 2 * i]).last()
        == InstructionView::Jtf(label_name(code[2 + e + 2 * i]), label_name(code[1 + e + 2 * (i + 1)])) by {
        lemma_linked_branches_at(branches, branches.len(), else_label, i);
        lemma_linked_branches_at(branches, branches.len(), else_label, i + 1);
        assert(code[1 + e + 2 * i] == linked[2 * i]);
        assert(code[2 + e + 2 * i] == code[1 + e + (2 * i + 1)]);
        assert(code[1 + e + 2 * (i + 1)] == linked[2 * (i + 1)]);
        assert((branches[i].1 + branch_exit(branches, i, else_label)).last() == InstructionView::Jtf(
            branches[i].2,
            branches[i + 1].0,
        ));
    }
    if s.else_branch is Some {
        lemma_linked_branches_at(branches, branches.len(), else_label, nb - 1);
        assert(code[1 + e + 2 * (nb - 1)] == linked[2 * (nb - 1)]);
        assert(code[2 + e + 2 * (nb - 1)] == code[1 + e + (2 * (nb - 1) + 1)]);
    }
}

/// A definition or an assignment compiles to the code of its value, then a store into
/// its name; a return to the code of its value, then `RET`; a call to the code of its
/// arguments in order, then of the function, then `CALL`.
pub proof fn lemma_statement_shapes(st: Statement, c: nat)
    requires
        c_stmt(st, c) is Some,
    ensures
        ({
            let code = (c_stmt(st, c)->0).0;
            &&& st matches Statement::VariableDefine(d) ==> code == (c_opt_expr(d.value, c)->0).0.push(
                InstructionView::Store(d.name.0@),
            )
            &&& st matches Statement::VariableAssign(a) ==> code == (c_expr(a.value, c)->0).0.push(
                InstructionView::Store(a.name.0@),
            )
            &&& st matches Statement::Return(r) ==> code == (c_opt_expr(r.expression, c)->0).0.push(
                InstructionView::Ret,
            )
            &&& st matches Statement::Call(call) ==> code.len() > 0 && code.last() == InstructionView::Call
                && code.take((c_exprs(call.arguments.0@, c)->0).0.len() as int) == (c_exprs(
                call.arguments.0@,
                c,
            )->0).0
        }),
{
    if let Statement::Call(call) = st {
        let args = (c_exprs(call.arguments.0@, c)->0).0;
        let n1 = (c_exprs(call.arguments.0@, c)->0).1;
        let f = (c_expr(*call.function, c + n1)->0).0;
        assert((args + f).push(InstructionView::Call).take(args.len() as int) =~= args);
    }
}

/// A definition without a value stores `none`.
pub proof fn lemma_definition_without_value(d: VariableDefine, c: nat)
    requires
        d.value is None,
    ensures
        c_stmt(Statement::VariableDefine(d), c) == Some(
            (
                seq![
                    InstructionView::Push(ValueView::Empty),
                    InstructionView::Store(d.name.0@),
                ],
                0nat,
            ),
        ),
{
    assert(seq![InstructionView::Push(ValueView::Empty)].push(InstructionView::Store(d.name.0@))
        =~= seq![InstructionView::Push(ValueView::Empty), InstructionView::Store(d.name.0@)]);
}

/// `r` tells how many labels `result` creates from a counter at `c`: `Some` of that number
/// where `result` is defined and the counter can count them, `None` otherwise.
pub open spec fn counted<T>(result: Option<(T, nat)>, c: usize, r: Option<usize>) -> bool {
    match r {
        Some(n) => result matches Some((_, m)) && m == n && c + n <= usize::MAX,
        None => !(result matches Some((_, m)) && c + m <= usize::MAX),
    }
}

/// The machine has an instruction for the binary operator.
fn has_binary_code(op: &BinaryOperator) -> (b: bool)
    ensures
        b == binary_op_code(*op) is Some,
{
    match op {
        BinaryOperator::Add | BinaryOperator::Subtract | BinaryOperator::Multiply
        | BinaryOperator::Divide | BinaryOperator::EqEq | BinaryOperator::Gt | BinaryOperator::Lt
        | BinaryOperator::Gte | BinaryOperator::Lte => true,
        _ => false,
    }
}

/// The labels that compiling an expression creates from a counter at `c`; see [`counted`].
fn labels_expr(e: &Expression, c: usize) -> (r: Option<usize>)
    ensures
        counted(c_expr(*e, c as nat), c, r),
    decreases e,
{
    match e {
        Expression::Unary(u) => labels_term(&u.operand, c),
        Expression::Binary(b) => match labels_term(&b.lhs, c) {
            Some(n1) => match labels_term(&b.rhs, c + n1) {
                Some(n2) => if has_binary_code(&b.operator.0) {
                    Some(n1 + n2)
                } else {
                    None
                },
                None => None,
            },
            None => None,
        },
        Expression::Term(t) => labels_term(t, c),
        Expression::Empty(_) => None,
    }
}

/// The labels that compiling a term creates; see [`counted`].
fn labels_term(t: &Term, c: usize) -> (r: Option<usize>)
    ensures
        counted(c_term(*t, c as nat), c, r),
    decreases t,
{
    match t {
        Term::Call(call) => labels_call(call, c),
        Term::Function(f) => labels_function(f, c),
        Term::Literal(_) => Some(0),
        Term::Identifier(_, _) => Some(0),
        Term::Expression(e) => labels_expr(e, c),
        _ => None,
    }
}

/// The labels that compiling expressions one after the other creates; see [`counted`].
fn labels_exprs(es: &Vec<Expression>, c: usize) -> (r: Option<usize>)
    ensures
        counted(c_exprs(es@, c as nat), c, r),
    decreases es,
{
    let mut total: usize = 0;
    let mut k: usize = 0;
    assert(es@.take(0) == Seq::<Expression>::empty());
    while k < es.len()
        invariant
            k <= es.len(),
            counted(c_exprs(es@.take(k as int), c as nat), c, Some(total)),
        decreases es.len() - k,
    {
        proof {
            assert(es@.take(k + 1).drop_last() == es@.take(k as int));
            assert(es@.take(k + 1).last() == es@[k as int]);
            assert(decreases_to!(es => es@));
        }
        match labels_expr(&es[k], c + total) {
            Some(n) => {
                total = total + n;
            },
            None => {
                proof {
                    if c_exprs(es@, c as nat) is Some {
                        lemma_exprs_prefix(es@, c as nat, k + 1);
                    }
                }
                return None;
            },
        }
        k = k + 1;
    }
    assert(es@.take(k as int) == es@);
    Some(total)
}

/// The labels that compiling a call creates; see [`counted`].
fn labels_call(call: &Call, c: usize) -> (r: Option<usize>)
    ensures
        counted(c_call(*call, c as nat), c, r),
    decreases call,
{
    match labels_exprs(&call.arguments.0, c) {
        Some(n1) => match labels_expr(&call.function, c + n1) {
            Some(n2) => Some(n1 + n2),
            None => None,
        },
        None => None,
    }
}

/// The labels that compiling a function literal creates; see [`counted`].
fn labels_function(f: &Function, c: usize) -> (r: Option<usize>)
    ensures
        counted(c_function(*f, c as nat), c, r),
    decreases f,
{
    labels_stmts(&f.statements, c)
}

/// The labels that compiling statements one after the other creates; see [`counted`].
fn labels_stmts(ss: &Vec<Statement>, c: usize) -> (r: Option<usize>)
    ensures
        counted(c_stmts(ss@, c as nat), c, r),
    decreases ss,
{
    let mut total: usize = 0;
    let mut k: usize = 0;
    assert(ss@.take(0) == Seq::<Statement>::empty());
    while k < ss.len()
        invariant
            k <= ss.len(),
            counted(c_stmts(ss@.take(k as int), c as nat), c, Some(total)),
        decreases ss.len() - k,
    {
        proof {
            assert(ss@.take(k + 1).drop_last() == ss@.take(k as int));
            assert(ss@.take(k + 1).last() == ss@[k as int]);
            assert(decreases_to!(ss => ss@));
        }
        match labels_stmt(&ss[k], c + total) {
            Some(n) => {
                total = total + n;
            },
            None => {
                proof {
                    if c_stmts(ss@, c as nat) is Some {
                        lemma_stmts_prefix(ss@, c as nat, k + 1);
                    }
                }
                return None;
            },
        }
        k = k + 1;
    }
    assert(ss@.take(k as int) == ss@);
    Some(total)
}

/// The labels that compiling an optional value creates; see [`counted`].
fn labels_opt_expr(e: &Option<Expression>, c: usize) -> (r: Option<usize>)
    ensures
        counted(c_opt_expr(*e, c as nat), c, r),
    decreases e,
{
    match e {
        Some(x) => labels_expr(x, c),
        None => Some(0),
    }
}

/// The labels that compiling a statement creates; see [`counted`].
fn labels_stmt(s: &Statement, c: usize) -> (r: Option<usize>)
    ensures
        counted(c_stmt(*s, c as nat), c, r),
    decreases s,
{
    match s {
        Statement::VariableDefine(d) => labels_opt_expr(&d.value, c),
        Statement::VariableAssign(a) => labels_expr(&a.value, c),
        Statement::Return(r) => labels_opt_expr(&r.expression, c),
        Statement::Call(call) => labels_call(call, c),
        Statement::WhileLoop(w) => labels_while(w, c),
        Statement::If(i) => labels_if(i, c),
        _ => None,
    }
}

/// The labels that compiling a loop creates; see [`counted`].
fn labels_while(w: &WhileLoop, c: usize) -> (r: Option<usize>)
    ensures
        counted(c_while(*w, c as nat), c, r),
    decreases w,
{
    if c > usize::MAX - 2 {
        return None;
    }
    match labels_expr(&w.condition, c + 2) {
        Some(n1) => match labels_stmts(&w.statements, c + 2 + n1) {
            Some(n2) => Some(2 + n1 + n2),
            None => None,
        },
        None => None,
    }
}

/// The labels that compiling `elseif` branches creates; see [`counted`].
fn labels_elifs(bs: &Vec<ConditionBranch>, c: usize) -> (r: Option<usize>)
    ensures
        counted(c_elifs(bs@, c as nat), c, r),
    decreases bs,
{
    let mut total: usize = 0;
    let mut k: usize = 0;
    assert(bs@.take(0) == Seq::<ConditionBranch>::empty());
    while k < bs.len()
        invariant
            k <= bs.len(),
            counted(c_elifs(bs@.take(k as int), c as nat), c, Some(total)),
        decreases bs.len() - k,
    {
        proof {
            assert(bs@.take(k + 1).drop_last() == bs@.take(k as int));
            assert(bs@.take(k + 1).last() == bs@[k as int]);
            assert(decreases_to!(bs => bs@));
            if c_elifs(bs@, c as nat) is Some {
                lemma_elifs_prefix(bs@, c as nat, k + 1);
            }
        }
        if c + total > usize::MAX - 2 {
            return None;
        }
        let b = &bs[k];
        let n2 = match labels_expr(&b.condition, c + total + 2) {
            Some(n) => n,
            None => {
                return None;
            },
        };
        let n3 = match labels_stmts(&b.statements, c + total + 2 + n2) {
            Some(n) => n,
            None => {
                return None;
            },
        };
        total = total + 2 + n2 + n3;
        k = k + 1;
    }
    assert(bs@.take(k as int) == bs@);
    Some(total)
}

/// The labels that compiling an optional `else` branch creates; see [`counted`].
fn labels_else(b: &Option<ConditionBranch>, c: usize) -> (r: Option<usize>)
    ensures
        counted(c_else(*b, c as nat), c, r),
    decreases b,
{
    match b {
        Some(branch) => {
            if c == usize::MAX {
                return None;
            }
            match labels_stmts(&branch.statements, c + 1) {
                Some(n) => Some(n + 1),
                None => None,
            }
        },
        None => Some(0),
    }
}

/// The labels that compiling a conditional creates; see [`counted`].
fn labels_if(s: &If, c: usize) -> (r: Option<usize>)
    ensures
        counted(c_if(*s, c as nat), c, r),
    decreases s,
{
    if c == usize::MAX {
        return None;
    }
    let n1 = match labels_stmts(&s.statements, c + 1) {
        Some(n) => n,
        None => {
            return None;
        },
    };
    if c + n1 > usize::MAX - 2 {
        return None;
    }
    let n2 = match labels_expr(&s.condition, c + n1 + 2) {
        Some(n) => n,
        None => {
            return None;
        },
    };
    let n3 = match labels_elifs(&s.elseif_branches, c + n1 + 2 + n2) {
        Some(n) => n,
        None => {
            return None;
        },
    };
    let n4 = match labels_else(&s.else_branch, c + n1 + 2 + n2 + n3) {
        Some(n) => n,
        None => {
            return None;
        },
    };
    Some(n1 + 2 + n2 + n3 + n4)
}

impl Compiler {
    /// Whether [`Compiler::compile`] can compile the program from this compiler's state: the
    /// compiler handles every statement and expression of it, and the labels it creates can
    /// be counted.
    pub fn can_compile(&self, ast: &Program) -> (b: bool)
        ensures
            b == fits(c_stmts(ast.statements@, self.counter() as nat), self.counter()),
    {
        labels_stmts(&ast.statements, self.label_counter).is_some()
    }

    /// Compiles a program where the compiler can compile it; `None` where
    /// [`Compiler::can_compile`] says it cannot, and then the compiler is left as it was.
    pub fn try_compile(&mut self, ast: Program) -> (code: Option<Vec<Instruction>>)
        ensures
            match code {
                Some(code) => emits(
                    c_stmts(ast.statements@, old(self).counter() as nat),
                    code@,
                    old(self).counter(),
                    final(self).counter(),
                ),
                None => !fits(c_stmts(ast.statements@, old(self).counter() as nat), old(self).counter())
                    && final(self).counter() == old(self).counter(),
            },
    {
        if self.can_compile(&ast) {
            Some(self.compile(ast))
        } else {
            None
        }
    }
}

} // verus!
