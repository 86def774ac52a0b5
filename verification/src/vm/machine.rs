//! The stack machine that runs bytecode.
//!
//! The machine decides everything but the work it cannot do itself: arithmetic and
//! comparison on numbers, and the built-in functions, which print. For those, a step hands
//! back an event; whoever drives the machine does that work on the stack and steps on.

use vstd::prelude::*;
use vstd::string::StringExecFns;
use crate::vm::bytecode::{
    Bytecode, Instruction, InstructionView, LABEL, instruction_view, instructions_view,
};
use crate::vm::value::{Intrinsic, Value, ValueView, truthy_view};

verus! {

broadcast use vstd::string::group_string_axioms;

/// A copy of `v`.
pub fn copy_value(v: &Value) -> (c: Value)
    ensures
        c@ == v@,
    decreases v,
{
    match v {
        Value::Boolean(b) => Value::Boolean(*b),
        Value::String(s) => Value::String(s.clone()),
        Value::Number(n) => Value::Number(*n),
        Value::Function { arity, instructions } => Value::Function {
            arity: *arity,
            instructions: copy_instructions(instructions),
        },
        Value::Empty => Value::Empty,
        Value::IntrinsicFunction { arity, intrinsic } => Value::IntrinsicFunction {
            arity: *arity,
            intrinsic: *intrinsic,
        },
    }
}

/// A copy of `i`.
pub fn copy_instruction(i: &Instruction) -> (c: Instruction)
    ensures
        c@ == i@,
    decreases i,
{
    match i {
        Instruction::PUSH(v) => Instruction::PUSH(copy_value(v)),
        Instruction::POP => Instruction::POP,
        Instruction::DUP(n) => Instruction::DUP(*n),
        Instruction::LOAD(s) => Instruction::LOAD(s.clone()),
        Instruction::STORE(s) => Instruction::STORE(s.clone()),
        Instruction::RET => Instruction::RET,
        Instruction::NEWFUNC(n, body) => Instruction::NEWFUNC(*n, copy_instructions(body)),
        Instruction::LABEL(name, body) => Instruction::LABEL(name.clone(), copy_instructions(body)),
        Instruction::CALL => Instruction::CALL,
        Instruction::JMP(s) => Instruction::JMP(s.clone()),
        Instruction::JT(s) => Instruction::JT(s.clone()),
        Instruction::JTF(a, b) => Instruction::JTF(a.clone(), b.clone()),
        Instruction::ADD => Instruction::ADD,
        Instruction::SUB => Instruction::SUB,
        Instruction::MUL => Instruction::MUL,
        Instruction::DIV => Instruction::DIV,
        Instruction::NEG => Instruction::NEG,
        Instruction::NOT => Instruction::NOT,
        Instruction::EQ => Instruction::EQ,
        Instruction::GT => Instruction::GT,
        Instruction::LT => Instruction::LT,
        Instruction::GTE => Instruction::GTE,
        Instruction::LTE => Instruction::LTE,
    }
}

/// A copy of `instructions`.
pub fn copy_instructions(instructions: &Vec<Instruction>) -> (c: Vec<Instruction>)
    ensures
        instructions_view(c@) == instructions_view(instructions@),
    decreases instructions,
{
    let mut c: Vec<Instruction> = Vec::new();
    let mut i: usize = 0;
    while i < instructions.len()
        invariant
            i <= instructions.len(),
            instructions_view(c@) == instructions_view(instructions@.subrange(0, i as int)),
        decreases instructions.len() - i,
    {
        proof {
            assert(decreases_to!(instructions => instructions@));
            assert(decreases_to!(instructions@ => instructions@[i as int]));
        }
        let copy = copy_instruction(&instructions[i]);
        proof {
            crate::vm::bytecode::lemma_instructions_view_push(c@, copy);
            crate::vm::bytecode::lemma_instructions_view_push(
                instructions@.subrange(0, i as int),
                instructions@[i as int],
            );
            assert(instructions@.subrange(0, i as int).push(instructions@[i as int])
                =~= instructions@.subrange(0, i + 1));
        }
        c.push(copy);
        i = i + 1;
    }
    proof {
        assert(instructions@.subrange(0, i as int) =~= instructions@);
    }
    c
}

/// A step of the code the machine runs: an instruction, or a label, which the steps of its
/// code follow in the same sequence.
#[derive(Debug)]
pub enum Step {
    Inst(Instruction),
    Label(String, usize),
}

/// What a step is, with its texts and instructions taken by their views.
pub ghost enum StepView {
    Inst(InstructionView),
    Label(Seq<char>, nat),
}

pub open spec fn step_view(s: Step) -> StepView {
    match s {
        Step::Inst(i) => StepView::Inst(instruction_view(i)),
        Step::Label(name, length) => StepView::Label(name@, length as nat),
    }
}

pub open spec fn steps_view(s: Seq<Step>) -> Seq<StepView> {
    s.map_values(|x: Step| step_view(x))
}

/// The steps of `code`: each label is laid out as a label step that gives the number of
/// steps of its code, followed by those steps; other instructions are steps of their own.
pub open spec fn flat(code: Seq<InstructionView>) -> Seq<StepView>
    decreases code,
{
    if code.len() == 0 {
        seq![]
    } else {
        flat(code.drop_last()) + flat_one(code.last())
    }
}

/// The steps of one instruction.
pub open spec fn flat_one(i: InstructionView) -> Seq<StepView>
    decreases i,
{
    match i {
        InstructionView::Label(name, body) => seq![StepView::Label(name, flat(body).len())]
            + flat(body),
        other => seq![StepView::Inst(other)],
    }
}

/// No step of `code` is a label held as an instruction.
pub open spec fn no_nested_labels(code: Seq<StepView>) -> bool {
    forall|i: int| 0 <= i < code.len() ==> !(#[trigger] code[i] matches StepView::Inst(
        InstructionView::Label(_, _),
    ))
}

/// Laid out code holds no label as an instruction.
pub proof fn lemma_flat_no_nested_labels(code: Seq<InstructionView>)
    ensures
        no_nested_labels(flat(code)),
    decreases code,
{
    if code.len() > 0 {
        lemma_flat_no_nested_labels(code.drop_last());
        lemma_flat_one_no_nested_labels(code.last());
        let a = flat(code.drop_last());
        let b = flat_one(code.last());
        assert forall|i: int| 0 <= i < (a + b).len() implies !(#[trigger] (a + b)[i] matches StepView::Inst(
            InstructionView::Label(_, _),
        )) by {
            if i >= a.len() {
                assert((a + b)[i] == b[i - a.len()]);
            }
        }
    }
}

proof fn lemma_flat_one_no_nested_labels(i: InstructionView)
    ensures
        no_nested_labels(flat_one(i)),
    decreases i,
{
    if let InstructionView::Label(name, body) = i {
        lemma_flat_no_nested_labels(body);
        let a = seq![StepView::Label(name, flat(body).len())];
        let b = flat(body);
        assert forall|k: int| 0 <= k < (a + b).len() implies !(#[trigger] (a + b)[k] matches StepView::Inst(
            InstructionView::Label(_, _),
        )) by {
            if k >= 1 {
                assert((a + b)[k] == b[k - 1]);
            }
        }
    }
}

/// The steps of `code`, as [`flat`] lays them out.
pub fn flatten(code: &Vec<Instruction>) -> (steps: Vec<Step>)
    ensures
        steps_view(steps@) == flat(instructions_view(code@)),
    decreases code,
{
    let mut steps: Vec<Step> = Vec::new();
    let mut i: usize = 0;
    while i < code.len()
        invariant
            i <= code.len(),
            steps_view(steps@) == flat(instructions_view(code@.subrange(0, i as int))),
        decreases code.len() - i,
    {
        proof {
            assert(decreases_to!(code => code@));
            assert(decreases_to!(code@ => code@[i as int]));
            crate::vm::bytecode::lemma_instructions_view_push(
                code@.subrange(0, i as int),
                code@[i as int],
            );
            assert(code@.subrange(0, i as int).push(code@[i as int]) =~= code@.subrange(0, i + 1));
            let v = instructions_view(code@.subrange(0, i + 1));
            assert(v.drop_last() == instructions_view(code@.subrange(0, i as int)));
            assert(v.last() == instruction_view(code@[i as int]));
        }
        let ghost before = steps@;
        match &code[i] {
            Instruction::LABEL(name, body) => {
                let inner = flatten(body);
                steps.push(Step::Label(name.clone(), inner.len()));
                let mut j: usize = 0;
                let ghost mid = steps@;
                while j < inner.len()
                    invariant
                        j <= inner.len(),
                        steps_view(steps@) == steps_view(mid) + steps_view(inner@.subrange(0, j as int)),
                    decreases inner.len() - j,
                {
                    let step = copy_step(&inner[j]);
                    let ghost prev = steps@;
                    steps.push(step);
                    proof {
                        assert(steps@ == prev.push(step));
                        assert(steps_view(steps@) =~= steps_view(prev).push(step_view(step)));
                        assert(steps_view(inner@.subrange(0, j + 1)) =~= steps_view(
                            inner@.subrange(0, j as int),
                        ).push(step_view(inner@[j as int])));
                    }
                    j = j + 1;
                }
                proof {
                    assert(inner@.subrange(0, j as int) =~= inner@);
                    assert(steps_view(steps@) =~= steps_view(before) + flat_one(instruction_view(code@[i as int])));
                }
            },
            other => {
                steps.push(Step::Inst(copy_instruction(other)));
                proof {
                    assert(steps_view(steps@) =~= steps_view(before) + flat_one(instruction_view(code@[i as int])));
                }
            },
        }
        i = i + 1;
    }
    proof {
        assert(code@.subrange(0, i as int) =~= code@);
    }
    steps
}

/// A copy of `s`.
pub fn copy_step(s: &Step) -> (c: Step)
    ensures
        step_view(c) == step_view(*s),
{
    match s {
        Step::Inst(i) => Step::Inst(copy_instruction(i)),
        Step::Label(name, length) => Step::Label(name.clone(), *length),
    }
}

/// A map from names, given as a sequence of named entries with no name twice; where a name
/// were given twice, its last entry would count.
pub open spec fn keyed<V>(entries: Seq<(Seq<char>, V)>) -> Map<Seq<char>, V>
    decreases entries.len(),
{
    if entries.len() == 0 {
        Map::empty()
    } else {
        keyed(entries.drop_last()).insert(entries.last().0, entries.last().1)
    }
}

/// No name is given twice.
pub open spec fn distinct_names<V>(entries: Seq<(Seq<char>, V)>) -> bool {
    forall|i: int, j: int|
        0 <= i < entries.len() && 0 <= j < entries.len() && i != j ==> #[trigger] entries[i].0
            != #[trigger] entries[j].0
}

/// A name is in the map exactly where an entry gives it, with that entry's value.
pub proof fn lemma_keyed_lookup<V>(entries: Seq<(Seq<char>, V)>, i: int)
    requires
        distinct_names(entries),
        0 <= i < entries.len(),
    ensures
        keyed(entries).contains_key(entries[i].0),
        keyed(entries)[entries[i].0] == entries[i].1,
    decreases entries.len(),
{
    if i < entries.len() - 1 {
        lemma_keyed_lookup(entries.drop_last(), i);
    }
}

/// A name that no entry gives is not in the map.
pub proof fn lemma_keyed_absent<V>(entries: Seq<(Seq<char>, V)>, name: Seq<char>)
    requires
        forall|i: int| 0 <= i < entries.len() ==> #[trigger] entries[i].0 != name,
    ensures
        !keyed(entries).contains_key(name),
    decreases entries.len(),
{
    if entries.len() > 0 {
        lemma_keyed_absent(entries.drop_last(), name);
    }
}

/// Giving an entry a new value gives its name that value in the map.
pub proof fn lemma_keyed_update<V>(entries: Seq<(Seq<char>, V)>, i: int, value: V)
    requires
        distinct_names(entries),
        0 <= i < entries.len(),
    ensures
        keyed(entries.update(i, (entries[i].0, value))) == keyed(entries).insert(entries[i].0, value),
    decreases entries.len(),
{
    let updated = entries.update(i, (entries[i].0, value));
    if i == entries.len() - 1 {
        assert(updated.drop_last() =~= entries.drop_last());
        lemma_keyed_absent(entries.drop_last(), entries[i].0);
        assert(keyed(updated) =~= keyed(entries).insert(entries[i].0, value));
    } else {
        lemma_keyed_update(entries.drop_last(), i, value);
        assert(updated.drop_last() =~= entries.drop_last().update(i, (entries[i].0, value)));
        assert(keyed(updated) =~= keyed(entries).insert(entries[i].0, value));
    }
}

/// What the machine reports as an error.
pub ghost enum ErrorView {
    StackEmpty,
    NoValueAt(nat, nat),
    NoBinding(Seq<char>),
    NotCallable(ValueView),
    Arity(nat, nat),
    NoLabel(Seq<char>),
    NotBoolean(ValueView),
    Overflow,
}

/// An operation on two values that the machine leaves to its driver.
#[derive(Debug, Clone, Copy, PartialEq, Eq)]
pub enum Arith {
    Add,
    Sub,
    Mul,
    Div,
    Eq,
    Gt,
    Lt,
    Gte,
    Lte,
}

/// What a step of the machine comes to.
pub ghost enum Outcome {
    /// The machine goes on.
    Next,
    /// The program ended, with the value it returned, if it returned one.
    Finished(Option<ValueView>),
    /// The driver computes the operation on the two values and pushes the result.
    Binary(Arith, ValueView, ValueView),
    /// The driver negates the value and pushes the result.
    Negate(ValueView),
    /// The driver runs the built-in function on the stack.
    Intrinsic(Intrinsic),
    /// The machine stopped with an error.
    Error(ErrorView),
}

/// The state of the machine.
pub ghost struct MachineView {
    pub stack: Seq<ValueView>,
    pub bindings: Map<Seq<char>, ValueView>,
    pub code: Seq<StepView>,
    pub ip: nat,
    pub labels: Map<Seq<char>, (nat, nat)>,
    /// For each call in progress, the code of its caller and where the call stands in it.
    pub frames: Seq<(Seq<StepView>, nat)>,
}

/// The state with the instruction pointer moved to the next step.
pub open spec fn advance(m: MachineView, outcome: Outcome) -> (MachineView, Outcome) {
    (MachineView { ip: m.ip + 1, ..m }, outcome)
}

/// The state with the top value of the stack removed.
pub open spec fn popped(m: MachineView) -> MachineView {
    MachineView { stack: m.stack.drop_last(), ..m }
}

/// The state with `v` pushed on the stack.
pub open spec fn pushed(m: MachineView, v: ValueView) -> MachineView {
    MachineView { stack: m.stack.push(v), ..m }
}

/// A jump to the code of the label `name`.
pub open spec fn jump(m: MachineView, name: Seq<char>) -> (MachineView, Outcome) {
    if m.labels.contains_key(name) {
        (MachineView { ip: m.labels[name].0, ..m }, Outcome::Next)
    } else {
        (m, Outcome::Error(ErrorView::NoLabel(name)))
    }
}

/// `s` with its last `n` elements in reverse order.
pub open spec fn reverse_top<A>(s: Seq<A>, n: nat) -> Seq<A> {
    s.subrange(0, s.len() - n) + s.subrange(s.len() - n, s.len() as int).reverse()
}

/// A call of the value on top of the stack. A function gets its arguments, the values
/// under it, in reverse order, and its code runs; a built-in function is left to the
/// driver.
pub open spec fn call(m: MachineView) -> (MachineView, Outcome) {
    if m.stack.len() == 0 {
        (m, Outcome::Error(ErrorView::StackEmpty))
    } else {
        let callee = m.stack.last();
        let rest = popped(m);
        match callee {
            ValueView::Function { arity, instructions } => if rest.stack.len() < arity {
                (rest, Outcome::Error(ErrorView::Arity(arity as nat, rest.stack.len())))
            } else {
                (
                    MachineView {
                        stack: reverse_top(rest.stack, arity as nat),
                        code: flat(instructions),
                        ip: 0,
                        frames: rest.frames.push((rest.code, rest.ip)),
                        ..rest
                    },
                    Outcome::Next,
                )
            },
            ValueView::IntrinsicFunction { arity, intrinsic } => if arity matches Some(a)
                && rest.stack.len() < a {
                (rest, Outcome::Error(ErrorView::Arity(arity->0 as nat, rest.stack.len())))
            } else {
                advance(rest, Outcome::Intrinsic(intrinsic))
            },
            other => (rest, Outcome::Error(ErrorView::NotCallable(other))),
        }
    }
}

/// Two values popped from the stack for the driver to compute on.
pub open spec fn binary(m: MachineView, op: Arith) -> (MachineView, Outcome) {
    if m.stack.len() < 2 {
        (MachineView { stack: seq![], ..m }, Outcome::Error(ErrorView::StackEmpty))
    } else {
        let rhs = m.stack.last();
        let lhs = m.stack.drop_last().last();
        advance(popped(popped(m)), Outcome::Binary(op, lhs, rhs))
    }
}

/// The value at `index` of the stack pushed on it.
pub open spec fn dup(m: MachineView, index: nat) -> (MachineView, Outcome) {
    if index < m.stack.len() {
        advance(pushed(m, m.stack[index as int]), Outcome::Next)
    } else {
        (m, Outcome::Error(ErrorView::NoValueAt(index, m.stack.len())))
    }
}

/// The value bound to `name` pushed on the stack.
pub open spec fn load(m: MachineView, name: Seq<char>) -> (MachineView, Outcome) {
    if m.bindings.contains_key(name) {
        advance(pushed(m, m.bindings[name]), Outcome::Next)
    } else {
        (m, Outcome::Error(ErrorView::NoBinding(name)))
    }
}

/// The value on top of the stack taken and bound to `name`.
pub open spec fn store(m: MachineView, name: Seq<char>) -> (MachineView, Outcome) {
    if m.stack.len() == 0 {
        (m, Outcome::Error(ErrorView::StackEmpty))
    } else {
        advance(
            MachineView { bindings: m.bindings.insert(name, m.stack.last()), ..popped(m) },
            Outcome::Next,
        )
    }
}

/// A return: the value on top of the stack ends the program where no call is in
/// progress; else it stays on the stack for the caller, whose code goes on after the call.
pub open spec fn ret(m: MachineView) -> (MachineView, Outcome) {
    if m.stack.len() == 0 {
        (m, Outcome::Error(ErrorView::StackEmpty))
    } else if m.frames.len() == 0 {
        advance(popped(m), Outcome::Finished(Some(m.stack.last())))
    } else {
        let f = m.frames.last();
        advance(MachineView { code: f.0, ip: f.1, frames: m.frames.drop_last(), ..m }, Outcome::Next)
    }
}

/// A label met in the code. The first time, the label is registered with its code, which
/// starts at the next step and is skipped. Once the label is registered, the step after
/// the end of its registered code comes next.
pub open spec fn label(m: MachineView, name: Seq<char>, length: nat) -> (MachineView, Outcome) {
    if m.labels.contains_key(name) {
        let end = m.labels[name].0 + m.labels[name].1 + 1;
        if end <= usize::MAX {
            (MachineView { ip: end, ..m }, Outcome::Next)
        } else {
            (m, Outcome::Error(ErrorView::Overflow))
        }
    } else {
        let end = m.ip + 1 + length;
        if end <= usize::MAX {
            (
                MachineView { ip: end, labels: m.labels.insert(name, (m.ip + 1, length)), ..m },
                Outcome::Next,
            )
        } else {
            (m, Outcome::Error(ErrorView::Overflow))
        }
    }
}

/// A jump to the label `name` where the boolean on top of the stack is true.
pub open spec fn jump_if(m: MachineView, name: Seq<char>) -> (MachineView, Outcome) {
    if m.stack.len() == 0 {
        (m, Outcome::Error(ErrorView::StackEmpty))
    } else {
        match m.stack.last() {
            ValueView::Boolean(true) => jump(popped(m), name),
            ValueView::Boolean(false) => advance(popped(m), Outcome::Next),
            other => (popped(m), Outcome::Error(ErrorView::NotBoolean(other))),
        }
    }
}

/// A jump to `if_true` or to `if_false`, by the boolean on top of the stack.
pub open spec fn jump_either(m: MachineView, if_true: Seq<char>, if_false: Seq<char>) -> (
    MachineView,
    Outcome,
) {
    if m.stack.len() == 0 {
        (m, Outcome::Error(ErrorView::StackEmpty))
    } else {
        match m.stack.last() {
            ValueView::Boolean(true) => jump(popped(m), if_true),
            ValueView::Boolean(false) => jump(popped(m), if_false),
            other => (popped(m), Outcome::Error(ErrorView::NotBoolean(other))),
        }
    }
}

/// The value on top of the stack taken for the driver to negate.
pub open spec fn negate(m: MachineView) -> (MachineView, Outcome) {
    if m.stack.len() == 0 {
        (m, Outcome::Error(ErrorView::StackEmpty))
    } else {
        advance(popped(m), Outcome::Negate(m.stack.last()))
    }
}

/// The value on top of the stack replaced by the boolean opposite of its truth.
pub open spec fn not(m: MachineView) -> (MachineView, Outcome) {
    if m.stack.len() == 0 {
        (m, Outcome::Error(ErrorView::StackEmpty))
    } else {
        advance(pushed(popped(m), ValueView::Boolean(!truthy_view(m.stack.last()))), Outcome::Next)
    }
}

/// The step at the instruction pointer, which lies within the code.
pub open spec fn execute(m: MachineView) -> (MachineView, Outcome) {
    match m.code[m.ip as int] {
        StepView::Label(name, length) => label(m, name, length),
        StepView::Inst(i) => match i {
            InstructionView::Push(v) => advance(pushed(m, v), Outcome::Next),
            InstructionView::Pop => if m.stack.len() == 0 {
                (m, Outcome::Error(ErrorView::StackEmpty))
            } else {
                advance(popped(m), Outcome::Next)
            },
            InstructionView::Dup(n) => dup(m, n as nat),
            InstructionView::Load(name) => load(m, name),
            InstructionView::Store(name) => store(m, name),
            InstructionView::Ret => ret(m),
            InstructionView::NewFunc(arity, body) => advance(
                pushed(m, ValueView::Function { arity, instructions: body }),
                Outcome::Next,
            ),
            InstructionView::Label(_, _) => advance(m, Outcome::Next),
            InstructionView::Call => call(m),
            InstructionView::Jmp(name) => jump(m, name),
            InstructionView::Jt(name) => jump_if(m, name),
            InstructionView::Jtf(if_true, if_false) => jump_either(m, if_true, if_false),
            InstructionView::Add => binary(m, Arith::Add),
            InstructionView::Sub => binary(m, Arith::Sub),
            InstructionView::Mul => binary(m, Arith::Mul),
            InstructionView::Div => binary(m, Arith::Div),
            InstructionView::Eq => binary(m, Arith::Eq),
            InstructionView::Gt => binary(m, Arith::Gt),
            InstructionView::Lt => binary(m, Arith::Lt),
            InstructionView::Gte => binary(m, Arith::Gte),
            InstructionView::Lte => binary(m, Arith::Lte),
            InstructionView::Neg => negate(m),
            InstructionView::Not => not(m),
        },
    }
}

/// A step that gave `r` and left the machine in the state `after` went as `t` says: its
/// outcome and the state it leaves, after an error too, are those of `t`.
pub open spec fn went(r: Result<Event, VmError>, after: MachineView, t: (MachineView, Outcome)) -> bool {
    &&& outcome_of(r) == t.1
    &&& after == t.0
}

/// A step of the machine: the step at the instruction pointer; past the end of the code,
/// the return to the caller of the code, or, where no call is in progress, the end of the
/// program.
pub open spec fn transition(m: MachineView) -> (MachineView, Outcome) {
    if m.ip < m.code.len() {
        execute(m)
    } else if m.frames.len() == 0 {
        (m, Outcome::Finished(None))
    } else {
        let f = m.frames.last();
        advance(MachineView { code: f.0, ip: f.1, frames: m.frames.drop_last(), ..m }, Outcome::Next)
    }
}

/// A two-way jump follows its condition: with a boolean on top of the stack, a `JTF`
/// step pops it and moves the instruction pointer to the start of the label named by its
/// first operand where the boolean is true, and of the label named by its second operand
/// where it is false; the rest of the stack, the bindings and the labels stay.
pub proof fn lemma_jtf_follows_condition(
    m: MachineView,
    if_true: Seq<char>,
    if_false: Seq<char>,
    b: bool,
)
    requires
        m.ip < m.code.len(),
        m.code[m.ip as int] == StepView::Inst(InstructionView::Jtf(if_true, if_false)),
        m.stack.len() > 0,
        m.stack.last() == ValueView::Boolean(b),
        m.labels.contains_key(if_true),
        m.labels.contains_key(if_false),
    ensures
        transition(m).1 == Outcome::Next,
        b ==> transition(m).0.ip == m.labels[if_true].0,
        !b ==> transition(m).0.ip == m.labels[if_false].0,
        transition(m).0.stack == m.stack.drop_last(),
        transition(m).0.bindings == m.bindings,
        transition(m).0.labels == m.labels,
        transition(m).0.code == m.code,
{
}

/// A conditional jump follows its condition: with a boolean on top of the stack, a `JT`
/// step pops it and moves to the start of its label where the boolean is true, and on to
/// the next step where it is false.
pub proof fn lemma_jt_follows_condition(m: MachineView, name: Seq<char>, b: bool)
    requires
        m.ip < m.code.len(),
        m.code[m.ip as int] == StepView::Inst(InstructionView::Jt(name)),
        m.stack.len() > 0,
        m.stack.last() == ValueView::Boolean(b),
        m.labels.contains_key(name),
    ensures
        transition(m).1 == Outcome::Next,
        b ==> transition(m).0.ip == m.labels[name].0,
        !b ==> transition(m).0.ip == m.ip + 1,
        transition(m).0.stack == m.stack.drop_last(),
        transition(m).0.labels == m.labels,
{
}

/// A load reads back what a store wrote: storing the value on top of the stack under a
/// name and then loading that name leaves the stack as it was before the store, and
/// bindings of other names are untouched by the store.
pub proof fn lemma_store_then_load(m: MachineView, name: Seq<char>, other: Seq<char>)
    requires
        m.ip < m.code.len(),
        m.code[m.ip as int] == StepView::Inst(InstructionView::Store(name)),
        m.stack.len() > 0,
        m.ip + 1 < m.code.len(),
        m.code[m.ip + 1int] == StepView::Inst(InstructionView::Load(name)),
        other != name,
    ensures
        transition(m).1 == Outcome::Next,
        transition(m).0.bindings[name] == m.stack.last(),
        transition(m).0.bindings.contains_key(other) == m.bindings.contains_key(other),
        transition(m).0.bindings[other] == m.bindings[other],
        transition(transition(m).0).1 == Outcome::Next,
        transition(transition(m).0).0.stack == m.stack,
        transition(transition(m).0).0.ip == m.ip + 2,
{
    assert(m.stack.drop_last().push(m.stack.last()) =~= m.stack);
}

/// A push puts its value on top of the stack, and a pop takes it off again.
pub proof fn lemma_push_then_pop(m: MachineView, v: ValueView)
    requires
        m.ip + 1 < m.code.len(),
        m.code[m.ip as int] == StepView::Inst(InstructionView::Push(v)),
        m.code[m.ip + 1int] == StepView::Inst(InstructionView::Pop),
    ensures
        transition(m).0.stack == m.stack.push(v),
        transition(transition(m).0).0.stack == m.stack,
        transition(transition(m).0).0.ip == m.ip + 2,
{
    assert(m.stack.push(v).drop_last() =~= m.stack);
}

/// A duplication copies the value at the index, counted from the bottom of the stack, to
/// the top.
pub proof fn lemma_dup_copies(m: MachineView, index: usize)
    requires
        m.ip < m.code.len(),
        m.code[m.ip as int] == StepView::Inst(InstructionView::Dup(index)),
        index < m.stack.len(),
    ensures
        transition(m).1 == Outcome::Next,
        transition(m).0.stack.len() == m.stack.len() + 1,
        transition(m).0.stack.last() == m.stack[index as int],
        transition(m).0.stack.drop_last() == m.stack,
{
    assert(m.stack.push(m.stack[index as int]).drop_last() =~= m.stack);
}

/// An unconditional jump moves to the start of its label and changes nothing else.
pub proof fn lemma_jmp_moves(m: MachineView, name: Seq<char>)
    requires
        m.ip < m.code.len(),
        m.code[m.ip as int] == StepView::Inst(InstructionView::Jmp(name)),
        m.labels.contains_key(name),
    ensures
        transition(m).1 == Outcome::Next,
        transition(m).0 == (MachineView { ip: m.labels[name].0, ..m }),
{
}

/// What the machine reports as an error.
#[derive(Debug)]
pub enum VmError {
    /// A value was to be taken from an empty stack.
    StackEmpty,
    /// No value stands at `index` of the stack, which is `len` values long.
    NoValueAt { index: usize, len: usize },
    /// No binding has the name.
    NoBinding(String),
    /// The value is not a function.
    NotCallable(Value),
    /// A function of `expected` arguments was called with `found` values on the stack.
    Arity { expected: usize, found: usize },
    /// No label has the name.
    NoLabel(String),
    /// A condition is not a boolean.
    NotBoolean(Value),
    /// The instruction pointer would pass the largest `usize`.
    Overflow,
}

pub open spec fn error_view(e: VmError) -> ErrorView {
    match e {
        VmError::StackEmpty => ErrorView::StackEmpty,
        VmError::NoValueAt { index, len } => ErrorView::NoValueAt(index as nat, len as nat),
        VmError::NoBinding(name) => ErrorView::NoBinding(name@),
        VmError::NotCallable(v) => ErrorView::NotCallable(v@),
        VmError::Arity { expected, found } => ErrorView::Arity(expected as nat, found as nat),
        VmError::NoLabel(name) => ErrorView::NoLabel(name@),
        VmError::NotBoolean(v) => ErrorView::NotBoolean(v@),
        VmError::Overflow => ErrorView::Overflow,
    }
}

/// What a step of the machine comes to.
#[derive(Debug)]
pub enum Event {
    /// The machine goes on.
    Next,
    /// The program ended, with the value it returned, if it returned one.
    Finished(Option<Value>),
    /// The driver computes `lhs op rhs` and pushes the result.
    Binary(Arith, Value, Value),
    /// The driver negates the value and pushes the result.
    Negate(Value),
    /// The driver runs the built-in function on the stack.
    Intrinsic(Intrinsic),
}

pub open spec fn outcome_of(r: Result<Event, VmError>) -> Outcome {
    match r {
        Ok(Event::Next) => Outcome::Next,
        Ok(Event::Finished(v)) => Outcome::Finished(
            match v {
                Some(x) => Some(x@),
                None => None,
            },
        ),
        Ok(Event::Binary(op, lhs, rhs)) => Outcome::Binary(op, lhs@, rhs@),
        Ok(Event::Negate(v)) => Outcome::Negate(v@),
        Ok(Event::Intrinsic(i)) => Outcome::Intrinsic(i),
        Err(e) => Outcome::Error(error_view(e)),
    }
}

pub open spec fn binding_entries(s: Seq<(String, Value)>) -> Seq<(Seq<char>, ValueView)> {
    s.map_values(|e: (String, Value)| (e.0@, e.1@))
}

pub open spec fn label_entries(s: Seq<LABEL>) -> Seq<(Seq<char>, (nat, nat))> {
    s.map_values(|l: LABEL| (l.name@, (l.start as nat, l.length as nat)))
}

pub open spec fn frames_view(s: Seq<(Vec<Step>, usize)>) -> Seq<(Seq<StepView>, nat)> {
    s.map_values(|f: (Vec<Step>, usize)| (steps_view(f.0@), f.1 as nat))
}

pub open spec fn stack_view(s: Seq<Value>) -> Seq<ValueView> {
    s.map_values(|v: Value| v@)
}

/// A stack machine with named bindings, which runs code laid out in steps.
pub struct VM {
    pub stack: Vec<Value>,
    bindings: Vec<(String, Value)>,
    code: Vec<Step>,
    ip: usize,
    labels: Vec<LABEL>,
    frames: Vec<(Vec<Step>, usize)>,
}

impl View for VM {
    type V = MachineView;

    closed spec fn view(&self) -> MachineView {
        MachineView {
            stack: stack_view(self.stack@),
            bindings: keyed(binding_entries(self.bindings@)),
            code: steps_view(self.code@),
            ip: self.ip as nat,
            labels: keyed(label_entries(self.labels@)),
            frames: frames_view(self.frames@),
        }
    }
}

impl VM {
    /// No binding and no label has its name twice, and the step after each call in progress
    /// can be pointed to.
    pub closed spec fn wf(&self) -> bool {
        &&& distinct_names(binding_entries(self.bindings@))
        &&& distinct_names(label_entries(self.labels@))
        &&& forall|k: int|
            0 <= k < self.frames@.len() ==> #[trigger] self.frames@[k].1 < usize::MAX
    }

    /// Pushes `value` on the stack.
    pub fn execute_push(&mut self, value: Value)
        requires
            old(self).wf(),
        ensures
            final(self).wf(),
            final(self)@ == pushed(old(self)@, value@),
    {
        self.stack.push(value);
        proof {
            assert(stack_view(self.stack@) =~= stack_view(old(self).stack@).push(value@));
        }
    }

    /// Takes the value on top of the stack.
    pub fn execute_pop(&mut self) -> (r: Result<Value, VmError>)
        requires
            old(self).wf(),
        ensures
            final(self).wf(),
            old(self)@.stack.len() == 0 ==> (r matches Err(VmError::StackEmpty) && final(self)@
                == old(self)@),
            old(self)@.stack.len() > 0 ==> (r matches Ok(v) && v@ == old(self)@.stack.last()
                && final(self)@ == popped(old(self)@)),
    {
        match self.stack.pop() {
            Some(v) => {
                proof {
                    assert(stack_view(self.stack@) =~= stack_view(old(self).stack@).drop_last());
                }
                Ok(v)
            },
            None => Err(VmError::StackEmpty),
        }
    }

    /// The number of values on the stack.
    pub fn stack_len(&self) -> (n: usize)
        ensures
            n == self@.stack.len(),
    {
        self.stack.len()
    }
}

impl VM {
    /// Where the binding named `name` stands, if there is one.
    fn find_binding(&self, name: &str) -> (k: Option<usize>)
        ensures
            match k {
                Some(i) => i < self.bindings@.len() && self.bindings@[i as int].0@ == name@,
                None => forall|i: int|
                    0 <= i < self.bindings@.len() ==> #[trigger] self.bindings@[i].0@ != name@,
            },
    {
        let mut i: usize = 0;
        while i < self.bindings.len()
            invariant
                i <= self.bindings@.len(),
                forall|j: int| 0 <= j < i ==> #[trigger] self.bindings@[j].0@ != name@,
            decreases self.bindings@.len() - i,
        {
            if crate::text::str_eq(self.bindings[i].0.as_str(), name) {
                return Some(i);
            }
            i = i + 1;
        }
        None
    }

    /// Where the label named `name` stands, if there is one.
    fn find_label(&self, name: &str) -> (k: Option<usize>)
        ensures
            match k {
                Some(i) => i < self.labels@.len() && self.labels@[i as int].name@ == name@,
                None => forall|i: int|
                    0 <= i < self.labels@.len() ==> #[trigger] self.labels@[i].name@ != name@,
            },
    {
        let mut i: usize = 0;
        while i < self.labels.len()
            invariant
                i <= self.labels@.len(),
                forall|j: int| 0 <= j < i ==> #[trigger] self.labels@[j].name@ != name@,
            decreases self.labels@.len() - i,
        {
            if crate::text::str_eq(self.labels[i].name.as_str(), name) {
                return Some(i);
            }
            i = i + 1;
        }
        None
    }

    /// The value bound to `name`, pushed on the stack.
    fn execute_load(&mut self, name: String) -> (r: Result<Event, VmError>)
        requires
            old(self).wf(),
            old(self)@.ip < usize::MAX,
        ensures
            final(self).wf(),
            went(r, final(self)@, load(old(self)@, name@)),
    {
        match self.find_binding(name.as_str()) {
            Some(k) => {
                let value = copy_value(&self.bindings[k].1);
                proof {
                    lemma_keyed_lookup(binding_entries(self.bindings@), k as int);
                }
                self.stack.push(value);
                self.ip = self.ip + 1;
                proof {
                    assert(stack_view(self.stack@) =~= stack_view(old(self).stack@).push(value@));
                }
                Ok(Event::Next)
            },
            None => {
                proof {
                    let e = binding_entries(self.bindings@);
                    assert forall|i: int| 0 <= i < e.len() implies #[trigger] e[i].0 != name@ by {
                        assert(e[i].0 == self.bindings@[i].0@);
                    }
                    lemma_keyed_absent(e, name@);
                }
                Err(VmError::NoBinding(name))
            },
        }
    }
}

impl VM {
    /// The value on top of the stack, taken and bound to `name`.
    fn execute_store(&mut self, name: String) -> (r: Result<Event, VmError>)
        requires
            old(self).wf(),
            old(self)@.ip < usize::MAX,
        ensures
            final(self).wf(),
            went(r, final(self)@, store(old(self)@, name@)),
    {
        let value = match self.execute_pop() {
            Ok(v) => v,
            Err(e) => return Err(e),
        };
        let ghost entries = binding_entries(self.bindings@);
        match self.find_binding(name.as_str()) {
            Some(k) => {
                proof {
                    lemma_keyed_update(entries, k as int, value@);
                }
                self.bindings[k] = (name, value);
                proof {
                    assert(binding_entries(self.bindings@) =~= entries.update(
                        k as int,
                        (entries[k as int].0, value@),
                    ));
                }
            },
            None => {
                let ghost name_view = name@;
                let ghost value_seen = value@;
                self.bindings.push((name, value));
                proof {
                    assert(binding_entries(self.bindings@) =~= entries.push((name_view, value_seen)));
                    assert(binding_entries(self.bindings@).drop_last() =~= entries);
                }
            },
        }
        self.ip = self.ip + 1;
        Ok(Event::Next)
    }

    /// The value at `index` of the stack, pushed on it.
    fn execute_dup(&mut self, index: usize) -> (r: Result<Event, VmError>)
        requires
            old(self).wf(),
            old(self)@.ip < usize::MAX,
        ensures
            final(self).wf(),
            went(r, final(self)@, dup(old(self)@, index as nat)),
    {
        if index >= self.stack.len() {
            return Err(VmError::NoValueAt { index, len: self.stack.len() });
        }
        let value = copy_value(&self.stack[index]);
        self.stack.push(value);
        self.ip = self.ip + 1;
        proof {
            assert(stack_view(self.stack@) =~= stack_view(old(self).stack@).push(value@));
        }
        Ok(Event::Next)
    }

    /// A label met in the code, with the code of `length` steps that follows it.
    fn execute_label(&mut self, name: String, length: usize) -> (r: Result<Event, VmError>)
        requires
            old(self).wf(),
            old(self)@.ip < usize::MAX,
        ensures
            final(self).wf(),
            went(r, final(self)@, label(old(self)@, name@, length as nat)),
    {
        let ghost entries = label_entries(self.labels@);
        match self.find_label(name.as_str()) {
            Some(k) => {
                proof {
                    lemma_keyed_lookup(entries, k as int);
                }
                let start = self.labels[k].start;
                let length = self.labels[k].length;
                let end = match start.checked_add(length) {
                    Some(e) => e,
                    None => return Err(VmError::Overflow),
                };
                let end = match end.checked_add(1) {
                    Some(e) => e,
                    None => return Err(VmError::Overflow),
                };
                self.ip = end;
                Ok(Event::Next)
            },
            None => {
                proof {
                    assert forall|i: int| 0 <= i < entries.len() implies #[trigger] entries[i].0
                        != name@ by {
                        assert(entries[i].0 == self.labels@[i].name@);
                    }
                    lemma_keyed_absent(entries, name@);
                }
                let start = self.ip + 1;
                let end = match start.checked_add(length) {
                    Some(e) => e,
                    None => return Err(VmError::Overflow),
                };
                let ghost name_view = name@;
                self.labels.push(LABEL { name, start, length });
                self.ip = end;
                proof {
                    assert(label_entries(self.labels@) =~= entries.push(
                        (name_view, (start as nat, length as nat)),
                    ));
                    assert(label_entries(self.labels@).drop_last() =~= entries);
                }
                Ok(Event::Next)
            },
        }
    }

    /// A jump to the code of the label `name`.
    fn execute_jmp(&mut self, name: String) -> (r: Result<Event, VmError>)
        requires
            old(self).wf(),
        ensures
            final(self).wf(),
            went(r, final(self)@, jump(old(self)@, name@)),
    {
        let ghost entries = label_entries(self.labels@);
        match self.find_label(name.as_str()) {
            Some(k) => {
                proof {
                    lemma_keyed_lookup(entries, k as int);
                }
                self.ip = self.labels[k].start;
                Ok(Event::Next)
            },
            None => {
                proof {
                    assert forall|i: int| 0 <= i < entries.len() implies #[trigger] entries[i].0
                        != name@ by {
                        assert(entries[i].0 == self.labels@[i].name@);
                    }
                    lemma_keyed_absent(entries, name@);
                }
                Err(VmError::NoLabel(name))
            },
        }
    }

    /// A jump to `name` where the boolean on top of the stack is true.
    fn execute_jt(&mut self, name: String) -> (r: Result<Event, VmError>)
        requires
            old(self).wf(),
            old(self)@.ip < usize::MAX,
        ensures
            final(self).wf(),
            went(r, final(self)@, jump_if(old(self)@, name@)),
    {
        let condition = match self.execute_pop() {
            Ok(v) => v,
            Err(e) => return Err(e),
        };
        match condition {
            Value::Boolean(true) => self.execute_jmp(name),
            Value::Boolean(false) => {
                self.ip = self.ip + 1;
                Ok(Event::Next)
            },
            other => Err(VmError::NotBoolean(other)),
        }
    }

    /// A jump to `if_true` or to `if_false`, by the boolean on top of the stack.
    fn execute_jtf(&mut self, if_true: String, if_false: String) -> (r: Result<Event, VmError>)
        requires
            old(self).wf(),
        ensures
            final(self).wf(),
            went(r, final(self)@, jump_either(old(self)@, if_true@, if_false@)),
    {
        let condition = match self.execute_pop() {
            Ok(v) => v,
            Err(e) => return Err(e),
        };
        match condition {
            Value::Boolean(true) => self.execute_jmp(if_true),
            Value::Boolean(false) => self.execute_jmp(if_false),
            other => Err(VmError::NotBoolean(other)),
        }
    }

    /// Two values taken from the stack for the driver to compute `lhs op rhs`.
    fn execute_binary(&mut self, op: Arith) -> (r: Result<Event, VmError>)
        requires
            old(self).wf(),
            old(self)@.ip < usize::MAX,
        ensures
            final(self).wf(),
            went(r, final(self)@, binary(old(self)@, op)),
    {
        let rhs = match self.execute_pop() {
            Ok(v) => v,
            Err(e) => {
                proof {
                    assert(self@.stack =~= seq![]);
                }
                return Err(e);
            },
        };
        let lhs = match self.execute_pop() {
            Ok(v) => v,
            Err(e) => {
                proof {
                    assert(self@.stack =~= seq![]);
                }
                return Err(e);
            },
        };
        self.ip = self.ip + 1;
        Ok(Event::Binary(op, lhs, rhs))
    }

    /// The value on top of the stack, taken for the driver to negate.
    fn execute_neg(&mut self) -> (r: Result<Event, VmError>)
        requires
            old(self).wf(),
            old(self)@.ip < usize::MAX,
        ensures
            final(self).wf(),
            went(r, final(self)@, negate(old(self)@)),
    {
        let operand = match self.execute_pop() {
            Ok(v) => v,
            Err(e) => return Err(e),
        };
        self.ip = self.ip + 1;
        Ok(Event::Negate(operand))
    }

    /// The value on top of the stack, replaced by the boolean opposite of its truth.
    fn execute_not(&mut self) -> (r: Result<Event, VmError>)
        requires
            old(self).wf(),
            old(self)@.ip < usize::MAX,
        ensures
            final(self).wf(),
            went(r, final(self)@, not(old(self)@)),
    {
        let operand = match self.execute_pop() {
            Ok(v) => v,
            Err(e) => return Err(e),
        };
        let value = operand.not();
        self.execute_push(value);
        self.ip = self.ip + 1;
        Ok(Event::Next)
    }

    /// A return: the value on top of the stack ends the program where no call is in
    /// progress; else it stays on the stack, and the caller's code goes on after the call.
    fn execute_ret(&mut self) -> (r: Result<Event, VmError>)
        requires
            old(self).wf(),
            old(self)@.ip < usize::MAX,
        ensures
            final(self).wf(),
            went(r, final(self)@, ret(old(self)@)),
    {
        let value = match self.execute_pop() {
            Ok(v) => v,
            Err(e) => return Err(e),
        };
        match self.frames.pop() {
            Some((code, ip)) => {
                proof {
                    assert(frames_view(self.frames@) =~= frames_view(old(self).frames@).drop_last());
                    assert(old(self).frames@.last().1 < usize::MAX);
                }
                self.execute_push(value);
                self.code = code;
                self.ip = ip + 1;
                proof {
                    assert(stack_view(self.stack@) =~= stack_view(old(self).stack@));
                }
                Ok(Event::Next)
            },
            None => {
                self.ip = self.ip + 1;
                Ok(Event::Finished(Some(value)))
            },
        }
    }
}

/// The bindings the machine starts with: its built-in functions.
pub open spec fn intrinsic_bindings() -> Map<Seq<char>, ValueView> {
    map![
        "print"@ => ValueView::IntrinsicFunction { arity: None, intrinsic: Intrinsic::Print },
        "raw_print"@ => ValueView::IntrinsicFunction { arity: Some(1), intrinsic: Intrinsic::RawPrint },
    ]
}

/// The state in which the machine starts on `code`.
pub open spec fn start_state(code: Seq<InstructionView>) -> MachineView {
    MachineView {
        stack: seq![],
        bindings: intrinsic_bindings(),
        code: flat(code),
        ip: 0,
        labels: Map::empty(),
        frames: seq![],
    }
}

/// The built-in functions, by name: `print`, of any number of arguments, and `raw_print`,
/// of one.
pub fn create_intrinsics() -> (entries: Vec<(String, Value)>)
    ensures
        distinct_names(binding_entries(entries@)),
        keyed(binding_entries(entries@)) == intrinsic_bindings(),
{
    proof {
        reveal_strlit("print");
        reveal_strlit("raw_print");
    }
    let mut entries: Vec<(String, Value)> = Vec::new();
    entries.push(
        (
            String::from_str("print"),
            Value::IntrinsicFunction { arity: None, intrinsic: Intrinsic::Print },
        ),
    );
    entries.push(
        (
            String::from_str("raw_print"),
            Value::IntrinsicFunction { arity: Some(1), intrinsic: Intrinsic::RawPrint },
        ),
    );
    proof {
        let e = binding_entries(entries@);
        assert(e.len() == 2);
        assert(e[0].0 == "print"@);
        assert(e[1].0 == "raw_print"@);
        assert(e[0].0.len() != e[1].0.len());
        assert(e.drop_last().drop_last() =~= Seq::<(Seq<char>, ValueView)>::empty());
        reveal_with_fuel(keyed, 3);
        assert(keyed(e) =~= intrinsic_bindings());
    }
    entries
}

impl VM {
    /// A machine at the start of the program `bytecode`, with its built-in functions bound.
    pub fn new(bytecode: Bytecode) -> (r: Result<VM, VmError>)
        ensures
            r matches Ok(vm) && vm.wf() && vm@ == start_state(
                instructions_view(bytecode.spec_instructions()),
            ),
    {
        let instructions = bytecode.into_instructions();
        let code = flatten(&instructions);
        let bindings = create_intrinsics();
        let vm = VM {
            stack: Vec::new(),
            bindings,
            code,
            ip: 0,
            labels: Vec::new(),
            frames: Vec::new(),
        };
        proof {
            assert(stack_view(vm.stack@) =~= seq![]);
            assert(label_entries(vm.labels@) =~= seq![]);
            assert(keyed(label_entries(vm.labels@)) =~= Map::empty());
            assert(frames_view(vm.frames@) =~= seq![]);
        }
        Ok(vm)
    }

    /// A call of the value on top of the stack.
    fn execute_call(&mut self) -> (r: Result<Event, VmError>)
        requires
            old(self).wf(),
            old(self)@.ip < usize::MAX,
        ensures
            final(self).wf(),
            went(r, final(self)@, call(old(self)@)),
    {
        let callee = match self.execute_pop() {
            Ok(v) => v,
            Err(e) => return Err(e),
        };
        match callee {
            Value::Function { arity, instructions } => {
                if self.stack.len() < arity {
                    return Err(VmError::Arity { expected: arity, found: self.stack.len() });
                }
                let ghost before = self.stack@;
                let ghost mid = *self;
                let ghost len = before.len();
                let mut reversed: Vec<Value> = Vec::new();
                let mut n: usize = 0;
                while n < arity
                    invariant
                        n <= arity,
                        arity <= len,
                        len == before.len(),
                        self.stack@ == before.subrange(0, len - n),
                        reversed@.len() == n,
                        forall|j: int| 0 <= j < n ==> #[trigger] reversed@[j] == before[len - 1 - j],
                        self.bindings == mid.bindings,
                        self.code == mid.code,
                        self.ip == mid.ip,
                        self.labels == mid.labels,
                        self.frames == mid.frames,
                    decreases arity - n,
                {
                    let v = match self.stack.pop() {
                        Some(v) => v,
                        None => return Err(VmError::StackEmpty),
                    };
                    reversed.push(v);
                    n = n + 1;
                }
                let ghost rev = reversed@;
                self.stack.append(&mut reversed);
                proof {
                    let top = stack_view(before).subrange(len - arity, len as int);
                    assert(stack_view(self.stack@) =~= reverse_top(stack_view(before), arity as nat)) by {
                        assert(self.stack@ == before.subrange(0, len - arity) + rev);
                        if arity > 0 {
                            assert forall|j: int| 0 <= j < arity implies #[trigger] top.reverse()[j]
                                == rev[j]@ by {
                                assert(top.reverse()[j] == top[arity - 1 - j]);
                            }
                        } else {
                            assert(top =~= Seq::<ValueView>::empty());
                        }
                    }
                }
                let mut code = flatten(&instructions);
                std::mem::swap(&mut self.code, &mut code);
                let ip = self.ip;
                self.frames.push((code, ip));
                self.ip = 0;
                proof {
                    assert(frames_view(self.frames@) =~= frames_view(old(self).frames@).push(
                        (steps_view(code@), ip as nat),
                    ));
                }
                Ok(Event::Next)
            },
            Value::IntrinsicFunction { arity, intrinsic } => {
                if let Some(a) = arity {
                    if self.stack.len() < a {
                        return Err(VmError::Arity { expected: a, found: self.stack.len() });
                    }
                }
                self.ip = self.ip + 1;
                Ok(Event::Intrinsic(intrinsic))
            },
            other => Err(VmError::NotCallable(other)),
        }
    }

    /// Takes a step: the step at the instruction pointer; past the end of the code, the
    /// return to the caller of the code, or, where no call is in progress, the end of the
    /// program.
    pub fn step(&mut self) -> (r: Result<Event, VmError>)
        requires
            old(self).wf(),
        ensures
            final(self).wf(),
            went(r, final(self)@, transition(old(self)@)),
    {
        if self.ip >= self.code.len() {
            return match self.frames.pop() {
                Some((code, ip)) => {
                    proof {
                        assert(frames_view(self.frames@) =~= frames_view(old(self).frames@).drop_last());
                        assert(old(self).frames@.last().1 < usize::MAX);
                    }
                    self.code = code;
                    self.ip = ip + 1;
                    Ok(Event::Next)
                },
                None => Ok(Event::Finished(None)),
            };
        }
        let current = copy_step(&self.code[self.ip]);
        proof {
            assert(step_view(current) == self@.code[self.ip as int]);
        }
        match current {
            Step::Label(name, length) => self.execute_label(name, length),
            Step::Inst(inst) => match inst {
                Instruction::PUSH(v) => {
                    self.execute_push(v);
                    self.ip = self.ip + 1;
                    Ok(Event::Next)
                },
                Instruction::POP => match self.execute_pop() {
                    Ok(_) => {
                        self.ip = self.ip + 1;
                        Ok(Event::Next)
                    },
                    Err(e) => Err(e),
                },
                Instruction::DUP(index) => self.execute_dup(index),
                Instruction::LOAD(name) => self.execute_load(name),
                Instruction::STORE(name) => self.execute_store(name),
                Instruction::RET => self.execute_ret(),
                Instruction::NEWFUNC(arity, instructions) => {
                    self.execute_push(Value::Function { arity, instructions });
                    self.ip = self.ip + 1;
                    Ok(Event::Next)
                },
                Instruction::LABEL(_, _) => {
                    self.ip = self.ip + 1;
                    Ok(Event::Next)
                },
                Instruction::CALL => self.execute_call(),
                Instruction::JMP(name) => self.execute_jmp(name),
                Instruction::JT(name) => self.execute_jt(name),
                Instruction::JTF(if_true, if_false) => self.execute_jtf(if_true, if_false),
                Instruction::ADD => self.execute_binary(Arith::Add),
                Instruction::SUB => self.execute_binary(Arith::Sub),
                Instruction::MUL => self.execute_binary(Arith::Mul),
                Instruction::DIV => self.execute_binary(Arith::Div),
                Instruction::EQ => self.execute_binary(Arith::Eq),
                Instruction::GT => self.execute_binary(Arith::Gt),
                Instruction::LT => self.execute_binary(Arith::Lt),
                Instruction::GTE => self.execute_binary(Arith::Gte),
                Instruction::LTE => self.execute_binary(Arith::Lte),
                Instruction::NEG => self.execute_neg(),
                Instruction::NOT => self.execute_not(),
            },
        }
    }
}

} // verus!
