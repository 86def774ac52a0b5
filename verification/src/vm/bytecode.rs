use vstd::prelude::*;
use crate::vm::value::{Value, ValueView, value_view};

verus! {

/// An instruction of the stack machine. Labels and function bodies hold the instructions
/// they stand for.
#[derive(Debug)]
pub enum Instruction {
    PUSH(Value),
    POP,
    DUP(usize),
    LOAD(String),
    STORE(String),
    RET,
    NEWFUNC(usize, Vec<Instruction>),
    LABEL(String, Vec<Instruction>),
    CALL,
    /// Unconditional jump
    JMP(String),
    /// Jump if true
    JT(String),
    /// Jump to `0` if true, otherwise jump to `1`
    JTF(String, String),
    ADD,
    SUB,
    MUL,
    DIV,
    NEG,
    NOT,
    EQ,
    GT,
    LT,
    GTE,
    LTE,
}

/// What an instruction is, with its texts, values and nested code taken by their views.
pub ghost enum InstructionView {
    Push(ValueView),
    Pop,
    Dup(usize),
    Load(Seq<char>),
    Store(Seq<char>),
    Ret,
    NewFunc(usize, Seq<InstructionView>),
    Label(Seq<char>, Seq<InstructionView>),
    Call,
    Jmp(Seq<char>),
    Jt(Seq<char>),
    Jtf(Seq<char>, Seq<char>),
    Add,
    Sub,
    Mul,
    Div,
    Neg,
    Not,
    Eq,
    Gt,
    Lt,
    Gte,
    Lte,
}

pub open spec fn instruction_view(i: Instruction) -> InstructionView
    decreases i,
{
    match i {
        Instruction::PUSH(v) => InstructionView::Push(value_view(v)),
        Instruction::POP => InstructionView::Pop,
        Instruction::DUP(n) => InstructionView::Dup(n),
        Instruction::LOAD(s) => InstructionView::Load(s@),
        Instruction::STORE(s) => InstructionView::Store(s@),
        Instruction::RET => InstructionView::Ret,
        Instruction::NEWFUNC(n, body) => {
            proof {
                assert(decreases_to!(i => body));
            }
            InstructionView::NewFunc(n, instructions_view(body@))
        },
        Instruction::LABEL(name, body) => {
            proof {
                assert(decreases_to!(i => body));
            }
            InstructionView::Label(name@, instructions_view(body@))
        },
        Instruction::CALL => InstructionView::Call,
        Instruction::JMP(s) => InstructionView::Jmp(s@),
        Instruction::JT(s) => InstructionView::Jt(s@),
        Instruction::JTF(a, b) => InstructionView::Jtf(a@, b@),
        Instruction::ADD => InstructionView::Add,
        Instruction::SUB => InstructionView::Sub,
        Instruction::MUL => InstructionView::Mul,
        Instruction::DIV => InstructionView::Div,
        Instruction::NEG => InstructionView::Neg,
        Instruction::NOT => InstructionView::Not,
        Instruction::EQ => InstructionView::Eq,
        Instruction::GT => InstructionView::Gt,
        Instruction::LT => InstructionView::Lt,
        Instruction::GTE => InstructionView::Gte,
        Instruction::LTE => InstructionView::Lte,
    }
}

pub open spec fn instructions_view(s: Seq<Instruction>) -> Seq<InstructionView>
    decreases s,
{
    if s.len() == 0 {
        seq![]
    } else {
        instructions_view(s.drop_last()).push(instruction_view(s.last()))
    }
}

impl View for Instruction {
    type V = InstructionView;

    open spec fn view(&self) -> InstructionView {
        instruction_view(*self)
    }
}

/// Appending an instruction appends its view.
pub proof fn lemma_instructions_view_push(s: Seq<Instruction>, i: Instruction)
    ensures
        instructions_view(s.push(i)) == instructions_view(s).push(instruction_view(i)),
{
    assert(s.push(i).drop_last() == s);
}

/// The view of a concatenation is the concatenation of the views.
pub proof fn lemma_instructions_view_add(a: Seq<Instruction>, b: Seq<Instruction>)
    ensures
        instructions_view(a + b) == instructions_view(a) + instructions_view(b),
    decreases b.len(),
{
    if b.len() == 0 {
        assert(a + b == a);
    } else {
        lemma_instructions_view_add(a, b.drop_last());
        assert((a + b).drop_last() == a + b.drop_last());
    }
}

/// A view sequence is as long as the instructions it views.
pub proof fn lemma_instructions_view_len(s: Seq<Instruction>)
    ensures
        instructions_view(s).len() == s.len(),
    decreases s.len(),
{
    if s.len() > 0 {
        lemma_instructions_view_len(s.drop_last());
    }
}

/// A label registered by the machine: the code `length` instructions long that begins at
/// `start`.
#[derive(Debug, Clone)]
pub struct LABEL {
    pub name: String,
    pub start: usize,
    pub length: usize,
}

impl LABEL {
    /// Where the label's code ends.
    pub fn end(&self) -> (end: usize)
        requires
            self.start + self.length <= usize::MAX,
        ensures
            end == self.start + self.length,
    {
        self.start + self.length
    }
}

/// A compiled program.
#[derive(Debug)]
pub struct Bytecode {
    pub(crate) instructions: Vec<Instruction>,
}

impl Bytecode {
    pub closed spec fn spec_instructions(&self) -> Seq<Instruction> {
        self.instructions@
    }

    pub fn new(instructions: Vec<Instruction>) -> (code: Bytecode)
        ensures
            code.spec_instructions() == instructions@,
    {
        Bytecode { instructions }
    }

    /// The instructions of the program, in order, borrowed.
    pub fn instructions(&self) -> (code: &Vec<Instruction>)
        ensures
            code@ == self.spec_instructions(),
    {
        &self.instructions
    }

    /// The instructions of the program, in order.
    pub fn into_instructions(self) -> (instructions: Vec<Instruction>)
        ensures
            instructions@ == self.spec_instructions(),
    {
        self.instructions
    }
}

} // verus!
