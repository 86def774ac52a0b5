use vstd::prelude::*;
use vstd::string::StringExecFns;
use crate::vm::bytecode::{Instruction, InstructionView, instructions_view};
use crate::vm::machine::Arith;

verus! {

/// A built-in function of the machine.
#[derive(Debug, Clone, Copy, PartialEq, Eq)]
pub enum Intrinsic {
    /// Prints its arguments, whose count is passed as the last argument.
    Print,
    /// Prints its one argument without a line break.
    RawPrint,
}

/// A value of the language. A number is held as the bit pattern of its IEEE 754
/// double-precision value.
#[derive(Debug)]
pub enum Value {
    Boolean(bool),
    String(String),
    Number(u64),
    Function { arity: usize, instructions: Vec<Instruction> },
    Empty,
    IntrinsicFunction { arity: Option<usize>, intrinsic: Intrinsic },
}

/// What a value is, with its texts and code taken by their views.
pub ghost enum ValueView {
    Boolean(bool),
    String(Seq<char>),
    Number(u64),
    Function { arity: usize, instructions: Seq<InstructionView> },
    Empty,
    IntrinsicFunction { arity: Option<usize>, intrinsic: Intrinsic },
}

pub open spec fn value_view(v: Value) -> ValueView
    decreases v,
{
    match v {
        Value::Boolean(b) => ValueView::Boolean(b),
        Value::String(s) => ValueView::String(s@),
        Value::Number(n) => ValueView::Number(n),
        Value::Function { arity, instructions } => {
            proof {
                assert(decreases_to!(v => instructions));
            }
            ValueView::Function { arity, instructions: instructions_view(instructions@) }
        },
        Value::Empty => ValueView::Empty,
        Value::IntrinsicFunction { arity, intrinsic } => ValueView::IntrinsicFunction {
            arity,
            intrinsic,
        },
    }
}

impl View for Value {
    type V = ValueView;

    open spec fn view(&self) -> ValueView {
        value_view(*self)
    }
}

/// The bits of a double-precision number other than its sign are not all zero: the number
/// is neither `0.0` nor `-0.0`.
pub open spec fn is_nonzero_number(bits: u64) -> bool {
    bits & 0x7fff_ffff_ffff_ffff != 0
}

/// Whether a value counts as true in a condition.
pub open spec fn truthy_view(v: ValueView) -> bool {
    match v {
        ValueView::Boolean(b) => b,
        ValueView::Number(bits) => is_nonzero_number(bits),
        ValueView::String(s) => s.len() > 0,
        ValueView::Function { .. } => true,
        ValueView::IntrinsicFunction { .. } => true,
        ValueView::Empty => false,
    }
}

impl Value {
    /// Whether a value counts as true in a condition.
    pub open spec fn spec_truthy(self) -> bool {
        match self {
            Value::Boolean(b) => b,
            Value::Number(bits) => is_nonzero_number(bits),
            Value::String(s) => s@.len() > 0,
            Value::Function { .. } => true,
            Value::IntrinsicFunction { .. } => true,
            Value::Empty => false,
        }
    }

    /// Whether the value counts as true in a condition: `true`, a number other than zero, a
    /// text that is not empty, or a function.
    pub fn truthy(&self) -> (t: bool)
        ensures
            t == self.spec_truthy(),
    {
        match self {
            Value::Boolean(v) => *v,
            Value::Number(v) => *v & 0x7fff_ffff_ffff_ffff != 0,
            Value::String(v) => !v.as_str().is_empty(),
            Value::Function { .. } => true,
            Value::IntrinsicFunction { .. } => true,
            Value::Empty => false,
        }
    }

    /// The boolean opposite of the value's truth.
    pub fn not(self) -> (v: Value)
        ensures
            v == Value::Boolean(!self.spec_truthy()),
    {
        Value::Boolean(!self.truthy())
    }
}

/// The text of a boolean, as `+` writes it after a text.
pub open spec fn bool_text(b: bool) -> Seq<char> {
    if b {
        "true"@
    } else {
        "false"@
    }
}

/// What `lhs + rhs` gives where no number is read: a text followed by a text, or by a
/// boolean in words, joins the two; any other pair of operands is not such a case.
pub open spec fn spec_add_texts(lhs: ValueView, rhs: ValueView) -> Option<Seq<char>> {
    match (lhs, rhs) {
        (ValueView::String(l), ValueView::String(r)) => Some(l + r),
        (ValueView::String(l), ValueView::Boolean(b)) => Some(l + bool_text(b)),
        _ => None,
    }
}

/// `lhs + rhs` where `lhs` is a text and `rhs` a text or a boolean: the text of `lhs`
/// followed by that of `rhs`. For other operands, which need a number's text or are refused,
/// it gives `None`.
pub fn add_texts(lhs: &Value, rhs: &Value) -> (r: Option<Value>)
    ensures
        match spec_add_texts(lhs@, rhs@) {
            Some(t) => r matches Some(v) && v@ == ValueView::String(t),
            None => r is None,
        },
{
    match (lhs, rhs) {
        (Value::String(l), Value::String(r)) => {
            let mut joined = l.clone();
            joined.append(r.as_str());
            Some(Value::String(joined))
        },
        (Value::String(l), Value::Boolean(b)) => {
            let mut joined = l.clone();
            if *b {
                joined.append("true");
            } else {
                joined.append("false");
            }
            proof {
                reveal_strlit("true");
                reveal_strlit("false");
            }
            Some(Value::String(joined))
        },
        _ => None,
    }
}

/// What `lhs op rhs` comes to before any number is computed with.
#[derive(Debug)]
pub enum BinaryWork {
    /// The result, found without computing with a number.
    Done(Value),
    /// The operator applied to two numbers, given by their bits.
    Numbers(u64, u64),
    /// A text followed by the text of a number, given by its bits.
    TextThenNumber(String, u64),
    /// Whether two functions are equal, down to the numbers in their code.
    SameFunctions,
    /// The operator does not take these operands.
    Refused,
}

/// What `lhs op rhs` comes to, with texts and code taken by their views.
pub ghost enum BinaryWorkView {
    Done(ValueView),
    Numbers(u64, u64),
    TextThenNumber(Seq<char>, u64),
    SameFunctions,
    Refused,
}

impl View for BinaryWork {
    type V = BinaryWorkView;

    open spec fn view(&self) -> BinaryWorkView {
        match self {
            BinaryWork::Done(v) => BinaryWorkView::Done(v@),
            BinaryWork::Numbers(a, b) => BinaryWorkView::Numbers(*a, *b),
            BinaryWork::TextThenNumber(s, b) => BinaryWorkView::TextThenNumber(s@, *b),
            BinaryWork::SameFunctions => BinaryWorkView::SameFunctions,
            BinaryWork::Refused => BinaryWorkView::Refused,
        }
    }
}

/// Two values are equal, where neither holds a number or code: of one kind, and with
/// equal contents. `None` where that takes a number or code.
pub open spec fn spec_equal_without_numbers(lhs: ValueView, rhs: ValueView) -> Option<bool> {
    match (lhs, rhs) {
        (ValueView::Number(_), ValueView::Number(_)) => None,
        (ValueView::Function { .. }, ValueView::Function { .. }) => None,
        (ValueView::Boolean(a), ValueView::Boolean(b)) => Some(a == b),
        (ValueView::String(a), ValueView::String(b)) => Some(a == b),
        (ValueView::Empty, ValueView::Empty) => Some(true),
        (
            ValueView::IntrinsicFunction { arity: a1, intrinsic: i1 },
            ValueView::IntrinsicFunction { arity: a2, intrinsic: i2 },
        ) => Some(a1 == a2 && i1 == i2),
        _ => Some(false),
    }
}

/// What `lhs op rhs` comes to: `+` joins texts, and a text with a boolean in words;
/// arithmetic and order take two numbers; `==` compares values of one kind and finds
/// values of two kinds unequal. Any other pair of operands is refused.
pub open spec fn spec_binary_work(op: Arith, lhs: ValueView, rhs: ValueView) -> BinaryWorkView {
    match (lhs, rhs) {
        (ValueView::Number(a), ValueView::Number(b)) => BinaryWorkView::Numbers(a, b),
        _ => match op {
            Arith::Add => match (lhs, rhs) {
                (ValueView::String(s), ValueView::Number(b)) => BinaryWorkView::TextThenNumber(s, b),
                _ => match spec_add_texts(lhs, rhs) {
                    Some(t) => BinaryWorkView::Done(ValueView::String(t)),
                    None => BinaryWorkView::Refused,
                },
            },
            Arith::Eq => match spec_equal_without_numbers(lhs, rhs) {
                Some(b) => BinaryWorkView::Done(ValueView::Boolean(b)),
                None => BinaryWorkView::SameFunctions,
            },
            _ => BinaryWorkView::Refused,
        },
    }
}

/// Whether two built-in functions are the same one.
fn same_intrinsic(a: Intrinsic, b: Intrinsic) -> (r: bool)
    ensures
        r == (a == b),
{
    match (a, b) {
        (Intrinsic::Print, Intrinsic::Print) => true,
        (Intrinsic::RawPrint, Intrinsic::RawPrint) => true,
        _ => false,
    }
}

/// Whether two optional counts are equal.
fn same_count(a: Option<usize>, b: Option<usize>) -> (r: bool)
    ensures
        r == (a == b),
{
    match (a, b) {
        (Some(x), Some(y)) => x == y,
        (None, None) => true,
        _ => false,
    }
}

/// What `lhs op rhs` comes to before any number is computed with; see
/// [`spec_binary_work`].
pub fn binary_work(op: Arith, lhs: &Value, rhs: &Value) -> (w: BinaryWork)
    ensures
        w@ == spec_binary_work(op, lhs@, rhs@),
{
    if let (Value::Number(a), Value::Number(b)) = (lhs, rhs) {
        return BinaryWork::Numbers(*a, *b);
    }
    match op {
        Arith::Add => {
            if let (Value::String(s), Value::Number(b)) = (lhs, rhs) {
                return BinaryWork::TextThenNumber(s.clone(), *b);
            }
            match add_texts(lhs, rhs) {
                Some(v) => BinaryWork::Done(v),
                None => BinaryWork::Refused,
            }
        },
        Arith::Eq => {
            let equal = match (lhs, rhs) {
                (Value::Function { .. }, Value::Function { .. }) => {
                    return BinaryWork::SameFunctions;
                },
                (Value::Boolean(a), Value::Boolean(b)) => *a == *b,
                (Value::String(a), Value::String(b)) => *a == *b,
                (Value::Empty, Value::Empty) => true,
                (
                    Value::IntrinsicFunction { arity: a1, intrinsic: i1 },
                    Value::IntrinsicFunction { arity: a2, intrinsic: i2 },
                ) => same_count(*a1, *a2) && same_intrinsic(*i1, *i2),
                _ => false,
            };
            BinaryWork::Done(Value::Boolean(equal))
        },
        _ => BinaryWork::Refused,
    }
}

/// Equality without numbers is reflexive: a boolean, a text, none or a built-in function
/// equals itself.
pub proof fn lemma_equal_reflexive(v: ValueView)
    requires
        !(v is Number),
        !(v is Function),
    ensures
        spec_binary_work(Arith::Eq, v, v) == BinaryWorkView::Done(ValueView::Boolean(true)),
{
}

/// Equality is symmetric: where the two values are not both numbers, whose order the
/// driver keeps, `a == b` and `b == a` come to the same.
pub proof fn lemma_equal_symmetric(a: ValueView, b: ValueView)
    requires
        !(a is Number && b is Number),
    ensures
        spec_binary_work(Arith::Eq, a, b) == spec_binary_work(Arith::Eq, b, a),
{
}

/// Two booleans are equal exactly when they are the same boolean, and two texts exactly
/// when they hold the same characters; values of two kinds are never equal.
pub proof fn lemma_equal_exactly_when_same(a: ValueView, b: ValueView)
    requires
        (a is Boolean && b is Boolean) || (a is String && b is String) || (a is Empty && b is Empty),
    ensures
        spec_binary_work(Arith::Eq, a, b) == BinaryWorkView::Done(ValueView::Boolean(a == b)),
{
}

/// Values of two kinds, neither of them a number, are unequal.
pub proof fn lemma_equal_kinds_differ(a: ValueView, b: ValueView)
    requires
        !(a is Number && b is Number),
        !(a is Function && b is Function),
        !(a is Boolean && b is Boolean),
        !(a is String && b is String),
        !(a is Empty && b is Empty),
        !(a is IntrinsicFunction && b is IntrinsicFunction),
    ensures
        spec_binary_work(Arith::Eq, a, b) == BinaryWorkView::Done(ValueView::Boolean(false)),
{
}

/// `+` on two texts gives the left one followed by the right one.
pub proof fn lemma_add_texts_in_order(l: Seq<char>, r: Seq<char>)
    ensures
        spec_binary_work(Arith::Add, ValueView::String(l), ValueView::String(r)) matches BinaryWorkView::Done(
            ValueView::String(t),
        ) && t.len() == l.len() + r.len() && t.take(l.len() as int) == l && t.skip(l.len() as int) == r,
{
    assert((l + r).take(l.len() as int) =~= l);
    assert((l + r).skip(l.len() as int) =~= r);
}

/// `+` on a text and a boolean gives the text followed by `true` where the boolean holds
/// and by `false` where it does not.
pub proof fn lemma_add_boolean_in_words(l: Seq<char>, b: bool)
    ensures
        spec_binary_work(Arith::Add, ValueView::String(l), ValueView::Boolean(b)) matches BinaryWorkView::Done(
            ValueView::String(t),
        ) && t.take(l.len() as int) == l && t.skip(l.len() as int) == (if b {
            seq!['t', 'r', 'u', 'e']
        } else {
            seq!['f', 'a', 'l', 's', 'e']
        }),
{
    reveal_strlit("true");
    reveal_strlit("false");
    let w = bool_text(b);
    assert((l + w).take(l.len() as int) =~= l);
    assert((l + w).skip(l.len() as int) =~= w);
}

/// Negating a value twice gives its truth as a boolean; negation always gives a boolean.
pub proof fn lemma_not_not(v: Value)
    ensures
        Value::Boolean(!v.spec_truthy()).spec_truthy() == !v.spec_truthy(),
        Value::Boolean(!(Value::Boolean(!v.spec_truthy()).spec_truthy())) == Value::Boolean(
            v.spec_truthy(),
        ),
{
}

} // verus!
