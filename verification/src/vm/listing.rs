//! The text of compiled code: one line per instruction, and the code that an instruction
//! holds on the lines below it, indented by four spaces.

use vstd::prelude::*;
use vstd::string::StringExecFns;
use crate::vm::bytecode::{Bytecode, Instruction};
use crate::vm::compiler::{decimal, decimal_string};
use crate::vm::value::{Value, bool_text};

verus! {

/// What `indent::indent_all_by` gives for `spaces` and `text`.
pub uninterp spec fn indented_all_by(spaces: usize, text: Seq<char>) -> Seq<char>;

/// `indent::indent_all_by(spaces, text)`: each line of `text` that is not empty, after
/// `spaces` spaces. Its result is named, not stated: how the crate splits lines (through
/// `str::lines`) is left to the name.
#[verifier::external_body]
fn indent_all_by(spaces: usize, text: String) -> (r: String)
    ensures
        r@ == indented_all_by(spaces, text@),
{
    indent::indent_all_by(spaces, text)
}

/// `number` writes each number, given by its bits, as `f` does: `f` gives no other text.
pub open spec fn writes_numbers_as<F: Fn(u64) -> String>(
    f: F,
    number: spec_fn(u64) -> Seq<char>,
) -> bool {
    forall|bits: u64, s: String| #[trigger] call_ensures(f, (bits,), s) ==> s@ == number(bits)
}

/// A value that can be written: a boolean, a text, a number or none. A function has no
/// text.
pub open spec fn has_text(v: Value) -> bool {
    v is Boolean || v is String || v is Number || v is Empty
}

/// The text of a value that can be written, a number written by `number`.
pub open spec fn value_text(v: Value, number: spec_fn(u64) -> Seq<char>) -> Seq<char> {
    match v {
        Value::Boolean(b) => bool_text(b),
        Value::String(s) => s@,
        Value::Number(bits) => number(bits),
        Value::Empty => "none"@,
        _ => Seq::empty(),
    }
}

/// Every value that the instruction, or code nested in it, pushes can be written.
pub open spec fn listable(i: Instruction) -> bool
    decreases i, 0nat,
{
    match i {
        Instruction::PUSH(v) => has_text(v),
        Instruction::NEWFUNC(_, body) => {
            proof {
                assert(decreases_to!(i => body));
            }
            code_listable(body@)
        },
        Instruction::LABEL(_, body) => {
            proof {
                assert(decreases_to!(i => body));
            }
            code_listable(body@)
        },
        _ => true,
    }
}

/// Every instruction of `code` can be written.
pub open spec fn code_listable(code: Seq<Instruction>) -> bool
    decreases code, 1nat,
{
    if code.len() == 0 {
        true
    } else {
        code_listable(code.drop_last()) && listable(code.last())
    }
}

/// Each instruction of code that can be written can be written.
pub proof fn lemma_code_listable(code: Seq<Instruction>, k: int)
    requires
        code_listable(code),
        0 <= k < code.len(),
    ensures
        listable(code[k]),
    decreases code.len(),
{
    if k < code.len() - 1 {
        lemma_code_listable(code.drop_last(), k);
    }
}

/// The text of an instruction: its name and its operands, separated by spaces; the code
/// of a function or a label follows on the lines below, indented.
pub open spec fn instruction_text(i: Instruction, number: spec_fn(u64) -> Seq<char>) -> Seq<char>
    decreases i, 0nat,
{
    match i {
        Instruction::PUSH(v) => "PUSH "@ + value_text(v, number),
        Instruction::POP => "POP"@,
        Instruction::DUP(n) => "DUP "@ + decimal(n as nat),
        Instruction::LOAD(s) => "LOAD "@ + s@,
        Instruction::STORE(s) => "STORE "@ + s@,
        Instruction::RET => "RET"@,
        Instruction::NEWFUNC(arity, body) => {
            proof {
                assert(decreases_to!(i => body));
            }
            "NEWFUNC "@ + decimal(arity as nat) + "\n"@ + indented_all_by(
                4,
                lines_text(body@, number),
            )
        },
        Instruction::LABEL(name, body) => {
            proof {
                assert(decreases_to!(i => body));
            }
            "LABEL "@ + name@ + "\n"@ + indented_all_by(4, lines_text(body@, number))
        },
        Instruction::CALL => "CALL"@,
        Instruction::JMP(l) => "JMP "@ + l@,
        Instruction::JT(l) => "JT "@ + l@,
        Instruction::JTF(a, b) => "JTF "@ + a@ + " "@ + b@,
        Instruction::ADD => "ADD"@,
        Instruction::SUB => "SUB"@,
        Instruction::MUL => "MUL"@,
        Instruction::DIV => "DIV"@,
        Instruction::NEG => "NEG"@,
        Instruction::NOT => "NOT"@,
        Instruction::EQ => "EQ"@,
        Instruction::GT => "GT"@,
        Instruction::LT => "LT"@,
        Instruction::GTE => "GTE"@,
        Instruction::LTE => "LTE"@,
    }
}

/// The texts of `code`, one after the other, with a line break between two.
pub open spec fn lines_text(code: Seq<Instruction>, number: spec_fn(u64) -> Seq<char>) -> Seq<
    char,
>
    decreases code, 1nat,
{
    if code.len() == 0 {
        Seq::empty()
    } else if code.len() == 1 {
        instruction_text(code[0], number)
    } else {
        lines_text(code.drop_last(), number) + "\n"@ + instruction_text(code.last(), number)
    }
}

/// The first word of a text: the characters before its first space or line break.
pub open spec fn first_word(t: Seq<char>) -> Seq<char>
    decreases t.len(),
{
    if t.len() == 0 || t[0] == ' ' || t[0] == '\n' {
        Seq::empty()
    } else {
        seq![t[0]] + first_word(t.drop_first())
    }
}

/// `i` and `j` are instructions of one kind, whatever their operands.
pub open spec fn same_kind(i: Instruction, j: Instruction) -> bool {
    match (i, j) {
        (Instruction::PUSH(_), Instruction::PUSH(_)) => true,
        (Instruction::POP, Instruction::POP) => true,
        (Instruction::DUP(_), Instruction::DUP(_)) => true,
        (Instruction::LOAD(_), Instruction::LOAD(_)) => true,
        (Instruction::STORE(_), Instruction::STORE(_)) => true,
        (Instruction::RET, Instruction::RET) => true,
        (Instruction::NEWFUNC(_, _), Instruction::NEWFUNC(_, _)) => true,
        (Instruction::LABEL(_, _), Instruction::LABEL(_, _)) => true,
        (Instruction::CALL, Instruction::CALL) => true,
        (Instruction::JMP(_), Instruction::JMP(_)) => true,
        (Instruction::JT(_), Instruction::JT(_)) => true,
        (Instruction::JTF(_, _), Instruction::JTF(_, _)) => true,
        (Instruction::ADD, Instruction::ADD) => true,
        (Instruction::SUB, Instruction::SUB) => true,
        (Instruction::MUL, Instruction::MUL) => true,
        (Instruction::DIV, Instruction::DIV) => true,
        (Instruction::NEG, Instruction::NEG) => true,
        (Instruction::NOT, Instruction::NOT) => true,
        (Instruction::EQ, Instruction::EQ) => true,
        (Instruction::GT, Instruction::GT) => true,
        (Instruction::LT, Instruction::LT) => true,
        (Instruction::GTE, Instruction::GTE) => true,
        (Instruction::LTE, Instruction::LTE) => true,
        _ => false,
    }
}

/// The name under which an instruction is listed.
spec fn mnemonic(i: Instruction) -> Seq<char> {
    match i {
        Instruction::PUSH(_) => "PUSH"@,
        Instruction::POP => "POP"@,
        Instruction::DUP(_) => "DUP"@,
        Instruction::LOAD(_) => "LOAD"@,
        Instruction::STORE(_) => "STORE"@,
        Instruction::RET => "RET"@,
        Instruction::NEWFUNC(_, _) => "NEWFUNC"@,
        Instruction::LABEL(_, _) => "LABEL"@,
        Instruction::CALL => "CALL"@,
        Instruction::JMP(_) => "JMP"@,
        Instruction::JT(_) => "JT"@,
        Instruction::JTF(_, _) => "JTF"@,
        Instruction::ADD => "ADD"@,
        Instruction::SUB => "SUB"@,
        Instruction::MUL => "MUL"@,
        Instruction::DIV => "DIV"@,
        Instruction::NEG => "NEG"@,
        Instruction::NOT => "NOT"@,
        Instruction::EQ => "EQ"@,
        Instruction::GT => "GT"@,
        Instruction::LT => "LT"@,
        Instruction::GTE => "GTE"@,
        Instruction::LTE => "LTE"@,
    }
}

/// A word without a space or line break, then nothing or a space, has that word first.
proof fn lemma_first_word_of(w: Seq<char>, rest: Seq<char>)
    requires
        forall|k: int| 0 <= k < w.len() ==> w[k] != ' ' && w[k] != '\n',
        rest.len() == 0 || rest[0] == ' ',
    ensures
        first_word(w + rest) == w,
    decreases w.len(),
{
    if w.len() == 0 {
        assert(w + rest == rest);
    } else {
        assert((w + rest).drop_first() == w.drop_first() + rest);
        lemma_first_word_of(w.drop_first(), rest);
        assert(seq![w[0]] + w.drop_first() == w);
    }
}

/// The first word of an instruction's text is its name, and the rest is empty or starts
/// with a space.
proof fn lemma_first_word_is_mnemonic(i: Instruction, number: spec_fn(u64) -> Seq<char>)
    ensures
        first_word(instruction_text(i, number)) == mnemonic(i),
        instruction_text(i, number) == mnemonic(i) + instruction_text(i, number).skip(
            mnemonic(i).len() as int,
        ),
{
    reveal_strlit("PUSH");
    reveal_strlit("POP");
    reveal_strlit("DUP");
    reveal_strlit("LOAD");
    reveal_strlit("STORE");
    reveal_strlit("RET");
    reveal_strlit("NEWFUNC");
    reveal_strlit("LABEL");
    reveal_strlit("CALL");
    reveal_strlit("JMP");
    reveal_strlit("JT");
    reveal_strlit("JTF");
    reveal_strlit("ADD");
    reveal_strlit("SUB");
    reveal_strlit("MUL");
    reveal_strlit("DIV");
    reveal_strlit("NEG");
    reveal_strlit("NOT");
    reveal_strlit("EQ");
    reveal_strlit("GT");
    reveal_strlit("LT");
    reveal_strlit("GTE");
    reveal_strlit("LTE");
    reveal_strlit("PUSH ");
    reveal_strlit("DUP ");
    reveal_strlit("LOAD ");
    reveal_strlit("STORE ");
    reveal_strlit("NEWFUNC ");
    reveal_strlit("LABEL ");
    reveal_strlit("JMP ");
    reveal_strlit("JT ");
    reveal_strlit("JTF ");
    let t = instruction_text(i, number);
    let w = mnemonic(i);
    let rest = t.skip(w.len() as int);
    assert(t =~= w + rest);
    lemma_first_word_of(w, rest);
}

/// Instructions of different kinds are listed under different names: the first word of
/// the text of an instruction tells its kind.
pub proof fn lemma_listed_kind(i: Instruction, j: Instruction, number: spec_fn(u64) -> Seq<char>)
    requires
        first_word(instruction_text(i, number)) == first_word(instruction_text(j, number)),
    ensures
        same_kind(i, j),
{
    lemma_first_word_is_mnemonic(i, number);
    lemma_first_word_is_mnemonic(j, number);
    reveal_strlit("PUSH");
    reveal_strlit("POP");
    reveal_strlit("DUP");
    reveal_strlit("LOAD");
    reveal_strlit("STORE");
    reveal_strlit("RET");
    reveal_strlit("NEWFUNC");
    reveal_strlit("LABEL");
    reveal_strlit("CALL");
    reveal_strlit("JMP");
    reveal_strlit("JT");
    reveal_strlit("JTF");
    reveal_strlit("ADD");
    reveal_strlit("SUB");
    reveal_strlit("MUL");
    reveal_strlit("DIV");
    reveal_strlit("NEG");
    reveal_strlit("NOT");
    reveal_strlit("EQ");
    reveal_strlit("GT");
    reveal_strlit("LT");
    reveal_strlit("GTE");
    reveal_strlit("LTE");
    let (a, b) = (mnemonic(i), mnemonic(j));
    assert(a.len() == b.len() && a[0] == b[0] && a[1] == b[1]);
}

/// An instruction that names a binding or a label is listed as its name, a space, and the
/// name it holds.
pub proof fn lemma_listed_operand(i: Instruction, number: spec_fn(u64) -> Seq<char>)
    requires
        i is LOAD || i is STORE || i is JMP || i is JT,
    ensures
        instruction_text(i, number) == first_word(instruction_text(i, number)) + " "@ + match i {
            Instruction::LOAD(s) => s@,
            Instruction::STORE(s) => s@,
            Instruction::JMP(s) => s@,
            Instruction::JT(s) => s@,
            _ => Seq::empty(),
        },
{
    lemma_first_word_is_mnemonic(i, number);
    reveal_strlit(" ");
    reveal_strlit("LOAD ");
    reveal_strlit("STORE ");
    reveal_strlit("JMP ");
    reveal_strlit("JT ");
    reveal_strlit("LOAD");
    reveal_strlit("STORE");
    reveal_strlit("JMP");
    reveal_strlit("JT");
    let t = instruction_text(i, number);
    assert(t =~= first_word(t) + " "@ + match i {
        Instruction::LOAD(s) => s@,
        Instruction::STORE(s) => s@,
        Instruction::JMP(s) => s@,
        Instruction::JT(s) => s@,
        _ => Seq::empty(),
    });
}

/// The text of a program: the text of each instruction, each followed by a line break.
pub open spec fn listing_text(code: Seq<Instruction>, number: spec_fn(u64) -> Seq<char>) -> Seq<
    char,
>
    decreases code.len(),
{
    if code.len() == 0 {
        Seq::empty()
    } else {
        listing_text(code.drop_last(), number) + instruction_text(code.last(), number) + "\n"@
    }
}

/// `head`, then on the lines below it the code that the indentation of `indented` set off.
pub fn nested_text(head: String, indented: String) -> (t: String)
    ensures
        t@ == head@ + "\n"@ + indented@,
{
    let mut t = head;
    t.append("\n");
    t.append(indented.as_str());
    t
}

/// A text from a literal.
fn text_of(s: &str) -> (t: String)
    ensures
        t@ == s@,
{
    String::from_str(s)
}

impl Value {
    /// The text of the value, a number written by `number_text`: `true` or `false`, the
    /// text itself, the number, or `none`.
    pub fn to_text<F: Fn(u64) -> String>(&self, number_text: &F) -> (t: String)
        requires
            has_text(*self),
            forall|bits: u64| call_requires(*number_text, (bits,)),
        ensures
            forall|number: spec_fn(u64) -> Seq<char>|
                #[trigger] writes_numbers_as(*number_text, number) ==> t@ == value_text(*self, number),
    {
        proof {
            reveal_strlit("true");
            reveal_strlit("false");
        }
        match self {
            Value::Boolean(b) => {
                if *b {
                    text_of("true")
                } else {
                    text_of("false")
                }
            },
            Value::String(s) => s.clone(),
            Value::Number(bits) => number_text(*bits),
            Value::Empty => text_of("none"),
            _ => String::new(),
        }
    }
}

impl Instruction {
    /// The text of the instruction, numbers written by `number_text`: its name and its
    /// operands, separated by spaces; the code of a function or a label follows on the
    /// lines below, indented by four spaces.
    pub fn to_text<F: Fn(u64) -> String>(&self, number_text: &F) -> (t: String)
        requires
            listable(*self),
            forall|bits: u64| call_requires(*number_text, (bits,)),
        ensures
            forall|number: spec_fn(u64) -> Seq<char>|
                #[trigger] writes_numbers_as(*number_text, number) ==> t@ == instruction_text(
                    *self,
                    number,
                ),
        decreases *self, 0nat,
    {
        match self {
            Instruction::PUSH(v) => {
                let mut t = text_of("PUSH ");
                let value = v.to_text(number_text);
                t.append(value.as_str());
                t
            },
            Instruction::POP => text_of("POP"),
            Instruction::DUP(n) => {
                let mut t = text_of("DUP ");
                let digits = decimal_string(*n);
                t.append(digits.as_str());
                t
            },
            Instruction::LOAD(name) => {
                let mut t = text_of("LOAD ");
                t.append(name.as_str());
                t
            },
            Instruction::STORE(name) => {
                let mut t = text_of("STORE ");
                t.append(name.as_str());
                t
            },
            Instruction::RET => text_of("RET"),
            Instruction::NEWFUNC(arity, body) => {
                let mut head = text_of("NEWFUNC ");
                let digits = decimal_string(*arity);
                head.append(digits.as_str());
                proof {
                    assert(decreases_to!(*self => *body));
                }
                let lines = code_text(body, number_text);
                nested_text(head, indent_all_by(4, lines))
            },
            Instruction::LABEL(name, body) => {
                let mut head = text_of("LABEL ");
                head.append(name.as_str());
                proof {
                    assert(decreases_to!(*self => *body));
                }
                let lines = code_text(body, number_text);
                nested_text(head, indent_all_by(4, lines))
            },
            Instruction::CALL => text_of("CALL"),
            Instruction::JMP(l) => {
                let mut t = text_of("JMP ");
                t.append(l.as_str());
                t
            },
            Instruction::JT(l) => {
                let mut t = text_of("JT ");
                t.append(l.as_str());
                t
            },
            Instruction::JTF(a, b) => {
                let mut t = text_of("JTF ");
                t.append(a.as_str());
                t.append(" ");
                t.append(b.as_str());
                t
            },
            Instruction::ADD => text_of("ADD"),
            Instruction::SUB => text_of("SUB"),
            Instruction::MUL => text_of("MUL"),
            Instruction::DIV => text_of("DIV"),
            Instruction::NEG => text_of("NEG"),
            Instruction::NOT => text_of("NOT"),
            Instruction::EQ => text_of("EQ"),
            Instruction::GT => text_of("GT"),
            Instruction::LT => text_of("LT"),
            Instruction::GTE => text_of("GTE"),
            Instruction::LTE => text_of("LTE"),
        }
    }
}

/// The texts of `code`, one after the other, with a line break between two.
fn code_text<F: Fn(u64) -> String>(code: &Vec<Instruction>, number_text: &F) -> (t: String)
    requires
        code_listable(code@),
        forall|bits: u64| call_requires(*number_text, (bits,)),
    ensures
        forall|number: spec_fn(u64) -> Seq<char>|
            #[trigger] writes_numbers_as(*number_text, number) ==> t@ == lines_text(code@, number),
    decreases *code, 1nat,
{
    let mut text = String::new();
    let mut k: usize = 0;
    while k < code.len()
        invariant
            k <= code.len(),
            code_listable(code@),
            forall|bits: u64| call_requires(*number_text, (bits,)),
            forall|number: spec_fn(u64) -> Seq<char>|
                #[trigger] writes_numbers_as(*number_text, number) ==> text@ == lines_text(
                    code@.take(k as int),
                    number,
                ),
        decreases code.len() - k,
    {
        proof {
            assert(decreases_to!(*code => code@));
            assert(decreases_to!(code@ => code@[k as int]));
            lemma_code_listable(code@, k as int);
        }
        let line = code[k].to_text(number_text);
        if k > 0 {
            text.append("\n");
        }
        text.append(line.as_str());
        proof {
            assert(code@.take(k + 1).drop_last() =~= code@.take(k as int));
            assert(code@.take(k + 1).last() == code@[k as int]);
        }
        k = k + 1;
    }
    proof {
        assert(code@.take(k as int) =~= code@);
    }
    text
}

impl Bytecode {
    /// The text of the program, numbers written by `number_text`: the text of each
    /// instruction, each followed by a line break.
    pub fn to_text<F: Fn(u64) -> String>(&self, number_text: &F) -> (t: String)
        requires
            code_listable(self.spec_instructions()),
            forall|bits: u64| call_requires(*number_text, (bits,)),
        ensures
            forall|number: spec_fn(u64) -> Seq<char>|
                #[trigger] writes_numbers_as(*number_text, number) ==> t@ == listing_text(
                    self.spec_instructions(),
                    number,
                ),
    {
        let code = self.instructions();
        let mut text = String::new();
        let mut k: usize = 0;
        while k < code.len()
            invariant
                k <= code.len(),
                code@ == self.spec_instructions(),
                code_listable(code@),
                forall|bits: u64| call_requires(*number_text, (bits,)),
                forall|number: spec_fn(u64) -> Seq<char>|
                    #[trigger] writes_numbers_as(*number_text, number) ==> text@ == listing_text(
                        code@.take(k as int),
                        number,
                    ),
            decreases code.len() - k,
        {
            proof {
                lemma_code_listable(code@, k as int);
            }
            let line = code[k].to_text(number_text);
            text.append(line.as_str());
            text.append("\n");
            proof {
                assert(code@.take(k + 1).drop_last() =~= code@.take(k as int));
                assert(code@.take(k + 1).last() == code@[k as int]);
            }
            k = k + 1;
        }
        proof {
            assert(code@.take(k as int) =~= code@);
        }
        text
    }
}

} // verus!
