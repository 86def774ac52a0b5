use prog_lang::vm::bytecode::{Bytecode, Instruction};
use prog_lang::vm::listing::nested_text;
use prog_lang::vm::machine::{Arith, Event, VmError, VM};
use prog_lang::vm::value::{add_texts, binary_work, BinaryWork, Intrinsic, Value};

fn machine(code: Vec<Instruction>) -> VM {
    VM::new(Bytecode::new(code)).unwrap()
}

fn s(text: &str) -> String {
    text.to_string()
}

#[test]
fn stores_and_loads_bindings() {
    let mut vm = machine(vec![
        Instruction::PUSH(Value::Boolean(true)),
        Instruction::STORE(s("x")),
        Instruction::PUSH(Value::Boolean(false)),
        Instruction::STORE(s("x")),
        Instruction::LOAD(s("x")),
        Instruction::RET,
    ]);
    for _ in 0..5 {
        assert!(matches!(vm.step(), Ok(Event::Next)));
    }
    assert_eq!(vm.stack_len(), 1);
    assert!(matches!(vm.step(), Ok(Event::Finished(Some(Value::Boolean(false))))));
}

#[test]
fn ends_without_a_value_at_the_end_of_the_code() {
    let mut vm = machine(vec![Instruction::PUSH(Value::Empty)]);
    assert!(matches!(vm.step(), Ok(Event::Next)));
    assert!(matches!(vm.step(), Ok(Event::Finished(None))));
}

#[test]
fn hands_arithmetic_to_its_driver() {
    let mut vm = machine(vec![
        Instruction::PUSH(Value::Number(1.0f64.to_bits())),
        Instruction::PUSH(Value::Number(2.0f64.to_bits())),
        Instruction::SUB,
        Instruction::NEG,
    ]);
    assert!(matches!(vm.step(), Ok(Event::Next)));
    assert!(matches!(vm.step(), Ok(Event::Next)));
    match vm.step() {
        Ok(Event::Binary(Arith::Sub, Value::Number(l), Value::Number(r))) => {
            assert_eq!(f64::from_bits(l), 1.0);
            assert_eq!(f64::from_bits(r), 2.0);
        },
        other => panic!("unexpected step: {other:?}"),
    }
    assert_eq!(vm.stack_len(), 0);
    vm.execute_push(Value::Number((-1.0f64).to_bits()));
    match vm.step() {
        Ok(Event::Negate(Value::Number(v))) => assert_eq!(f64::from_bits(v), -1.0),
        other => panic!("unexpected step: {other:?}"),
    }
    assert!(matches!(vm.step(), Ok(Event::Finished(None))));
}

#[test]
fn calls_a_function_with_its_arguments_in_order() {
    let body = vec![
        Instruction::STORE(s("a")),
        Instruction::STORE(s("b")),
        Instruction::LOAD(s("a")),
        Instruction::RET,
    ];
    let mut vm = machine(vec![
        Instruction::PUSH(Value::String(s("first"))),
        Instruction::PUSH(Value::String(s("second"))),
        Instruction::NEWFUNC(2, body),
        Instruction::CALL,
        Instruction::RET,
    ]);
    for _ in 0..8 {
        assert!(matches!(vm.step(), Ok(Event::Next)));
    }
    match vm.step() {
        Ok(Event::Finished(Some(Value::String(v)))) => assert_eq!(v, "first"),
        other => panic!("unexpected step: {other:?}"),
    }
}

#[test]
fn a_function_without_return_gives_back_nothing() {
    let mut vm = machine(vec![
        Instruction::NEWFUNC(0, vec![Instruction::PUSH(Value::Empty), Instruction::POP]),
        Instruction::CALL,
        Instruction::PUSH(Value::Boolean(true)),
        Instruction::RET,
    ]);
    for _ in 0..6 {
        assert!(matches!(vm.step(), Ok(Event::Next)));
    }
    assert!(matches!(vm.step(), Ok(Event::Finished(Some(Value::Boolean(true))))));
    assert_eq!(vm.stack_len(), 0);
}

#[test]
fn labels_are_skipped_and_jumped_to() {
    let mut vm = machine(vec![
        Instruction::LABEL(
            s("L1"),
            vec![Instruction::PUSH(Value::String(s("in label"))), Instruction::RET],
        ),
        Instruction::PUSH(Value::Boolean(true)),
        Instruction::JT(s("L1")),
    ]);
    assert!(matches!(vm.step(), Ok(Event::Next)));
    assert!(matches!(vm.step(), Ok(Event::Next)));
    assert!(matches!(vm.step(), Ok(Event::Next)));
    assert!(matches!(vm.step(), Ok(Event::Next)));
    match vm.step() {
        Ok(Event::Finished(Some(Value::String(v)))) => assert_eq!(v, "in label"),
        other => panic!("unexpected step: {other:?}"),
    }
}

#[test]
fn negation_gives_the_opposite_truth() {
    let mut vm = machine(vec![
        Instruction::PUSH(Value::String(String::new())),
        Instruction::NOT,
        Instruction::RET,
    ]);
    assert!(matches!(vm.step(), Ok(Event::Next)));
    assert!(matches!(vm.step(), Ok(Event::Next)));
    assert!(matches!(vm.step(), Ok(Event::Finished(Some(Value::Boolean(true))))));
}

#[test]
fn built_in_functions_are_bound_from_the_start() {
    let mut vm = machine(vec![
        Instruction::PUSH(Value::Boolean(true)),
        Instruction::LOAD(s("raw_print")),
        Instruction::CALL,
        Instruction::LOAD(s("raw_print")),
        Instruction::CALL,
    ]);
    assert!(matches!(vm.step(), Ok(Event::Next)));
    assert!(matches!(vm.step(), Ok(Event::Next)));
    assert!(matches!(vm.step(), Ok(Event::Intrinsic(Intrinsic::RawPrint))));
    assert_eq!(vm.stack_len(), 1);
    assert!(vm.execute_pop().is_ok());
    assert!(matches!(vm.step(), Ok(Event::Next)));
    assert!(matches!(vm.step(), Err(VmError::Arity { expected: 1, found: 0 })));
}

#[test]
fn errors_of_the_machine() {
    let mut vm = machine(vec![Instruction::POP]);
    assert!(matches!(vm.step(), Err(VmError::StackEmpty)));

    let mut vm = machine(vec![Instruction::LOAD(s("nothing"))]);
    match vm.step() {
        Err(VmError::NoBinding(name)) => assert_eq!(name, "nothing"),
        other => panic!("unexpected step: {other:?}"),
    }

    let mut vm = machine(vec![Instruction::DUP(3)]);
    assert!(matches!(vm.step(), Err(VmError::NoValueAt { index: 3, len: 0 })));

    let mut vm = machine(vec![Instruction::PUSH(Value::Empty), Instruction::JT(s("L1"))]);
    assert!(matches!(vm.step(), Ok(Event::Next)));
    assert!(matches!(vm.step(), Err(VmError::NotBoolean(Value::Empty))));

    let mut vm = machine(vec![Instruction::PUSH(Value::Boolean(true)), Instruction::JT(s("L9"))]);
    assert!(matches!(vm.step(), Ok(Event::Next)));
    match vm.step() {
        Err(VmError::NoLabel(name)) => assert_eq!(name, "L9"),
        other => panic!("unexpected step: {other:?}"),
    }

    let mut vm = machine(vec![Instruction::PUSH(Value::Boolean(true)), Instruction::CALL]);
    assert!(matches!(vm.step(), Ok(Event::Next)));
    assert!(matches!(vm.step(), Err(VmError::NotCallable(Value::Boolean(true)))));

    let mut vm = machine(vec![Instruction::NEWFUNC(1, vec![]), Instruction::CALL]);
    assert!(matches!(vm.step(), Ok(Event::Next)));
    assert!(matches!(vm.step(), Err(VmError::Arity { expected: 1, found: 0 })));
}

#[test]
fn adding_texts() {
    let joined = add_texts(&Value::String(String::from("ab")), &Value::String(String::from("cd")));
    assert!(matches!(joined, Some(Value::String(s)) if s == "abcd"));
    let worded = add_texts(&Value::String(String::from("x=")), &Value::Boolean(false));
    assert!(matches!(worded, Some(Value::String(s)) if s == "x=false"));
    let worded = add_texts(&Value::String(String::new()), &Value::Boolean(true));
    assert!(matches!(worded, Some(Value::String(s)) if s == "true"));
    assert!(add_texts(&Value::Boolean(true), &Value::String(String::from("a"))).is_none());
    assert!(add_texts(&Value::String(String::from("a")), &Value::Empty).is_none());
}

fn number(bits: u64) -> String {
    format!("{}", f64::from_bits(bits))
}

#[test]
fn listing_instructions() {
    assert_eq!(Instruction::POP.to_text(&number), "POP");
    assert_eq!(Instruction::DUP(12).to_text(&number), "DUP 12");
    assert_eq!(Instruction::JTF(s("L1"), s("L2")).to_text(&number), "JTF L1 L2");
    assert_eq!(Instruction::PUSH(Value::Number(2.5f64.to_bits())).to_text(&number), "PUSH 2.5");
    assert_eq!(Instruction::PUSH(Value::Boolean(true)).to_text(&number), "PUSH true");
    assert_eq!(Instruction::PUSH(Value::Empty).to_text(&number), "PUSH none");
    assert_eq!(Instruction::PUSH(Value::String(s("hi"))).to_text(&number), "PUSH hi");
    let func = Instruction::NEWFUNC(1, vec![Instruction::LOAD(s("x")), Instruction::RET]);
    assert_eq!(func.to_text(&number), "NEWFUNC 1\n    LOAD x\n    RET");
    let inner = Instruction::NEWFUNC(1, vec![Instruction::LOAD(s("x")), Instruction::RET]);
    let label = Instruction::LABEL(s("L1"), vec![inner, Instruction::CALL]);
    assert_eq!(
        label.to_text(&number),
        "LABEL L1\n    NEWFUNC 1\n        LOAD x\n        RET\n    CALL"
    );
    let code = Bytecode::new(vec![Instruction::PUSH(Value::Number(1.0f64.to_bits())), Instruction::RET]);
    assert_eq!(code.to_text(&number), "PUSH 1\nRET\n");
    assert_eq!(Bytecode::new(vec![]).to_text(&number), "");
    assert_eq!(nested_text(s("HEAD"), s("    body")), "HEAD\n    body");
}

#[test]
fn binary_work_without_numbers() {
    let text = |t: &str| Value::String(s(t));
    let n = |x: f64| Value::Number(x.to_bits());
    assert!(matches!(
        binary_work(Arith::Add, &n(1.0), &n(2.0)),
        BinaryWork::Numbers(a, b) if a == 1.0f64.to_bits() && b == 2.0f64.to_bits()
    ));
    assert!(matches!(binary_work(Arith::Add, &text("a"), &text("b")), BinaryWork::Done(Value::String(t)) if t == "ab"));
    assert!(matches!(
        binary_work(Arith::Add, &text("x"), &n(3.0)),
        BinaryWork::TextThenNumber(t, b) if t == "x" && b == 3.0f64.to_bits()
    ));
    assert!(matches!(binary_work(Arith::Add, &n(3.0), &text("x")), BinaryWork::Refused));
    assert!(matches!(binary_work(Arith::Sub, &text("a"), &text("b")), BinaryWork::Refused));
    assert!(matches!(binary_work(Arith::Gt, &Value::Empty, &n(1.0)), BinaryWork::Refused));
    assert!(matches!(binary_work(Arith::Eq, &text("a"), &text("a")), BinaryWork::Done(Value::Boolean(true))));
    assert!(matches!(binary_work(Arith::Eq, &text("a"), &text("b")), BinaryWork::Done(Value::Boolean(false))));
    assert!(matches!(binary_work(Arith::Eq, &Value::Empty, &Value::Empty), BinaryWork::Done(Value::Boolean(true))));
    assert!(matches!(binary_work(Arith::Eq, &Value::Empty, &n(0.0)), BinaryWork::Done(Value::Boolean(false))));
    assert!(matches!(
        binary_work(Arith::Eq, &Value::Boolean(true), &Value::Boolean(false)),
        BinaryWork::Done(Value::Boolean(false))
    ));
    let print = || Value::IntrinsicFunction { arity: None, intrinsic: Intrinsic::Print };
    assert!(matches!(binary_work(Arith::Eq, &print(), &print()), BinaryWork::Done(Value::Boolean(true))));
    let f = || Value::Function { arity: 0, instructions: vec![] };
    assert!(matches!(binary_work(Arith::Eq, &f(), &f()), BinaryWork::SameFunctions));
}
