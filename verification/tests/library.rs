use std::hash::{Hash, Hasher};

use prog_lang::errors::{ParseErrorKind, PrettyError};
use prog_lang::join::{JoinWith, JoinWithOr};
use prog_lang::lexer::{Token, TokenKind};
use prog_lang::printing::{FormatError, Formatter, Printable};
use prog_lang::punctuated::Punctuated;
use prog_lang::span::{Position, Span};
use prog_lang::stream::ParseStream;
use prog_lang::syntax::expressions::{
    Binary, Call, Expression, Extern, Function, List, Literal, Object, ObjectEntry, Term, Unary,
};
use prog_lang::syntax::operators::{BinaryOperator, UnaryOperator};
use prog_lang::syntax::statements::{
    Break, Program, Return, Statement, VariableAssign, VariableDefine, WhileLoop,
};
use prog_lang::text::interpret_special_chars;
use prog_lang::vm::bytecode::{Bytecode, Instruction, LABEL};
use prog_lang::vm::compiler::Compiler;
use prog_lang::vm::machine::{Event, VM};
use prog_lang::vm::value::Value;

fn pos(a: usize, b: usize) -> Position {
    Position::new(a, b)
}

fn num(x: f64) -> Expression {
    Expression::Term(Term::Literal(Literal::Number(x.to_bits(), pos(0, 1))))
}

fn ident(name: &str) -> Expression {
    Expression::Term(Term::Identifier(name.to_string(), pos(0, 1)))
}

#[test]
fn span_gives_its_text() {
    let source = "hello world";
    let span = Span::new(source, "f", Position::new(6, 11));
    assert_eq!(span.value(), "world");
    assert_eq!(span.source(), source);
    assert_eq!(span.file(), "f");
    assert_eq!(span.position().start(), 6);
    assert_eq!(span.position().end(), 11);
}

#[test]
fn errors_without_span_point_nowhere() {
    let e: PrettyError<'_, u8> = PrettyError::new_unspanned(7);
    assert_eq!(e.span.source(), "");
    assert_eq!(e.span.position().end(), 0);
    assert_eq!(e.kind, 7);
}

#[test]
fn stream_reads_forward() {
    let source = "a b";
    let tokens = vec![
        Token::new(TokenKind::Ident, Span::new(source, "f", pos(0, 1))),
        Token::new(TokenKind::Ident, Span::new(source, "f", pos(2, 3))),
        Token::new(TokenKind::Eof, Span::new(source, "f", pos(3, 3))),
    ];
    let mut input = ParseStream::new(&tokens);
    assert_eq!(input.len(), 3);
    assert_eq!(input.untracked_len(), 3);
    assert!(!input.is_empty());
    assert!(input.current().is_none());
    assert_eq!(input.expect_peek().unwrap().value(), "a");
    assert_eq!(input.peek().unwrap().value(), "a");
    assert_eq!(input.next().unwrap().value(), "a");
    assert_eq!(input.current().unwrap().value(), "a");
    assert!(input.peek_matches(TokenKind::Ident).is_some());
    assert!(input.peek_matches(TokenKind::Comma).is_none());
    let fork = input.fork();
    assert_eq!(input.expect(TokenKind::Ident).unwrap().value(), "b");
    assert_eq!(fork.cursor(), 1);
    // Only the end of input is left: nothing to peek at.
    assert!(input.peek().is_none());
    let err = input.expect_peek().err().unwrap();
    match err.kind {
        ParseErrorKind::UnexpectedToken(u) => {
            assert_eq!(u.found, TokenKind::Eof);
            assert_eq!(u.expected, None);
        },
        _ => panic!("wrong kind"),
    }
    assert_eq!(err.span.position().start(), 2);
    assert!(input.expect_next().is_err());
    assert_eq!(input.cursor(), 2);
    input.set_cursor(10);
    assert_eq!(input.cursor(), 3);
    assert!(input.is_empty());
    assert!(input.current().is_none());
    assert!(input.next().is_none());
    let err = input.expect_peek().err().unwrap();
    match err.kind {
        ParseErrorKind::Internal(m) => assert_eq!(m.0, "unexpected end of input"),
        _ => panic!("wrong kind"),
    }
}

#[test]
fn expect_reads_a_token_of_another_kind_and_reports_it() {
    let source = "a";
    let tokens = vec![Token::new(TokenKind::Ident, Span::new(source, "f", pos(0, 1)))];
    let mut input = ParseStream::new(&tokens);
    let err = input.expect(TokenKind::Comma).err().unwrap();
    match err.kind {
        ParseErrorKind::UnexpectedToken(u) => {
            assert_eq!(u.found, TokenKind::Ident);
            assert_eq!(u.expected, Some(TokenKind::Comma));
        },
        _ => panic!("wrong kind"),
    }
    assert_eq!(input.cursor(), 1);
}

#[test]
fn try_parse_reads_nothing_on_failure() {
    let source = "a";
    let tokens = vec![Token::new(TokenKind::Ident, Span::new(source, "f", pos(0, 1)))];
    let mut input = ParseStream::new(&tokens);
    assert!(input.try_parse::<prog_lang::ast::nodes::Break>().is_err());
    assert_eq!(input.cursor(), 0);
    assert!(input.parse::<prog_lang::ast::nodes::Ident>().is_ok());
    assert_eq!(input.cursor(), 1);
}

#[test]
fn join_lists_with_a_word() {
    let items = vec![String::from("1"), String::from("2"), String::from("3")];
    assert_eq!(JoinWith::fmt_join(&items[..], "or"), "1, 2, or 3");
    assert_eq!(JoinWith::fmt_join(&items[..2], "and"), "1 and 2");
    assert_eq!(JoinWith::fmt_join(&items[..1], "and"), "1");
    assert_eq!(JoinWith::fmt_join(&items[..0], "and"), "");
    assert_eq!(JoinWithOr::fmt_join(&items[..]), "1, 2, or 3");
    assert_eq!(
        JoinWith::fmt_join_with(&items[..], |s: &String| format!("`{s}`"), "or"),
        "`1`, `2`, or `3`"
    );
    let array = [String::from("1"), String::from("2"), String::from("3"), String::from("4")];
    assert_eq!(JoinWith::fmt_join(&array, "and"), "1, 2, 3, and 4");
    assert_eq!(JoinWithOr::fmt_join(&array), "1, 2, 3, or 4");
    assert_eq!(
        JoinWithOr::fmt_join_with(&[String::from("a"), String::from("b")], |s: &String| s.to_uppercase()),
        "A or B"
    );
    let empty: [String; 0] = [];
    assert_eq!(JoinWith::fmt_join(&empty, "and"), "");
}

#[test]
fn escape_sequences() {
    assert_eq!(interpret_special_chars("a\\nb"), "a\nb");
    assert_eq!(interpret_special_chars("\\t\\r\\\"\\\\"), "\t\r\"\\");
    assert_eq!(interpret_special_chars("\\q"), "\\q");
    assert_eq!(interpret_special_chars("end\\"), "end\\");
    assert_eq!(interpret_special_chars("plain"), "plain");
}

#[test]
fn punctuated_lists() {
    let mut list: Punctuated<u8, char> = Punctuated::new();
    assert!(list.is_empty());
    list.push_item(1);
    list.push_punct(',');
    list.push_pair((2, ';'));
    list.push_item(3);
    assert_eq!(list.len(), 3);
    assert_eq!(list.items(), vec![&1, &2, &3]);
    assert_eq!(list.puncts(), vec![&',', &';']);
    assert_eq!(list.nth_item(2), Some(&3));
    assert_eq!(list.nth_item(3), None);
    assert_eq!(list.get_pair(1), Some(&(2, ';')));
    assert_eq!(list.remove_tail(), Some(3));
    assert_eq!(list.remove_pair(0), Some((1, ',')));
    assert_eq!(list.len(), 1);
    let mapped = list.map(|i: u8| i as u32 * 10, |c: char| c as u32);
    assert_eq!(mapped.unwrap_items(), vec![20]);
}

#[test]
fn punctuated_map_laws() {
    let mut list: Punctuated<u8, char> = Punctuated::new();
    list.push_pair((1, ','));
    list.push_pair((2, ';'));
    list.push_item(3);
    let copy = list.clone();
    assert!(copy == list);
    assert!(list.clone().map_items(|x: u8| x) == list);
    let by_items = list.clone().map_items(|x: u8| x as u32 + 1);
    let by_map = list.clone().map(|x: u8| x as u32 + 1, |c: char| c);
    assert!(by_items == by_map);
    let by_ref = list.map_ref(|x: &u8| *x as u32 * 2, |c: &char| *c as u32);
    let by_value = list.clone().map(|x: u8| x as u32 * 2, |c: char| c as u32);
    assert!(by_ref == by_value);
    assert_eq!(by_ref.unwrap_items(), vec![2, 4, 6]);
    assert_eq!(list.len(), 3);
}

#[test]
fn punctuated_positions() {
    let mut list: Punctuated<Position, Position> = Punctuated::new();
    list.push_pair((pos(2, 3), pos(3, 4)));
    list.push_item(pos(5, 9));
    assert_eq!(list.start(), 2);
    assert_eq!(list.end(), 9);
    assert_eq!(list.position().end(), 9);
}

#[test]
fn operator_symbols_round_trip() {
    for op in [
        BinaryOperator::Add,
        BinaryOperator::Subtract,
        BinaryOperator::Divide,
        BinaryOperator::Multiply,
        BinaryOperator::Modulo,
        BinaryOperator::EqEq,
        BinaryOperator::NotEq,
        BinaryOperator::And,
        BinaryOperator::Or,
        BinaryOperator::Gt,
        BinaryOperator::Lt,
        BinaryOperator::Gte,
        BinaryOperator::Lte,
        BinaryOperator::ListAccess,
        BinaryOperator::ObjectAccess,
    ] {
        assert_eq!(BinaryOperator::from_symbol(op.symbol()), Some(op));
    }
    assert_eq!(BinaryOperator::from_symbol("%%"), None);
    assert_eq!(UnaryOperator::from_symbol("not"), Some(UnaryOperator::Not));
    assert_eq!(UnaryOperator::Minus.symbol(), "-");
    assert_eq!(BinaryOperator::Multiply.get_precedence(), 3);
    assert_eq!(BinaryOperator::ListAccess.get_precedence(), 4);
    assert_eq!(BinaryOperator::Lt.get_precedence(), 1);
    assert_eq!(BinaryOperator::Add.get_precedence(), 2);
}

#[test]
fn positions_and_names_of_statements() {
    let s = Statement::Break(Break { position: pos(4, 9) });
    assert_eq!(s.position().start(), 4);
    assert_eq!(s.name(), "Break");
    let d = Statement::VariableDefine(VariableDefine {
        name: (String::from("x"), pos(4, 5)),
        value: None,
        position: pos(0, 5),
    });
    assert_eq!(d.name(), "VariableDefine");
    assert_eq!(d.position().end(), 5);
    let e = Expression::from(Term::Expression(Box::new(ident("y"))));
    assert!(matches!(e, Expression::Term(Term::Identifier(_, _))));
    assert_eq!(e.position().end(), 1);
    let empty = Expression::Empty(Some(pos(7, 7)));
    assert_eq!(empty.position().start(), 7);
}

#[test]
fn truthiness_of_values() {
    assert!(Value::Boolean(true).truthy());
    assert!(!Value::Number(0.0f64.to_bits()).truthy());
    assert!(!Value::Number((-0.0f64).to_bits()).truthy());
    assert!(Value::Number(2.5f64.to_bits()).truthy());
    assert!(Value::Number(f64::NAN.to_bits()).truthy());
    assert!(!Value::String(String::new()).truthy());
    assert!(Value::String(String::from("x")).truthy());
    assert!(!Value::Empty.truthy());
    assert!(matches!(Value::Empty.not(), Value::Boolean(true)));
    assert!(matches!(Value::Boolean(true).not(), Value::Boolean(false)));
}

#[test]
fn labels_end_after_their_code() {
    let l = LABEL { name: String::from("L1"), start: 3, length: 4 };
    assert_eq!(l.end(), 7);
}

#[test]
fn compiles_definitions_and_calls() {
    let program = Program {
        statements: vec![
            Statement::VariableDefine(VariableDefine {
                name: (String::from("x"), pos(0, 1)),
                value: Some(num(1.0)),
                position: pos(0, 1),
            }),
            Statement::Call(Call {
                arguments: (vec![ident("x")], pos(0, 1)),
                function: Box::new(ident("print")),
                position: pos(0, 1),
            }),
            Statement::Return(Return { expression: None, position: pos(0, 1) }),
        ],
    };
    let mut compiler = Compiler::new();
    let code = compiler.compile(program);
    assert_eq!(code.len(), 7);
    assert!(matches!(&code[0], Instruction::PUSH(Value::Number(b)) if *b == 1.0f64.to_bits()));
    assert!(matches!(&code[1], Instruction::STORE(n) if n == "x"));
    assert!(matches!(&code[2], Instruction::LOAD(n) if n == "x"));
    assert!(matches!(&code[3], Instruction::LOAD(n) if n == "print"));
    assert!(matches!(&code[4], Instruction::CALL));
    assert!(matches!(&code[5], Instruction::PUSH(Value::Empty)));
    assert!(matches!(&code[6], Instruction::RET));
    let _ = Bytecode::new(code);
}

#[test]
fn compiles_loops_with_fresh_labels() {
    let program = Program {
        statements: vec![
            Statement::WhileLoop(WhileLoop {
                condition: ident("c"),
                statements: vec![Statement::VariableAssign(VariableAssign {
                    name: (String::from("c"), pos(0, 1)),
                    value: num(0.0),
                    position: pos(0, 1),
                })],
                position: pos(0, 1),
            }),
            Statement::WhileLoop(WhileLoop {
                condition: ident("d"),
                statements: vec![],
                position: pos(0, 1),
            }),
        ],
    };
    let mut compiler = Compiler::new();
    let code = compiler.compile(program);
    assert_eq!(code.len(), 6);
    match &code[0] {
        Instruction::LABEL(name, body) => {
            assert_eq!(name, "L1");
            assert!(matches!(&body[0], Instruction::LOAD(n) if n == "c"));
            assert!(matches!(&body[1], Instruction::JT(l) if l == "L2"));
        },
        _ => panic!("not a label"),
    }
    match &code[1] {
        Instruction::LABEL(name, body) => {
            assert_eq!(name, "L2");
            assert_eq!(body.len(), 3);
            assert!(matches!(&body[2], Instruction::JMP(l) if l == "L1"));
        },
        _ => panic!("not a label"),
    }
    assert!(matches!(&code[2], Instruction::JMP(l) if l == "L1"));
    assert!(matches!(&code[3], Instruction::LABEL(n, _) if n == "L3"));
    assert!(matches!(&code[4], Instruction::LABEL(n, _) if n == "L4"));
}

struct Pair(u8, u8);

impl Printable for Pair {
    fn fmt_short(&self, f: &mut Formatter) -> Result<(), FormatError> {
        f.write_str(&self.0.to_string())
    }

    fn fmt_pretty(&self, f: &mut Formatter) -> Result<(), FormatError> {
        f.write_str(&format!("({}, {})", self.0, self.1))
    }

    fn fmt_full(&self, _f: &mut Formatter) -> Result<(), FormatError> {
        Err(FormatError)
    }
}

#[test]
fn printable_forms() {
    let p = Pair(1, 2);
    assert_eq!(p.str_short(), "1");
    assert_eq!(p.str_pretty(), "(1, 2)");
    assert_eq!(p.fmt_full(&mut Formatter::new()), Err(FormatError));
    let mut f = Formatter::new();
    f.write_str("a").unwrap();
    f.write_str("b").unwrap();
    assert_eq!(f.into_string(), "ab");
}

#[test]
fn try_parse_with_a_function() {
    let source = "a";
    let tokens = vec![Token::new(TokenKind::Ident, Span::new(source, "f", pos(0, 1)))];
    let mut input = ParseStream::new(&tokens);
    let r = input.try_parse_with(|s: &mut ParseStream<'_>| s.expect(TokenKind::Comma));
    assert!(r.is_err());
    assert_eq!(input.cursor(), 0);
    let r = input.try_parse_with(|s: &mut ParseStream<'_>| s.expect(TokenKind::Ident));
    assert!(r.is_ok());
    assert_eq!(input.cursor(), 1);
}

#[test]
fn line_endings_become_newlines() {
    assert_eq!(prog_lang::text::normalize_newlines("a\r\nb\r\n"), "a\nb\n");
    assert_eq!(prog_lang::text::normalize_newlines("\r\r\n\n"), "\r\n\n");
    assert_eq!(prog_lang::text::normalize_newlines("plain"), "plain");
}

#[test]
fn error_headlines() {
    let internal = ParseErrorKind::Internal(prog_lang::errors::Internal(String::from("x")));
    assert_eq!(internal.message(), "internal parser error");
    let unexpected = ParseErrorKind::UnexpectedToken(prog_lang::errors::UnexpectedToken {
        found: TokenKind::Eof,
        expected: None,
    });
    assert_eq!(unexpected.message(), "unexpected token");
}

#[test]
fn positions_from_ranges() {
    let p = Position::from(3..8);
    assert_eq!(p.start(), 3);
    assert_eq!(p.end(), 8);
}

#[test]
fn token_kind_names() {
    assert_eq!(TokenKind::LeftParen.name(), "LeftParen");
    assert_eq!(TokenKind::NoneKw.name(), "None");
}

#[test]
fn a_compiled_loop_runs_on_the_machine() {
    let program = Program {
        statements: vec![
            Statement::VariableDefine(VariableDefine {
                name: (String::from("c"), pos(0, 1)),
                value: Some(Expression::Term(Term::Literal(Literal::Boolean(true, pos(0, 1))))),
                position: pos(0, 1),
            }),
            Statement::WhileLoop(WhileLoop {
                condition: ident("c"),
                statements: vec![Statement::VariableAssign(VariableAssign {
                    name: (String::from("c"), pos(0, 1)),
                    value: Expression::Term(Term::Literal(Literal::Boolean(false, pos(0, 1)))),
                    position: pos(0, 1),
                })],
                position: pos(0, 1),
            }),
            Statement::Return(Return { expression: Some(ident("c")), position: pos(0, 1) }),
        ],
    };
    let mut compiler = Compiler::new();
    let code = compiler.compile(program);
    let mut vm = VM::new(Bytecode::new(code)).unwrap();
    let mut steps = 0;
    loop {
        steps += 1;
        assert!(steps < 100, "the loop does not end");
        match vm.step() {
            Ok(Event::Next) => {},
            Ok(Event::Finished(value)) => {
                assert!(matches!(value, Some(Value::Boolean(false))));
                break;
            },
            other => panic!("unexpected step: {other:?}"),
        }
    }
    assert_eq!(steps, 15);
}

fn hash_of(l: &Literal) -> u64 {
    let mut h = std::collections::hash_map::DefaultHasher::new();
    l.hash(&mut h);
    h.finish()
}

#[test]
fn equal_literals_hash_alike() {
    let a = Literal::Number(2.5f64.to_bits(), pos(1, 4));
    let b = Literal::Number(2.5f64.to_bits(), pos(1, 4));
    assert_eq!(hash_of(&a), hash_of(&b));
    let c = Literal::String(String::from("x"), pos(0, 3));
    let d = Literal::String(String::from("x"), pos(0, 3));
    assert_eq!(hash_of(&c), hash_of(&d));
}

#[test]
fn labels_past_nine_get_two_digits() {
    let mut statements = vec![];
    for _ in 0..5 {
        statements.push(Statement::WhileLoop(WhileLoop {
            condition: ident("c"),
            statements: vec![],
            position: pos(0, 1),
        }));
    }
    let mut compiler = Compiler::new();
    let code = compiler.compile(Program { statements });
    assert_eq!(code.len(), 15);
    assert!(matches!(&code[12], Instruction::LABEL(n, _) if n == "L9"));
    assert!(matches!(&code[13], Instruction::LABEL(n, _) if n == "L10"));
    assert!(matches!(&code[14], Instruction::JMP(l) if l == "L9"));
}

#[test]
fn checks_what_it_can_compile() {
    let loops = || {
        (0..2)
            .map(|_| {
                Statement::WhileLoop(WhileLoop {
                    condition: ident("c"),
                    statements: vec![],
                    position: pos(0, 1),
                })
            })
            .collect::<Vec<_>>()
    };
    let mut compiler = Compiler::new();
    assert!(compiler.can_compile(&Program { statements: loops() }));
    let code = compiler.try_compile(Program { statements: loops() }).unwrap();
    assert_eq!(code.len(), 6);
    let unsupported = Program {
        statements: vec![Statement::Break(Break { position: pos(0, 1) })],
    };
    assert!(!compiler.can_compile(&unsupported));
    assert!(compiler.try_compile(unsupported).is_none());
    let empty = Program {
        statements: vec![Statement::VariableDefine(VariableDefine {
            name: (String::from("x"), pos(0, 1)),
            value: Some(Expression::Empty(None)),
            position: pos(0, 1),
        })],
    };
    assert!(!compiler.can_compile(&empty));
    // The counter stood still: the next loop gets the labels after the first two loops.
    let code = compiler.try_compile(Program { statements: loops() }).unwrap();
    assert!(matches!(&code[0], Instruction::LABEL(n, _) if n == "L5"));
}

fn number_text(bits: u64) -> String {
    format!("{}", f64::from_bits(bits))
}

#[test]
fn syntax_written_as_text() {
    let lit = |b: bool| Term::Literal(Literal::Boolean(b, pos(0, 1)));
    let id = |n: &str| Term::Identifier(n.to_string(), pos(0, 1));
    assert_eq!(Literal::Number(2.5f64.to_bits(), pos(0, 1)).to_text(&number_text), "2.5");
    assert_eq!(Literal::String(String::from("hi"), pos(0, 1)).to_text(&number_text), "hi");
    let neg = Expression::Unary(Unary {
        operator: (UnaryOperator::Minus, pos(0, 1)),
        operand: id("x"),
        position: pos(0, 1),
    });
    assert_eq!(neg.to_text(&number_text), "-x");
    let not = Expression::Unary(Unary {
        operator: (UnaryOperator::Not, pos(0, 1)),
        operand: lit(true),
        position: pos(0, 1),
    });
    assert_eq!(not.to_text(&number_text), "not true");
    let sum = Expression::Binary(Binary {
        lhs: id("a"),
        operator: (BinaryOperator::Add, pos(0, 1)),
        rhs: Term::Literal(Literal::Number(1.0f64.to_bits(), pos(0, 1))),
        position: pos(0, 1),
    });
    assert_eq!(sum.to_text(&number_text), "a + 1");
    let access = Expression::Binary(Binary {
        lhs: id("o"),
        operator: (BinaryOperator::ObjectAccess, pos(0, 1)),
        rhs: id("f"),
        position: pos(0, 1),
    });
    assert_eq!(access.to_text(&number_text), "o.f");
    let list = Term::List(List(vec![ident("a"), ident("b"), num(3.0)], pos(0, 1)));
    assert_eq!(list.to_text(&number_text), "[a, b, 3]");
    let object = Term::Object(Object(
        vec![
            ObjectEntry { name: String::from("x"), value: num(1.0), position: pos(0, 1) },
            ObjectEntry { name: String::from("y"), value: ident("z"), position: pos(0, 1) },
        ],
        pos(0, 1),
    ));
    assert_eq!(object.to_text(&number_text), "{ x = 1, y = z }");
    assert_eq!(Term::Object(Object(vec![], pos(0, 1))).to_text(&number_text), "{  }");
    let call = Term::Call(Call {
        arguments: (vec![ident("a"), ident("b")], pos(0, 1)),
        function: Box::new(ident("f")),
        position: pos(0, 1),
    });
    assert_eq!(call.to_text(&number_text), "f(ab)");
    let func = Term::Function(Function {
        arguments: vec![(String::from("a"), pos(0, 1)), (String::from("b"), pos(0, 1))],
        statements: vec![],
        position: pos(0, 1),
    });
    assert_eq!(func.to_text(&number_text), "func(a, b)");
    let ext = Term::Extern(Extern(Box::new(ident("lib")), pos(0, 1)));
    assert_eq!(ext.to_text(&number_text), "extern lib");
    assert_eq!(Expression::Empty(None).to_text(&number_text), "");
}
