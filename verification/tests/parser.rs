use prog_lang::ast::nodes::{
    BinaryOpKind, Expr, ExprAssign, FuncArgs, LitKind, Stmt, Term, UnaryExpr, UnaryOpKind,
    VarDefine,
};
use prog_lang::ast::parse::{parse_expr_list, parse_ident_list};
use prog_lang::ast::spans::ASTNode;
use prog_lang::ast::nodes::{Call, DoBlock, Ident, If, IndexAssign, Lit, Program, SelfKw};
use prog_lang::errors::ParseErrorKind;
use prog_lang::lexer::{Token, TokenKind};
use prog_lang::span::{Position, Span};
use prog_lang::stream::ParseStream;

/// Splits `source` at spaces and gives each word its token kind; an end-of-input token
/// follows.
fn lex(source: &'static str) -> Vec<Token<'static>> {
    let mut tokens = Vec::new();
    let mut start = 0;
    let bytes = source.as_bytes();
    while start < bytes.len() {
        if bytes[start] == b' ' {
            start += 1;
            continue;
        }
        let mut end = start;
        while end < bytes.len() && bytes[end] != b' ' {
            end += 1;
        }
        let word = &source[start..end];
        let kind = match word {
            "func" => TokenKind::Func,
            "def" => TokenKind::Def,
            "do" => TokenKind::Do,
            "end" => TokenKind::End,
            "return" => TokenKind::Return,
            "while" => TokenKind::While,
            "break" => TokenKind::Break,
            "continue" => TokenKind::Continue,
            "if" => TokenKind::If,
            "then" => TokenKind::Then,
            "elseif" => TokenKind::ElseIf,
            "else" => TokenKind::Else,
            "none" => TokenKind::NoneKw,
            "and" => TokenKind::And,
            "or" => TokenKind::Or,
            "not" => TokenKind::Not,
            "class" => TokenKind::Class,
            "extern" => TokenKind::Extern,
            "true" => TokenKind::True,
            "false" => TokenKind::False,
            "+" => TokenKind::Plus,
            "-" => TokenKind::Minus,
            "*" => TokenKind::Asterisk,
            "/" => TokenKind::Slash,
            "=" => TokenKind::Eq,
            "==" => TokenKind::EqEq,
            "!=" => TokenKind::Neq,
            "." => TokenKind::Dot,
            "," => TokenKind::Comma,
            "<" => TokenKind::Lt,
            ">" => TokenKind::Gt,
            "<=" => TokenKind::Lte,
            ">=" => TokenKind::Gte,
            "(" => TokenKind::LeftParen,
            ")" => TokenKind::RightParen,
            "{" => TokenKind::LeftBrace,
            "}" => TokenKind::RightBrace,
            "[" => TokenKind::LeftBracket,
            "]" => TokenKind::RightBracket,
            w if w.starts_with('"') => TokenKind::String,
            w if w.as_bytes()[0].is_ascii_digit() => TokenKind::Number,
            _ => TokenKind::Ident,
        };
        tokens.push(Token::new(kind, Span::new(source, "test.prog", Position::new(start, end))));
        start = end;
    }
    let n = source.len();
    tokens.push(Token::new(TokenKind::Eof, Span::new(source, "test.prog", Position::new(n, n))));
    tokens
}

fn text_of(e: &Expr<'_>) -> String {
    e.value_owned()
}

#[test]
fn ident_parses_one_identifier() {
    let tokens = lex("abc def");
    let mut input = ParseStream::new(&tokens);
    let i = Ident::parse(&mut input).unwrap();
    assert_eq!(i.token().value(), "abc");
    assert_eq!(input.cursor(), 1);
    assert!(Ident::parse(&mut input).is_err());
}

#[test]
fn self_keyword_checks_its_text() {
    let tokens = lex("self");
    let mut input = ParseStream::new(&tokens);
    assert!(SelfKw::parse(&mut input).is_ok());

    let tokens = lex("me");
    let mut input = ParseStream::new(&tokens);
    let err = SelfKw::parse(&mut input).err().unwrap();
    match err.kind {
        ParseErrorKind::Internal(m) => {
            assert_eq!(m.0, "tried to parse keyword `self` but found identifier `me`")
        },
        _ => panic!("wrong error kind"),
    }
    assert_eq!(err.span.position().start(), 0);
    assert_eq!(input.cursor(), 1);
}

#[test]
fn literals_keep_their_text() {
    let tokens = lex("12.5 \"hi\" true false none");
    let mut input = ParseStream::new(&tokens);
    match Lit::parse(&mut input).unwrap().kind {
        LitKind::Num(t) => assert_eq!(t, "12.5"),
        _ => panic!("not a number"),
    }
    match Lit::parse(&mut input).unwrap().kind {
        LitKind::Str(t) => assert_eq!(t, "hi"),
        _ => panic!("not a string"),
    }
    assert!(matches!(Lit::parse(&mut input).unwrap().kind, LitKind::Bool(true)));
    assert!(matches!(Lit::parse(&mut input).unwrap().kind, LitKind::Bool(false)));
    assert!(matches!(Lit::parse(&mut input).unwrap().kind, LitKind::Nil));
}

#[test]
fn unknown_literal_is_reported() {
    let tokens = lex("abc");
    let mut input = ParseStream::new(&tokens);
    let err = Lit::parse(&mut input).err().unwrap();
    match err.kind {
        ParseErrorKind::Internal(m) => assert_eq!(m.0, "unknown literal `abc` of type `Ident`"),
        _ => panic!("wrong error kind"),
    }
}

#[test]
fn strip_quotes_removes_outer_quotes() {
    assert_eq!(Lit::strip_quotes("\"abc\""), "abc");
    assert_eq!(Lit::strip_quotes("\"\"x\"\""), "x");
    assert_eq!(Lit::strip_quotes("x\"y"), "x\"y");
    assert_eq!(Lit::strip_quotes("\"\""), "");
}

#[test]
fn multiplication_binds_tighter_than_addition() {
    let tokens = lex("a + b * c");
    let mut input = ParseStream::new(&tokens);
    let e = Expr::parse(&mut input).unwrap();
    match &e {
        Expr::Binary(b) => {
            assert_eq!(b.op.kind, BinaryOpKind::Plus);
            assert!(matches!(b.lhs, Term::Ident(_)));
            match &b.rhs {
                Term::Expr(inner) => match inner.as_ref() {
                    Expr::Binary(b2) => assert_eq!(b2.op.kind, BinaryOpKind::Asterisk),
                    _ => panic!("rhs is not binary"),
                },
                _ => panic!("rhs is not an expression"),
            }
        },
        _ => panic!("not binary"),
    }
    assert_eq!(text_of(&e), "a + b * c");
    assert_eq!(input.cursor(), 5);
}

#[test]
fn operators_of_equal_power_group_to_the_left() {
    let tokens = lex("a * b + c");
    let mut input = ParseStream::new(&tokens);
    let e = Expr::parse(&mut input).unwrap();
    match &e {
        Expr::Binary(b) => {
            assert_eq!(b.op.kind, BinaryOpKind::Plus);
            assert!(matches!(b.rhs, Term::Ident(_)));
            match &b.lhs {
                Term::Expr(inner) => match inner.as_ref() {
                    Expr::Binary(b2) => assert_eq!(b2.op.kind, BinaryOpKind::Asterisk),
                    _ => panic!("lhs is not binary"),
                },
                _ => panic!("lhs is not an expression"),
            }
        },
        _ => panic!("not binary"),
    }
}

#[test]
fn postfix_calls_indexes_and_fields_chain() {
    let tokens = lex("f ( 1 , 2 ) [ 0 ] . x");
    let mut input = ParseStream::new(&tokens);
    let t = Term::parse(&mut input).unwrap();
    match &t {
        Term::FieldAcc(a) => {
            assert_eq!(a.field.token().value(), "x");
            match a.object.as_ref() {
                Term::IndexAcc(i) => match i.list.as_ref() {
                    Term::Call(c) => assert_eq!(c.args.len(), 2),
                    _ => panic!("not a call"),
                },
                _ => panic!("not an index"),
            }
        },
        _ => panic!("not a field access"),
    }
    assert_eq!(t.value_owned(), "f ( 1 , 2 ) [ 0 ] . x");
}

#[test]
fn unary_operators_start_no_term() {
    let tokens = lex("- a");
    let mut input = ParseStream::new(&tokens);
    let err = Term::parse(&mut input).err().unwrap();
    match err.kind {
        ParseErrorKind::Internal(m) => assert_eq!(m.0, "unsupported term `Minus`"),
        _ => panic!("wrong error kind"),
    }
    assert_eq!(input.cursor(), 0);
}

#[test]
fn lists_objects_and_functions() {
    let tokens = lex("[ 1 , 2 , ] { x = 1 , y = 2 } func ( self , a , b ) do return a end");
    let mut input = ParseStream::new(&tokens);
    match Term::parse(&mut input).unwrap() {
        Term::List(l) => assert_eq!(l.items.unwrap().len(), 2),
        _ => panic!("not a list"),
    }
    match Term::parse(&mut input).unwrap() {
        Term::Obj(o) => assert_eq!(o.fields.unwrap().len(), 2),
        _ => panic!("not an object"),
    }
    match Term::parse(&mut input).unwrap() {
        Term::Func(f) => {
            let items = f.args.items();
            assert_eq!(items.len(), 3);
            assert_eq!(items[0].token().value(), "self");
            assert_eq!(items[2].token().value(), "b");
            assert_eq!(f.block.stmts.len(), 1);
        },
        _ => panic!("not a function"),
    }
    let tokens = lex("[ ]");
    let mut input = ParseStream::new(&tokens);
    match Term::parse(&mut input).unwrap() {
        Term::List(l) => assert!(l.items.is_none()),
        _ => panic!("not a list"),
    }
}

#[test]
fn a_term_after_a_function_is_indexed() {
    let tokens = lex("func ( ) do end [ ]");
    let mut input = ParseStream::new(&tokens);
    let err = Term::parse(&mut input).err().unwrap();
    match err.kind {
        ParseErrorKind::Internal(m) => assert_eq!(m.0, "unsupported term `RightBracket`"),
        _ => panic!("wrong error kind"),
    }
}

#[test]
fn function_arguments() {
    let tokens = lex("self , a");
    let mut input = ParseStream::new(&tokens);
    let args = FuncArgs::parse(&mut input).unwrap();
    assert!(!args.is_empty());
    assert_eq!(args.span().value(), "self , a");

    let tokens = lex(")");
    let mut input = ParseStream::new(&tokens);
    let args = FuncArgs::parse(&mut input).unwrap();
    assert!(args.is_empty());
    assert_eq!(input.cursor(), 0);

    let tokens = lex("self ,");
    let mut input = ParseStream::new(&tokens);
    let args = FuncArgs::parse(&mut input).unwrap();
    assert_eq!(args.span().value(), "self");
    assert_eq!(input.cursor(), 2);
}

#[test]
fn self_followed_by_an_identifier_needs_a_comma() {
    let tokens = lex("self x");
    let mut input = ParseStream::new(&tokens);
    let err = FuncArgs::parse(&mut input).err().unwrap();
    match err.kind {
        ParseErrorKind::UnexpectedToken(u) => {
            assert_eq!(u.found, TokenKind::Ident);
            assert_eq!(u.expected, Some(TokenKind::Comma));
        },
        _ => panic!("wrong error kind"),
    }
    assert_eq!(err.span.position().start(), 5);
}

#[test]
fn comma_lists() {
    let tokens = lex("a , b , c )");
    let mut input = ParseStream::new(&tokens);
    let l = parse_ident_list(&mut input).unwrap();
    assert_eq!(l.len(), 3);
    assert_eq!(input.cursor(), 5);

    let tokens = lex(")");
    let mut input = ParseStream::new(&tokens);
    let err = parse_expr_list(&mut input).err().unwrap();
    match err.kind {
        ParseErrorKind::Internal(m) => assert_eq!(m.0, "punctuated list did not parse any items"),
        _ => panic!("wrong error kind"),
    }
    assert_eq!(input.cursor(), 0);
}

#[test]
fn statements_by_their_first_token() {
    let tokens = lex(
        "def x = 1 def y do end return x while x do break continue end if x then elseif y then else end class A def z end f ( )",
    );
    let mut input = ParseStream::new(&tokens);
    let program = Program::parse(&mut input).unwrap();
    let names: Vec<&str> = program
        .stmts
        .iter()
        .map(|s| match s {
            Stmt::VarDefine(_) => "def",
            Stmt::DoBlock(_) => "do",
            Stmt::Return(_) => "return",
            Stmt::WhileLoop(_) => "while",
            Stmt::If(_) => "if",
            Stmt::ClassDef(_) => "class",
            Stmt::Call(_) => "call",
            _ => "other",
        })
        .collect();
    assert_eq!(names, vec!["def", "def", "do", "return", "while", "if", "class", "call"]);
    match &program.stmts[1] {
        Stmt::VarDefine(d) => {
            assert!(d.value().is_none());
            assert_eq!(d.name().token().value(), "y");
            assert!(d._eq().is_none());
        },
        _ => panic!("not a definition"),
    }
    assert_eq!(program.span().value(), "def x = 1 def y do end return x while x do break continue end if x then elseif y then else end class A def z end f ( )");
}

#[test]
fn if_with_branches() {
    let tokens = lex("if a then b ( ) elseif c then d ( ) elseif e then else f ( ) end");
    let mut input = ParseStream::new(&tokens);
    let i = If::parse(&mut input).unwrap();
    assert_eq!(i.stmts.len(), 1);
    assert_eq!(i.b_elifs.len(), 2);
    assert_eq!(i.b_elifs[0].span().value(), "elseif c then d ( )");
    assert_eq!(i.b_elifs[1].span().value(), "elseif e then");
    assert_eq!(i.b_else.as_ref().unwrap().span().value(), "else f ( )");
}

#[test]
fn assignments_to_elements_and_fields() {
    let tokens = lex("a [ 0 ] = 1 b . c = 2");
    let mut input = ParseStream::new(&tokens);
    let s = Stmt::parse(&mut input).unwrap();
    match &s {
        Stmt::ExprAssign(ExprAssign::IndexAssign(a)) => {
            assert_eq!(a.span().value(), "a [ 0 ] = 1");
        },
        _ => panic!("not an element assignment"),
    }
    // The field assignment that directly follows is read and dropped.
    assert_eq!(input.cursor(), 11);
    assert_eq!(s.span().value(), "a [ 0 ] = 1");

    let tokens = lex("b . c = 2");
    let mut input = ParseStream::new(&tokens);
    match Stmt::parse(&mut input).unwrap() {
        Stmt::ExprAssign(ExprAssign::FieldAssign(a)) => assert_eq!(a.acc.field.token().value(), "c"),
        _ => panic!("not a field assignment"),
    }
}

#[test]
fn a_block_loses_a_field_assignment_after_an_element_assignment() {
    let tokens = lex("do a [ 0 ] = 1 b . c = 2 end");
    let mut input = ParseStream::new(&tokens);
    let b = DoBlock::parse(&mut input).unwrap();
    assert_eq!(b.stmts.len(), 1);
}

#[test]
fn no_statement_matched() {
    let tokens = lex("x = 1");
    let mut input = ParseStream::new(&tokens);
    let err = Stmt::parse(&mut input).err().unwrap();
    match err.kind {
        ParseErrorKind::Internal(m) => assert_eq!(m.0, "no statement matched"),
        _ => panic!("wrong error kind"),
    }
    assert_eq!(err.span.position().start(), 0);
}

#[test]
fn calls_as_statements() {
    let tokens = lex("print ( 1 , \"a\" )");
    let mut input = ParseStream::new(&tokens);
    let c = Call::parse(&mut input).unwrap();
    assert_eq!(c.args.len(), 2);
    assert_eq!(c.start(), 0);
    assert_eq!(c.end(), 17);

    let tokens = lex("x");
    let mut input = ParseStream::new(&tokens);
    let err = Call::parse(&mut input).err().unwrap();
    match err.kind {
        ParseErrorKind::Internal(m) => assert_eq!(m.0, "conversion of `Term` to variant `Call` failed"),
        _ => panic!("wrong error kind"),
    }
}

#[test]
fn empty_program() {
    let tokens = lex("");
    let mut input = ParseStream::new(&tokens);
    let p = Program::parse(&mut input).unwrap();
    assert!(p.stmts.is_empty());
}

#[test]
fn operator_kinds_round_trip() {
    for kind in [
        BinaryOpKind::Plus,
        BinaryOpKind::Minus,
        BinaryOpKind::Asterisk,
        BinaryOpKind::Slash,
        BinaryOpKind::Sign,
        BinaryOpKind::EqEq,
        BinaryOpKind::Neq,
        BinaryOpKind::And,
        BinaryOpKind::Or,
        BinaryOpKind::Gt,
        BinaryOpKind::Lt,
        BinaryOpKind::Gte,
        BinaryOpKind::Lte,
        BinaryOpKind::LeftBracket,
        BinaryOpKind::Dot,
    ] {
        assert_eq!(BinaryOpKind::try_from(TokenKind::from(kind)), Ok(kind));
    }
    assert_eq!(
        BinaryOpKind::try_from(TokenKind::Comma),
        Err(String::from("Unknown binary operator of type `Comma`"))
    );
    assert_eq!(UnaryOpKind::try_from(TokenKind::from(UnaryOpKind::Not)), Ok(UnaryOpKind::Not));
    assert_eq!(UnaryOpKind::try_from(TokenKind::from(UnaryOpKind::Minus)), Ok(UnaryOpKind::Minus));
    assert_eq!(
        UnaryOpKind::try_from(TokenKind::Plus),
        Err(String::from("Unknown unary operator of type `Plus`"))
    );
}

#[test]
fn variable_definition_without_value_keeps_its_name() {
    let tokens = lex("def x");
    let mut input = ParseStream::new(&tokens);
    match VarDefine::parse(&mut input).unwrap() {
        VarDefine::NoValue { name, .. } => assert_eq!(name.token().value(), "x"),
        _ => panic!("has a value"),
    }
}

#[test]
fn unary_expression_reads_an_operator_and_a_term() {
    let tokens = lex("- f ( 1 ) + 2");
    let mut input = ParseStream::new(&tokens);
    let u = UnaryExpr::parse(&mut input).unwrap();
    assert_eq!(u.op.kind, UnaryOpKind::Minus);
    assert!(matches!(u.operand, Term::Call(_)));
    assert_eq!(input.cursor(), 5);

    let tokens = lex("+ a");
    let mut input = ParseStream::new(&tokens);
    assert!(UnaryExpr::parse(&mut input).is_err());
}

#[test]
fn a_condition_without_then_is_reported_at_the_next_token() {
    let tokens = lex("if a end");
    let mut input = ParseStream::new(&tokens);
    let err = If::parse(&mut input).err().unwrap();
    match err.kind {
        ParseErrorKind::UnexpectedToken(u) => {
            assert_eq!(u.found, TokenKind::End);
            assert_eq!(u.expected, Some(TokenKind::Then));
        },
        _ => panic!("wrong error kind"),
    }
    assert_eq!(err.span.position().start(), 5);
}

#[test]
fn a_term_of_the_wrong_kind_is_reported_at_its_span() {
    let tokens = lex("f ( ) . x = 1");
    let mut input = ParseStream::new(&tokens);
    let err = IndexAssign::parse(&mut input).err().unwrap();
    match err.kind {
        ParseErrorKind::Internal(m) => {
            assert_eq!(m.0, "conversion of `Term` to variant `IndexAcc` failed")
        },
        _ => panic!("wrong error kind"),
    }
    assert_eq!(err.span.position().start(), 0);
    assert_eq!(err.span.position().end(), 9);
}

#[test]
fn an_unclosed_block_is_reported_at_the_end_of_input() {
    let tokens = lex("do break");
    let mut input = ParseStream::new(&tokens);
    let err = DoBlock::parse(&mut input).err().unwrap();
    match err.kind {
        ParseErrorKind::UnexpectedToken(u) => {
            assert_eq!(u.found, TokenKind::Eof);
            assert_eq!(u.expected, None);
        },
        _ => panic!("wrong error kind"),
    }
}
