//! Syntax trees written out in the language's own notation.

use vstd::prelude::*;
use vstd::string::StringExecFns;
use crate::span::Position;
use crate::syntax::expressions::{Expression, Literal, ObjectEntry, Term};
use crate::syntax::operators::{BinaryOperator, UnaryOperator};
use crate::vm::listing::writes_numbers_as;
use crate::vm::value::bool_text;

verus! {

/// A literal as text, a number written by `number`.
pub open spec fn literal_text(l: Literal, number: spec_fn(u64) -> Seq<char>) -> Seq<char> {
    match l {
        Literal::Boolean(b, _) => bool_text(b),
        Literal::String(s, _) => s@,
        Literal::Number(bits, _) => number(bits),
    }
}

/// An access operator, written without spaces around it.
pub open spec fn is_access(op: BinaryOperator) -> bool {
    op is ListAccess || op is ObjectAccess
}

/// An expression as text, numbers written by `number`: `-x`, `not x`, `a + b` (an access
/// without spaces), a term, or nothing for the empty expression.
pub open spec fn expr_text(e: Expression, number: spec_fn(u64) -> Seq<char>) -> Seq<char>
    decreases e,
{
    match e {
        Expression::Unary(u) => match u.operator.0 {
            UnaryOperator::Minus => u.operator.0.spec_symbol() + term_text(u.operand, number),
            UnaryOperator::Not => u.operator.0.spec_symbol() + " "@ + term_text(u.operand, number),
        },
        Expression::Binary(b) => if is_access(b.operator.0) {
            term_text(b.lhs, number) + b.operator.0.spec_symbol() + term_text(b.rhs, number)
        } else {
            term_text(b.lhs, number) + " "@ + b.operator.0.spec_symbol() + " "@ + term_text(
                b.rhs,
                number,
            )
        },
        Expression::Term(t) => term_text(t, number),
        Expression::Empty(_) => Seq::empty(),
    }
}

/// A term as text: `extern x`, `{ name = value, ... }`, `[a, b, ...]`, the function
/// followed by its arguments in brackets, written one after the other,
/// `func(a, b, ...)`, a literal, a name, or an expression.
pub open spec fn term_text(t: Term, number: spec_fn(u64) -> Seq<char>) -> Seq<char>
    decreases t,
{
    match t {
        Term::Extern(x) => "extern "@ + expr_text(*x.0, number),
        Term::Object(o) => {
            proof {
                assert(decreases_to!(t => o.0));
            }
            "{ "@ + entries_text(o.0@, number) + " }"@
        },
        Term::List(l) => {
            proof {
                assert(decreases_to!(t => l.0));
            }
            "["@ + exprs_text(l.0@, ", "@, number) + "]"@
        },
        Term::Call(c) => {
            proof {
                assert(decreases_to!(t => c.arguments.0));
            }
            expr_text(*c.function, number) + "("@ + exprs_text(c.arguments.0@, ""@, number)
                + ")"@
        },
        Term::Function(f) => "func("@ + names_text(f.arguments@) + ")"@,
        Term::Literal(l) => literal_text(l, number),
        Term::Identifier(name, _) => name@,
        Term::Expression(e) => expr_text(*e, number),
    }
}

/// The texts of `es`, with `sep` between two.
pub open spec fn exprs_text(
    es: Seq<Expression>,
    sep: Seq<char>,
    number: spec_fn(u64) -> Seq<char>,
) -> Seq<char>
    decreases es,
{
    if es.len() == 0 {
        Seq::empty()
    } else if es.len() == 1 {
        expr_text(es[0], number)
    } else {
        exprs_text(es.drop_last(), sep, number) + sep + expr_text(es.last(), number)
    }
}

/// The fields `name = value` of an object, with `, ` between two.
pub open spec fn entries_text(es: Seq<ObjectEntry>, number: spec_fn(u64) -> Seq<char>) -> Seq<
    char,
>
    decreases es,
{
    if es.len() == 0 {
        Seq::empty()
    } else {
        let last = es.last();
        let field = last.name@ + " = "@ + expr_text(last.value, number);
        if es.len() == 1 {
            field
        } else {
            entries_text(es.drop_last(), number) + ", "@ + field
        }
    }
}

/// The names of a function's arguments, with `, ` between two.
pub open spec fn names_text(args: Seq<(String, Position)>) -> Seq<char>
    decreases args.len(),
{
    if args.len() == 0 {
        Seq::empty()
    } else if args.len() == 1 {
        args[0].0@
    } else {
        names_text(args.drop_last()) + ", "@ + args.last().0@
    }
}

/// A text from a literal.
fn text_of(s: &str) -> (t: String)
    ensures
        t@ == s@,
{
    String::from_str(s)
}

impl Literal {
    /// The literal as text, a number written by `number_text`: `true` or `false`, the text
    /// itself, or the number.
    pub fn to_text<F: Fn(u64) -> String>(&self, number_text: &F) -> (t: String)
        requires
            forall|bits: u64| call_requires(*number_text, (bits,)),
        ensures
            forall|number: spec_fn(u64) -> Seq<char>|
                #[trigger] writes_numbers_as(*number_text, number) ==> t@ == literal_text(
                    *self,
                    number,
                ),
    {
        proof {
            reveal_strlit("true");
            reveal_strlit("false");
        }
        match self {
            Literal::Boolean(b, _) => if *b {
                text_of("true")
            } else {
                text_of("false")
            },
            Literal::String(s, _) => s.clone(),
            Literal::Number(bits, _) => number_text(*bits),
        }
    }
}

impl Expression {
    /// The expression as text, numbers written by `number_text`; see [`expr_text`].
    pub fn to_text<F: Fn(u64) -> String>(&self, number_text: &F) -> (t: String)
        requires
            forall|bits: u64| call_requires(*number_text, (bits,)),
        ensures
            forall|number: spec_fn(u64) -> Seq<char>|
                #[trigger] writes_numbers_as(*number_text, number) ==> t@ == expr_text(
                    *self,
                    number,
                ),
        decreases self,
    {
        match self {
            Expression::Unary(u) => {
                let mut t = text_of(u.operator.0.symbol());
                if let UnaryOperator::Not = u.operator.0 {
                    t.append(" ");
                }
                let operand = u.operand.to_text(number_text);
                t.append(operand.as_str());
                t
            },
            Expression::Binary(b) => {
                let mut t = b.lhs.to_text(number_text);
                let access = match b.operator.0 {
                    BinaryOperator::ListAccess | BinaryOperator::ObjectAccess => true,
                    _ => false,
                };
                if !access {
                    t.append(" ");
                }
                t.append(b.operator.0.symbol());
                if !access {
                    t.append(" ");
                }
                let rhs = b.rhs.to_text(number_text);
                t.append(rhs.as_str());
                t
            },
            Expression::Term(term) => term.to_text(number_text),
            Expression::Empty(_) => String::new(),
        }
    }
}

impl Term {
    /// The term as text, numbers written by `number_text`; see [`term_text`].
    pub fn to_text<F: Fn(u64) -> String>(&self, number_text: &F) -> (t: String)
        requires
            forall|bits: u64| call_requires(*number_text, (bits,)),
        ensures
            forall|number: spec_fn(u64) -> Seq<char>|
                #[trigger] writes_numbers_as(*number_text, number) ==> t@ == term_text(
                    *self,
                    number,
                ),
        decreases self,
    {
        match self {
            Term::Extern(x) => {
                let mut t = text_of("extern ");
                let inner = x.0.to_text(number_text);
                t.append(inner.as_str());
                t
            },
            Term::Object(o) => {
                proof {
                    assert(decreases_to!(*self => o.0));
                }
                let mut t = text_of("{ ");
                let fields = entries_to_text(&o.0, number_text);
                t.append(fields.as_str());
                t.append(" }");
                t
            },
            Term::List(l) => {
                proof {
                    assert(decreases_to!(*self => l.0));
                }
                let mut t = text_of("[");
                let items = exprs_to_text(&l.0, ", ", number_text);
                t.append(items.as_str());
                t.append("]");
                t
            },
            Term::Call(c) => {
                proof {
                    assert(decreases_to!(*self => c.arguments.0));
                }
                let mut t = c.function.to_text(number_text);
                t.append("(");
                let arguments = exprs_to_text(&c.arguments.0, "", number_text);
                t.append(arguments.as_str());
                t.append(")");
                t
            },
            Term::Function(f) => {
                let mut t = text_of("func(");
                let names = names_to_text(&f.arguments);
                t.append(names.as_str());
                t.append(")");
                t
            },
            Term::Literal(l) => l.to_text(number_text),
            Term::Identifier(name, _) => name.clone(),
            Term::Expression(e) => e.to_text(number_text),
        }
    }
}

/// The texts of `es`, with `sep` between two.
fn exprs_to_text<F: Fn(u64) -> String>(es: &Vec<Expression>, sep: &str, number_text: &F) -> (t:
    String)
    requires
        forall|bits: u64| call_requires(*number_text, (bits,)),
    ensures
        forall|number: spec_fn(u64) -> Seq<char>|
            #[trigger] writes_numbers_as(*number_text, number) ==> t@ == exprs_text(
                es@,
                sep@,
                number,
            ),
    decreases es,
{
    let mut text = String::new();
    let mut k: usize = 0;
    while k < es.len()
        invariant
            k <= es.len(),
            forall|bits: u64| call_requires(*number_text, (bits,)),
            forall|number: spec_fn(u64) -> Seq<char>|
                #[trigger] writes_numbers_as(*number_text, number) ==> text@ == exprs_text(
                    es@.take(k as int),
                    sep@,
                    number,
                ),
        decreases es.len() - k,
    {
        proof {
            assert(decreases_to!(*es => es@));
            assert(decreases_to!(es@ => es@[k as int]));
        }
        let item = es[k].to_text(number_text);
        if k > 0 {
            text.append(sep);
        }
        text.append(item.as_str());
        proof {
            assert(es@.take(k + 1).drop_last() =~= es@.take(k as int));
            assert(es@.take(k + 1).last() == es@[k as int]);
        }
        k = k + 1;
    }
    proof {
        assert(es@.take(k as int) =~= es@);
    }
    text
}

/// The fields `name = value` of an object, with `, ` between two.
fn entries_to_text<F: Fn(u64) -> String>(es: &Vec<ObjectEntry>, number_text: &F) -> (t: String)
    requires
        forall|bits: u64| call_requires(*number_text, (bits,)),
    ensures
        forall|number: spec_fn(u64) -> Seq<char>|
            #[trigger] writes_numbers_as(*number_text, number) ==> t@ == entries_text(es@, number),
    decreases es,
{
    let mut text = String::new();
    let mut k: usize = 0;
    while k < es.len()
        invariant
            k <= es.len(),
            forall|bits: u64| call_requires(*number_text, (bits,)),
            forall|number: spec_fn(u64) -> Seq<char>|
                #[trigger] writes_numbers_as(*number_text, number) ==> text@ == entries_text(
                    es@.take(k as int),
                    number,
                ),
        decreases es.len() - k,
    {
        proof {
            assert(decreases_to!(*es => es@));
            assert(decreases_to!(es@ => es@[k as int]));
            assert(decreases_to!(es@[k as int] => es@[k as int].value));
        }
        let entry = &es[k];
        let value = entry.value.to_text(number_text);
        if k > 0 {
            text.append(", ");
        }
        text.append(entry.name.as_str());
        text.append(" = ");
        text.append(value.as_str());
        proof {
            assert(es@.take(k + 1).drop_last() =~= es@.take(k as int));
            assert(es@.take(k + 1).last() == es@[k as int]);
        }
        k = k + 1;
    }
    proof {
        assert(es@.take(k as int) =~= es@);
    }
    text
}

/// The names of a function's arguments, with `, ` between two.
fn names_to_text(args: &Vec<(String, Position)>) -> (t: String)
    ensures
        t@ == names_text(args@),
{
    let mut text = String::new();
    let mut k: usize = 0;
    while k < args.len()
        invariant
            k <= args.len(),
            text@ == names_text(args@.take(k as int)),
        decreases args.len() - k,
    {
        if k > 0 {
            text.append(", ");
        }
        text.append(args[k].0.as_str());
        proof {
            assert(args@.take(k + 1).drop_last() =~= args@.take(k as int));
            assert(args@.take(k + 1).last() == args@[k as int]);
        }
        k = k + 1;
    }
    proof {
        assert(args@.take(k as int) =~= args@);
    }
    text
}

} // verus!
