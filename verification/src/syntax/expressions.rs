use vstd::prelude::*;
use crate::span::Position;
use crate::syntax::statements::Statement;
use crate::syntax::operators;

verus! {

/// An expression of the language.
#[derive(Debug)]
pub enum Expression {
    Unary(Unary),
    Binary(Binary),
    Term(Term),
    /// The absent expression, with its position where one is known.
    Empty(Option<Position>),
}

/// An operator applied to one operand: `-x`, `not x`.
#[derive(Debug)]
pub struct Unary {
    pub operator: (operators::UnaryOperator, Position),
    pub operand: Term,
    pub position: Position,
}

/// An operator applied to two operands: `a + b`.
#[derive(Debug)]
pub struct Binary {
    pub lhs: Term,
    pub operator: (operators::BinaryOperator, Position),
    pub rhs: Term,
    pub position: Position,
}

/// An operand of an expression.
#[derive(Debug)]
pub enum Term {
    Extern(Extern),
    Object(Object),
    List(List),
    Call(Call),
    Function(Function),
    Literal(Literal),
    Identifier(String, Position),
    Expression(Box<Expression>),
}

/// `extern <expression>`.
#[derive(Debug)]
pub struct Extern(pub Box<Expression>, pub Position);

/// An object literal: `{ name = value, ... }`.
#[derive(Debug)]
pub struct Object(pub Vec<ObjectEntry>, pub Position);

/// One `name = value` field of an object literal.
#[derive(Debug)]
pub struct ObjectEntry {
    pub name: String,
    pub value: Expression,
    pub position: Position,
}

/// A list literal: `[a, b, ...]`.
#[derive(Debug)]
pub struct List(pub Vec<Expression>, pub Position);

/// A call `function(arguments...)`.
#[derive(Debug)]
pub struct Call {
    pub arguments: (Vec<Expression>, Position),
    pub function: Box<Expression>,
    pub position: Position,
}

/// A function literal `func(arguments...) do ... end`.
#[derive(Debug)]
pub struct Function {
    pub arguments: Vec<(String, Position)>,
    pub statements: Vec<Statement>,
    pub position: Position,
}

/// A literal value. A number is held as the bit pattern of its IEEE 754 double-precision
/// value, by which it is hashed.
#[derive(Debug, Hash)]
pub enum Literal {
    Boolean(bool, Position),
    String(String, Position),
    Number(u64, Position),
}


impl Expression {
    /// Where the expression lies in its source; the empty expression may not lack one.
    pub open spec fn spec_position(self) -> Position
        decreases self,
    {
        match self {
            Expression::Unary(u) => u.position,
            Expression::Binary(b) => b.position,
            Expression::Term(t) => t.spec_position(),
            Expression::Empty(p) => p->0,
        }
    }

    /// The expression has a position: it is not an empty expression without one, nor holds
    /// one as a lone operand.
    pub open spec fn has_position(self) -> bool
        decreases self,
    {
        match self {
            Expression::Term(t) => t.has_position(),
            Expression::Empty(p) => p is Some,
            _ => true,
        }
    }

    /// Where the expression lies in its source.
    pub fn position(&self) -> (p: Position)
        requires
            self.has_position(),
        ensures
            p == self.spec_position(),
        decreases self,
    {
        match self {
            Expression::Unary(value) => value.position,
            Expression::Binary(value) => value.position,
            Expression::Term(value) => value.position(),
            Expression::Empty(value) => value.unwrap(),
        }
    }

    /// The expression of an operand: the expression it wraps, or else the operand itself.
    pub fn from(value: Term) -> (e: Expression)
        ensures
            e == match value {
                Term::Expression(inner) => *inner,
                other => Expression::Term(other),
            },
    {
        match value {
            Term::Expression(expression) => *expression,
            other => Expression::Term(other),
        }
    }
}

impl Term {
    /// Where the operand lies in its source.
    pub open spec fn spec_position(self) -> Position
        decreases self,
    {
        match self {
            Term::Extern(x) => x.1,
            Term::Object(o) => o.1,
            Term::List(l) => l.1,
            Term::Call(c) => c.position,
            Term::Function(f) => f.position,
            Term::Literal(l) => l.spec_position(),
            Term::Identifier(_, p) => p,
            Term::Expression(e) => e.spec_position(),
        }
    }

    /// The operand has a position: it does not wrap an expression that lacks one.
    pub open spec fn has_position(self) -> bool
        decreases self,
    {
        match self {
            Term::Expression(e) => e.has_position(),
            _ => true,
        }
    }

    /// Where the operand lies in its source.
    pub fn position(&self) -> (p: Position)
        requires
            self.has_position(),
        ensures
            p == self.spec_position(),
        decreases self,
    {
        match self {
            Term::Extern(value) => value.1,
            Term::Object(value) => value.1,
            Term::List(value) => value.1,
            Term::Call(value) => value.position,
            Term::Function(value) => value.position,
            Term::Literal(value) => value.position(),
            Term::Identifier(_, value) => *value,
            Term::Expression(value) => value.position(),
        }
    }
}

impl Literal {
    /// Where the literal lies in its source.
    pub open spec fn spec_position(self) -> Position {
        match self {
            Literal::Boolean(_, p) => p,
            Literal::String(_, p) => p,
            Literal::Number(_, p) => p,
        }
    }

    /// Where the literal lies in its source.
    pub fn position(&self) -> (p: Position)
        ensures
            p == self.spec_position(),
    {
        match self {
            Literal::Boolean(_, value) => *value,
            Literal::String(_, value) => *value,
            Literal::Number(_, value) => *value,
        }
    }
}

} // verus!
