use vstd::prelude::*;
use crate::span::Position;
use crate::syntax::expressions::{Call, Expression};

verus! {

/// A statement of the language.
#[derive(Debug)]
pub enum Statement {
    VariableDefine(VariableDefine),
    VariableAssign(VariableAssign),
    DoBlock(DoBlock),
    Return(Return),
    Call(Call),
    WhileLoop(WhileLoop),
    Break(Break),
    Continue(Continue),
    If(If),
    ExpressionAssign(ExpressionAssign),
    ClassDefine(ClassDefine),
}

/// `def name` or `def name = value`.
#[derive(Debug)]
pub struct VariableDefine {
    pub name: (String, Position),
    pub value: Option<Expression>,
    pub position: Position,
}

/// `name = value`.
#[derive(Debug)]
pub struct VariableAssign {
    pub name: (String, Position),
    pub value: Expression,
    pub position: Position,
}

/// `do ... end`.
#[derive(Debug)]
pub struct DoBlock {
    pub statements: Vec<Statement>,
    pub position: Position,
}

/// `return` with an optional value.
#[derive(Debug)]
pub struct Return {
    pub expression: Option<Expression>,
    pub position: Position,
}

/// `while condition do ... end`.
#[derive(Debug)]
pub struct WhileLoop {
    pub condition: Expression,
    pub statements: Vec<Statement>,
    pub position: Position,
}

#[derive(Debug)]
pub struct Break {
    pub position: Position,
}

#[derive(Debug)]
pub struct Continue {
    pub position: Position,
}

/// `if condition then ... elseif ... else ... end`.
#[derive(Debug)]
pub struct If {
    pub condition: Expression,
    pub statements: Vec<Statement>,
    pub elseif_branches: Vec<ConditionBranch>,
    pub else_branch: Option<ConditionBranch>,
    pub position: Position,
}

/// An assignment to a place that an expression names, such as `object.field = value`.
#[derive(Debug)]
pub struct ExpressionAssign {
    pub expression: Expression,
    pub value: Expression,
    pub position: Position,
}

/// `class Name ... end`.
#[derive(Debug)]
pub struct ClassDefine {
    pub name: String,
    pub fields: Vec<VariableDefine>,
    pub position: Position,
}

/// A whole program.
#[derive(Debug)]
pub struct Program {
    pub statements: Vec<Statement>,
}

/// One branch of a conditional: a condition and the statements it guards.
#[derive(Debug)]
pub struct ConditionBranch {
    pub condition: Expression,
    pub statements: Vec<Statement>,
    pub position: Position,
}

impl Statement {
    /// Where the statement lies in its source.
    pub open spec fn spec_position(self) -> Position {
        match self {
            Statement::VariableDefine(s) => s.position,
            Statement::VariableAssign(s) => s.position,
            Statement::DoBlock(s) => s.position,
            Statement::Return(s) => s.position,
            Statement::Call(s) => s.position,
            Statement::WhileLoop(s) => s.position,
            Statement::Break(s) => s.position,
            Statement::Continue(s) => s.position,
            Statement::If(s) => s.position,
            Statement::ExpressionAssign(s) => s.position,
            Statement::ClassDefine(s) => s.position,
        }
    }

    /// Where the statement lies in its source.
    pub fn position(&self) -> (p: &Position)
        ensures
            *p == self.spec_position(),
    {
        match self {
            Statement::VariableDefine(stmt) => &stmt.position,
            Statement::VariableAssign(stmt) => &stmt.position,
            Statement::DoBlock(stmt) => &stmt.position,
            Statement::Return(stmt) => &stmt.position,
            Statement::Call(stmt) => &stmt.position,
            Statement::WhileLoop(stmt) => &stmt.position,
            Statement::Break(stmt) => &stmt.position,
            Statement::Continue(stmt) => &stmt.position,
            Statement::If(stmt) => &stmt.position,
            Statement::ExpressionAssign(stmt) => &stmt.position,
            Statement::ClassDefine(stmt) => &stmt.position,
        }
    }

    /// The name of the kind of statement.
    pub open spec fn spec_name(self) -> Seq<char> {
        match self {
            Statement::VariableDefine(_) => "VariableDefine"@,
            Statement::VariableAssign(_) => "VariableAssign"@,
            Statement::DoBlock(_) => "DoBlock"@,
            Statement::Return(_) => "Return"@,
            Statement::Call(_) => "Call"@,
            Statement::WhileLoop(_) => "WhileLoop"@,
            Statement::Break(_) => "Break"@,
            Statement::Continue(_) => "Continue"@,
            Statement::If(_) => "If"@,
            Statement::ExpressionAssign(_) => "ExpressionAssign"@,
            Statement::ClassDefine(_) => "ClassDefine"@,
        }
    }

    /// The name of the kind of statement.
    pub fn name(&self) -> (n: String)
        ensures
            n@ == self.spec_name(),
    {
        proof {
            reveal_strlit("VariableDefine");
            reveal_strlit("VariableAssign");
            reveal_strlit("DoBlock");
            reveal_strlit("Return");
            reveal_strlit("Call");
            reveal_strlit("WhileLoop");
            reveal_strlit("Break");
            reveal_strlit("Continue");
            reveal_strlit("If");
            reveal_strlit("ExpressionAssign");
            reveal_strlit("ClassDefine");
        }
        let name = match self {
            Statement::VariableDefine(_) => "VariableDefine",
            Statement::VariableAssign(_) => "VariableAssign",
            Statement::DoBlock(_) => "DoBlock",
            Statement::Return(_) => "Return",
            Statement::Call(_) => "Call",
            Statement::WhileLoop(_) => "WhileLoop",
            Statement::Break(_) => "Break",
            Statement::Continue(_) => "Continue",
            Statement::If(_) => "If",
            Statement::ExpressionAssign(_) => "ExpressionAssign",
            Statement::ClassDefine(_) => "ClassDefine",
        };
        name.to_owned()
    }
}

} // verus!
