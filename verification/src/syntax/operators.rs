use vstd::prelude::*;
use crate::text::str_eq;

verus! {

#[derive(Debug, Clone, Copy, PartialEq, Eq, Hash)]
pub enum BinaryOperator {
    Add,
    Subtract,
    Divide,
    Multiply,
    Modulo,
    EqEq,
    NotEq,
    And,
    Or,
    Gt,
    Lt,
    Gte,
    Lte,
    ListAccess,
    ObjectAccess,
}

#[derive(Debug, Clone, Copy, PartialEq, Eq, Hash)]
pub enum UnaryOperator {
    Minus,
    Not,
}

impl BinaryOperator {
    /// How tightly the operator binds: comparisons and logic 1, addition and subtraction 2,
    /// multiplication, division and remainder 3, access 4.
    pub open spec fn spec_precedence(self) -> u8 {
        match self {
            BinaryOperator::EqEq | BinaryOperator::NotEq | BinaryOperator::And | BinaryOperator::Or
            | BinaryOperator::Gt | BinaryOperator::Lt | BinaryOperator::Gte | BinaryOperator::Lte => 1,
            BinaryOperator::Add | BinaryOperator::Subtract => 2,
            BinaryOperator::Multiply | BinaryOperator::Divide | BinaryOperator::Modulo => 3,
            BinaryOperator::ListAccess | BinaryOperator::ObjectAccess => 4,
        }
    }

    pub fn get_precedence(&self) -> (p: u8)
        ensures
            p == self.spec_precedence(),
    {
        match self {
            BinaryOperator::EqEq | BinaryOperator::NotEq | BinaryOperator::And | BinaryOperator::Or
            | BinaryOperator::Gt | BinaryOperator::Lt | BinaryOperator::Gte | BinaryOperator::Lte => 1,
            BinaryOperator::Add | BinaryOperator::Subtract => 2,
            BinaryOperator::Multiply | BinaryOperator::Divide | BinaryOperator::Modulo => 3,
            BinaryOperator::ListAccess | BinaryOperator::ObjectAccess => 4,
        }
    }

    /// The symbol that the operator is written with.
    pub open spec fn spec_symbol(self) -> Seq<char> {
        match self {
            BinaryOperator::Add => seq!['+'],
            BinaryOperator::Subtract => seq!['-'],
            BinaryOperator::Divide => seq!['/'],
            BinaryOperator::Multiply => seq!['*'],
            BinaryOperator::Modulo => seq!['%'],
            BinaryOperator::EqEq => seq!['=', '='],
            BinaryOperator::NotEq => seq!['!', '='],
            BinaryOperator::And => seq!['a', 'n', 'd'],
            BinaryOperator::Or => seq!['o', 'r'],
            BinaryOperator::Gt => seq!['>'],
            BinaryOperator::Lt => seq!['<'],
            BinaryOperator::Gte => seq!['>', '='],
            BinaryOperator::Lte => seq!['<', '='],
            BinaryOperator::ListAccess => seq!['=', '>'],
            BinaryOperator::ObjectAccess => seq!['.'],
        }
    }

    /// The symbol that the operator is written with.
    pub fn symbol(&self) -> (s: &'static str)
        ensures
            s@ == self.spec_symbol(),
    {
        proof {
            reveal_strlit("+");
            reveal_strlit("-");
            reveal_strlit("/");
            reveal_strlit("*");
            reveal_strlit("%");
            reveal_strlit("==");
            reveal_strlit("!=");
            reveal_strlit("and");
            reveal_strlit("or");
            reveal_strlit(">");
            reveal_strlit("<");
            reveal_strlit(">=");
            reveal_strlit("<=");
            reveal_strlit("=>");
            reveal_strlit(".");
        }
        match self {
            BinaryOperator::Add => "+",
            BinaryOperator::Subtract => "-",
            BinaryOperator::Divide => "/",
            BinaryOperator::Multiply => "*",
            BinaryOperator::Modulo => "%",
            BinaryOperator::EqEq => "==",
            BinaryOperator::NotEq => "!=",
            BinaryOperator::And => "and",
            BinaryOperator::Or => "or",
            BinaryOperator::Gt => ">",
            BinaryOperator::Lt => "<",
            BinaryOperator::Gte => ">=",
            BinaryOperator::Lte => "<=",
            BinaryOperator::ListAccess => "=>",
            BinaryOperator::ObjectAccess => ".",
        }
    }

    /// The operator written with `symbol`, if there is one.
    pub fn from_symbol(symbol: &str) -> (op: Option<BinaryOperator>)
        ensures
            op matches Some(o) ==> o.spec_symbol() == symbol@,
            op is None ==> forall|o: BinaryOperator| o.spec_symbol() != symbol@,
    {
        let ops = [
            BinaryOperator::Add,
            BinaryOperator::Subtract,
            BinaryOperator::Divide,
            BinaryOperator::Multiply,
            BinaryOperator::Modulo,
            BinaryOperator::EqEq,
            BinaryOperator::NotEq,
            BinaryOperator::And,
            BinaryOperator::Or,
            BinaryOperator::Gt,
            BinaryOperator::Lt,
            BinaryOperator::Gte,
            BinaryOperator::Lte,
            BinaryOperator::ListAccess,
            BinaryOperator::ObjectAccess,
        ];
        for i in 0..15
            invariant
                ops@ == seq![
                    BinaryOperator::Add,
                    BinaryOperator::Subtract,
                    BinaryOperator::Divide,
                    BinaryOperator::Multiply,
                    BinaryOperator::Modulo,
                    BinaryOperator::EqEq,
                    BinaryOperator::NotEq,
                    BinaryOperator::And,
                    BinaryOperator::Or,
                    BinaryOperator::Gt,
                    BinaryOperator::Lt,
                    BinaryOperator::Gte,
                    BinaryOperator::Lte,
                    BinaryOperator::ListAccess,
                    BinaryOperator::ObjectAccess,
                ],
                forall|k: int| 0 <= k < i ==> (#[trigger] ops@[k]).spec_symbol() != symbol@,
        {
            let op = ops[i];
            if str_eq(op.symbol(), symbol) {
                return Some(op);
            }
        }
        proof {
            assert forall|o: BinaryOperator| o.spec_symbol() != symbol@ by {
                match o {
                    BinaryOperator::Add => assert(ops@[0] == o),
                    BinaryOperator::Subtract => assert(ops@[1] == o),
                    BinaryOperator::Divide => assert(ops@[2] == o),
                    BinaryOperator::Multiply => assert(ops@[3] == o),
                    BinaryOperator::Modulo => assert(ops@[4] == o),
                    BinaryOperator::EqEq => assert(ops@[5] == o),
                    BinaryOperator::NotEq => assert(ops@[6] == o),
                    BinaryOperator::And => assert(ops@[7] == o),
                    BinaryOperator::Or => assert(ops@[8] == o),
                    BinaryOperator::Gt => assert(ops@[9] == o),
                    BinaryOperator::Lt => assert(ops@[10] == o),
                    BinaryOperator::Gte => assert(ops@[11] == o),
                    BinaryOperator::Lte => assert(ops@[12] == o),
                    BinaryOperator::ListAccess => assert(ops@[13] == o),
                    BinaryOperator::ObjectAccess => assert(ops@[14] == o),
                }
            }
        }
        None
    }
}

impl UnaryOperator {
    /// The symbol that the operator is written with.
    pub open spec fn spec_symbol(self) -> Seq<char> {
        match self {
            UnaryOperator::Minus => seq!['-'],
            UnaryOperator::Not => seq!['n', 'o', 't'],
        }
    }

    /// The symbol that the operator is written with.
    pub fn symbol(&self) -> (s: &'static str)
        ensures
            s@ == self.spec_symbol(),
    {
        proof {
            reveal_strlit("-");
            reveal_strlit("not");
        }
        match self {
            UnaryOperator::Minus => "-",
            UnaryOperator::Not => "not",
        }
    }

    /// The operator written with `symbol`, if there is one.
    pub fn from_symbol(symbol: &str) -> (op: Option<UnaryOperator>)
        ensures
            op matches Some(o) ==> o.spec_symbol() == symbol@,
            op is None ==> forall|o: UnaryOperator| o.spec_symbol() != symbol@,
    {
        if str_eq(UnaryOperator::Minus.symbol(), symbol) {
            Some(UnaryOperator::Minus)
        } else if str_eq(UnaryOperator::Not.symbol(), symbol) {
            Some(UnaryOperator::Not)
        } else {
            None
        }
    }
}

/// Each binary operator is written with its own symbol, so reading the symbol back gives the
/// operator.
pub proof fn lemma_binary_symbols_distinct(a: BinaryOperator, b: BinaryOperator)
    ensures
        a.spec_symbol() == b.spec_symbol() ==> a == b,
{
    if a.spec_symbol() == b.spec_symbol() {
        let s = a.spec_symbol();
        assert(s.len() == b.spec_symbol().len());
        match a {
            BinaryOperator::Add => assert(s[0] == '+'),
            BinaryOperator::Subtract => assert(s[0] == '-'),
            BinaryOperator::Divide => assert(s[0] == '/'),
            BinaryOperator::Multiply => assert(s[0] == '*'),
            BinaryOperator::Modulo => assert(s[0] == '%'),
            BinaryOperator::EqEq => assert(s[0] == '=' && s[1] == '='),
            BinaryOperator::NotEq => assert(s[0] == '!'),
            BinaryOperator::And => assert(s[0] == 'a'),
            BinaryOperator::Or => assert(s[0] == 'o'),
            BinaryOperator::Gt => assert(s[0] == '>'),
            BinaryOperator::Lt => assert(s[0] == '<'),
            BinaryOperator::Gte => assert(s[0] == '>' && s[1] == '='),
            BinaryOperator::Lte => assert(s[0] == '<' && s[1] == '='),
            BinaryOperator::ListAccess => assert(s[0] == '=' && s[1] == '>'),
            BinaryOperator::ObjectAccess => assert(s[0] == '.'),
        }
        match b {
            BinaryOperator::Add => assert(s[0] == '+'),
            BinaryOperator::Subtract => assert(s[0] == '-'),
            BinaryOperator::Divide => assert(s[0] == '/'),
            BinaryOperator::Multiply => assert(s[0] == '*'),
            BinaryOperator::Modulo => assert(s[0] == '%'),
            BinaryOperator::EqEq => assert(s[0] == '=' && s[1] == '='),
            BinaryOperator::NotEq => assert(s[0] == '!'),
            BinaryOperator::And => assert(s[0] == 'a'),
            BinaryOperator::Or => assert(s[0] == 'o'),
            BinaryOperator::Gt => assert(s[0] == '>'),
            BinaryOperator::Lt => assert(s[0] == '<'),
            BinaryOperator::Gte => assert(s[0] == '>' && s[1] == '='),
            BinaryOperator::Lte => assert(s[0] == '<' && s[1] == '='),
            BinaryOperator::ListAccess => assert(s[0] == '=' && s[1] == '>'),
            BinaryOperator::ObjectAccess => assert(s[0] == '.'),
        }
    }
}

/// Reading an operator's symbol back gives the operator.
pub proof fn lemma_binary_symbol_roundtrip(op: BinaryOperator, read: Option<BinaryOperator>, symbol: Seq<char>)
    requires
        symbol == op.spec_symbol(),
        read matches Some(o) ==> o.spec_symbol() == symbol,
        read is None ==> forall|o: BinaryOperator| o.spec_symbol() != symbol,
    ensures
        read == Some(op),
{
    if let Some(o) = read {
        lemma_binary_symbols_distinct(o, op);
    }
}

} // verus!
