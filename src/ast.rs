use vstd::prelude::*;
use std::rc::Rc;
use crate::token::{Token, spec_is_infix_operator};
use crate::text::{decimal, push_number, push_str};

verus! {

/// A whole source file: its statements in order.
#[derive(Debug, PartialEq)]
pub struct Program {
    pub statements: Vec<Statement>,
}

#[derive(Debug, PartialEq)]
pub enum Statement {
    VariableDeclaration(VariableDeclaration),
    Expression(Expression),
    ReturnStatement(ReturnStatement),
    BlockReturnStatement(BlockReturnStatement),
    WatchDeclaration(Rc<WatchDeclaration>),
}

#[derive(Debug, PartialEq)]
pub struct VariableDeclaration {
    pub name: String,
    pub value: Expression,
}

#[derive(Debug, PartialEq)]
pub enum Expression {
    InfixExpression(Box<InfixExpression>),
    NumberLiteral(NumberLiteral),
    Identifier(Identifier),
    FunctionLiteral(Rc<FunctionLiteral>),
    CallExpression(Box<CallExpression>),
    IfExpression(Box<IfExpression>),
    BooleanLiteral(BooleanLiteral),
    StringLiteral(StringLiteral),
    ArrayLiteral(ArrayLiteral),
    ElementAccessExpression(Box<ElementAccessExpression>),
    ForExpression(Box<ForExpression>),
    SwitchExpression(Box<SwitchExpression>),
    Assign(Box<Assign>),
    BlockExpression(BlockExpression),
}

#[derive(Debug, PartialEq)]
pub struct InfixExpression {
    pub left: Expression,
    pub operator: Operator,
    pub right: Expression,
}

#[derive(Debug, PartialEq)]
pub struct NumberLiteral {
    pub value: i32,
}

#[derive(Debug, PartialEq)]
pub struct Identifier {
    pub value: String,
}

#[derive(Clone, Copy, Debug, PartialEq, Eq, Structural)]
pub enum Operator {
    Plus,
    Minus,
    Asterisk,
    Slash,
    Percent,
    Equal,
    NotEqual,
    LessThan,
    LessThanOrEqual,
    GreaterThan,
    GreaterThanOrEqual,
    And,
    Or,
    Bang,
}

/// The tokens that name an operator: the infix operators and `!`.
pub open spec fn names_operator(t: Token) -> bool {
    spec_is_infix_operator(t) || t == Token::Bang
}

pub open spec fn operator_of(t: Token) -> Operator
    recommends
        names_operator(t),
{
    match t {
        Token::Plus => Operator::Plus,
        Token::Minus => Operator::Minus,
        Token::Asterisk => Operator::Asterisk,
        Token::Slash => Operator::Slash,
        Token::Percent => Operator::Percent,
        Token::Equal => Operator::Equal,
        Token::NotEqual => Operator::NotEqual,
        Token::LessThan => Operator::LessThan,
        Token::LessThanOrEqual => Operator::LessThanOrEqual,
        Token::GreaterThan => Operator::GreaterThan,
        Token::GreaterThanOrEqual => Operator::GreaterThanOrEqual,
        Token::And => Operator::And,
        Token::Or => Operator::Or,
        _ => Operator::Bang,
    }
}

/// How an operator is written.
pub open spec fn operator_symbol(op: Operator) -> Seq<char> {
    match op {
        Operator::Plus => "+"@,
        Operator::Minus => "-"@,
        Operator::Asterisk => "*"@,
        Operator::Slash => "/"@,
        Operator::Percent => "%"@,
        Operator::Equal => "=="@,
        Operator::NotEqual => "!="@,
        Operator::LessThan => "<"@,
        Operator::LessThanOrEqual => "<="@,
        Operator::GreaterThan => ">"@,
        Operator::GreaterThanOrEqual => ">="@,
        Operator::And => "&&"@,
        Operator::Or => "||"@,
        Operator::Bang => "!"@,
    }
}

impl Operator {
    pub fn symbol(&self) -> (r: &'static str)
        ensures
            r@ == operator_symbol(*self),
    {
        match self {
            Operator::Plus => "+",
            Operator::Minus => "-",
            Operator::Asterisk => "*",
            Operator::Slash => "/",
            Operator::Percent => "%",
            Operator::Equal => "==",
            Operator::NotEqual => "!=",
            Operator::LessThan => "<",
            Operator::LessThanOrEqual => "<=",
            Operator::GreaterThan => ">",
            Operator::GreaterThanOrEqual => ">=",
            Operator::And => "&&",
            Operator::Or => "||",
            Operator::Bang => "!",
        }
    }

    pub fn get_operator(token: &Token) -> (r: Operator)
        requires
            names_operator(*token),
        ensures
            r == operator_of(*token),
    {
        match token {
            Token::Plus => Operator::Plus,
            Token::Minus => Operator::Minus,
            Token::Asterisk => Operator::Asterisk,
            Token::Slash => Operator::Slash,
            Token::Percent => Operator::Percent,
            Token::Equal => Operator::Equal,
            Token::NotEqual => Operator::NotEqual,
            Token::LessThan => Operator::LessThan,
            Token::LessThanOrEqual => Operator::LessThanOrEqual,
            Token::GreaterThan => Operator::GreaterThan,
            Token::GreaterThanOrEqual => Operator::GreaterThanOrEqual,
            Token::And => Operator::And,
            Token::Or => Operator::Or,
            _ => Operator::Bang,
        }
    }
}

/// A short description of an expression, as error messages print it.
pub open spec fn describe(e: Expression) -> Seq<char>
    decreases e,
{
    match e {
        Expression::InfixExpression(x) => describe(x.left) + operator_symbol(x.operator) + describe(x.right),
        Expression::NumberLiteral(n) => "number Literal "@ + decimal(n.value as int),
        Expression::Identifier(id) => "identifier "@ + id.value@,
        Expression::FunctionLiteral(_) => "function"@,
        Expression::CallExpression(x) => "callExpression "@ + describe(x.left),
        Expression::IfExpression(_) => "if"@,
        Expression::BooleanLiteral(b) => "boolean "@ + (if b.value { "true"@ } else { "false"@ }),
        Expression::StringLiteral(t) => "string "@ + t.value@,
        Expression::ArrayLiteral(_) => "array"@,
        Expression::ElementAccessExpression(x) => "element access "@ + describe(x.left),
        Expression::ForExpression(_) => "for expression"@,
        Expression::SwitchExpression(_) => "switch expression"@,
        Expression::Assign(_) => "assign expression"@,
        Expression::BlockExpression(_) => "block expression"@,
    }
}

impl Expression {
    fn describe_into(&self, out: &mut String)
        ensures
            final(out)@ == old(out)@ + describe(*self),
        decreases self,
    {
        match self {
            Expression::InfixExpression(x) => {
                x.left.describe_into(out);
                push_str(out, x.operator.symbol());
                x.right.describe_into(out);
            },
            Expression::NumberLiteral(n) => {
                push_str(out, "number Literal ");
                push_number(out, n.value);
            },
            Expression::Identifier(id) => {
                push_str(out, "identifier ");
                push_str(out, id.value.as_str());
            },
            Expression::FunctionLiteral(_) => push_str(out, "function"),
            Expression::CallExpression(x) => {
                push_str(out, "callExpression ");
                x.left.describe_into(out);
            },
            Expression::IfExpression(_) => push_str(out, "if"),
            Expression::BooleanLiteral(b) => {
                push_str(out, "boolean ");
                if b.value { push_str(out, "true") } else { push_str(out, "false") }
            },
            Expression::StringLiteral(t) => {
                push_str(out, "string ");
                push_str(out, t.value.as_str());
            },
            Expression::ArrayLiteral(_) => push_str(out, "array"),
            Expression::ElementAccessExpression(x) => {
                push_str(out, "element access ");
                x.left.describe_into(out);
            },
            Expression::ForExpression(_) => push_str(out, "for expression"),
            Expression::SwitchExpression(_) => push_str(out, "switch expression"),
            Expression::Assign(_) => push_str(out, "assign expression"),
            Expression::BlockExpression(_) => push_str(out, "block expression"),
        }
        assert(final(out)@ =~= old(out)@ + describe(*self));
    }

    /// The description of the expression that error messages use.
    pub fn to_string(&self) -> (r: String)
        ensures
            r@ == describe(*self),
    {
        let mut out = String::new();
        self.describe_into(&mut out);
        assert(out@ =~= describe(*self));
        out
    }
}

#[derive(Debug, PartialEq)]
pub struct BlockExpression {
    pub statements: Vec<Statement>,
}

#[derive(Debug, PartialEq)]
pub struct FunctionLiteral {
    pub parameters: Vec<Identifier>,
    pub body: BlockExpression,
}

#[derive(Debug, PartialEq)]
pub struct CallExpression {
    pub left: Expression,
    pub arguments: Vec<Expression>,
}

#[derive(Debug, PartialEq)]
pub struct ReturnStatement {
    pub value: Expression,
}

pub struct BlockReturn {
    pub value: Expression,
}

#[derive(Debug, PartialEq)]
pub struct IfExpression {
    pub condition: Expression,
    pub consequence: BlockExpression,
    pub alternative: Option<BlockExpression>,
}

#[derive(Debug, PartialEq)]
pub struct BooleanLiteral {
    pub value: bool,
}

#[derive(Debug, PartialEq)]
pub struct StringLiteral {
    pub value: String,
}

#[derive(Debug, PartialEq)]
pub struct ArrayLiteral {
    pub elements: Vec<ArrayMapValue>,
}

#[derive(Debug, PartialEq)]
pub enum ArrayMapValue {
    MapKeyValue(MapKeyValue),
    Value(Expression),
}

#[derive(Debug, PartialEq)]
pub struct MapKeyValue {
    pub key: String,
    pub value: Expression,
}

#[derive(Debug, PartialEq)]
pub struct ElementAccessExpression {
    pub left: Expression,
    pub index: Expression,
}

#[derive(Debug, PartialEq)]
pub struct BlockReturnStatement {
    pub value: Expression,
}

#[derive(Debug, PartialEq)]
pub struct PrefixExpression {
    pub operator: Operator,
    pub right: Expression,
}

#[derive(Debug, PartialEq)]
pub struct ForExpression {
    pub variable: Identifier,
    pub iterable: Expression,
    pub body: BlockExpression,
}

#[derive(Debug, PartialEq)]
pub struct SwitchExpression {
    pub expression: Expression,
    pub cases: Vec<Case>,
    pub default: Option<Default>,
}

#[derive(Debug, PartialEq)]
pub struct Case {
    pub condition: Expression,
    pub body: BlockExpression,
}

#[derive(Debug, PartialEq)]
pub struct Default {
    pub body: BlockExpression,
}

#[derive(Debug, PartialEq)]
pub struct Assign {
    pub left: Expression,
    pub right: Expression,
}

#[derive(Debug, PartialEq)]
pub struct WatchDeclaration {
    pub name: String,
    pub block: BlockExpression,
}

} // verus!
