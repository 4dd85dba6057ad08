use vstd::prelude::*;
use crate::token::Token;

verus! {

/// Binding strength of an infix or postfix token, weakest first.
#[derive(Clone, Copy, Debug, PartialEq, Eq, Structural)]
pub enum Precedence {
    Lowest,
    Assign,
    LogicalOr,
    LogicalAnd,
    Equals,
    LessGreater,
    Sum,
    Product,
    Prefix,
    Call,
    Index,
    Factorial,
}

impl Precedence {
    /// The position of the level in the order above.
    pub open spec fn rank(self) -> nat {
        match self {
            Precedence::Lowest => 0,
            Precedence::Assign => 1,
            Precedence::LogicalOr => 2,
            Precedence::LogicalAnd => 3,
            Precedence::Equals => 4,
            Precedence::LessGreater => 5,
            Precedence::Sum => 6,
            Precedence::Product => 7,
            Precedence::Prefix => 8,
            Precedence::Call => 9,
            Precedence::Index => 10,
            Precedence::Factorial => 11,
        }
    }

    pub open spec fn of_token(token: Token) -> Precedence {
        match token {
            Token::Assign => Precedence::Assign,
            Token::Or => Precedence::LogicalOr,
            Token::And => Precedence::LogicalAnd,
            Token::Equal | Token::NotEqual => Precedence::Equals,
            Token::LessThan | Token::LessThanOrEqual | Token::GreaterThan
            | Token::GreaterThanOrEqual => Precedence::LessGreater,
            Token::Plus | Token::Minus => Precedence::Sum,
            Token::Asterisk | Token::Slash | Token::Percent => Precedence::Product,
            Token::Bang => Precedence::Prefix,
            Token::LParen => Precedence::Call,
            Token::LBracket => Precedence::Index,
            _ => Precedence::Lowest,
        }
    }

    pub fn level(&self) -> (r: u8)
        ensures
            r as nat == self.rank(),
    {
        match self {
            Precedence::Lowest => 0,
            Precedence::Assign => 1,
            Precedence::LogicalOr => 2,
            Precedence::LogicalAnd => 3,
            Precedence::Equals => 4,
            Precedence::LessGreater => 5,
            Precedence::Sum => 6,
            Precedence::Product => 7,
            Precedence::Prefix => 8,
            Precedence::Call => 9,
            Precedence::Index => 10,
            Precedence::Factorial => 11,
        }
    }

    pub fn is_lower_than(&self, other: &Precedence) -> (r: bool)
        ensures
            r == (self.rank() < other.rank()),
    {
        self.level() < other.level()
    }

    pub fn is_higher_than(&self, other: &Precedence) -> (r: bool)
        ensures
            r == (self.rank() > other.rank()),
    {
        self.level() > other.level()
    }

    pub fn get_precedence(token: &Token) -> (r: Precedence)
        ensures
            r == Precedence::of_token(*token),
    {
        match token {
            Token::Assign => Precedence::Assign,
            Token::Or => Precedence::LogicalOr,
            Token::And => Precedence::LogicalAnd,
            Token::Equal | Token::NotEqual => Precedence::Equals,
            Token::LessThan
            | Token::LessThanOrEqual
            | Token::GreaterThan
            | Token::GreaterThanOrEqual => Precedence::LessGreater,
            Token::Plus | Token::Minus => Precedence::Sum,
            Token::Asterisk | Token::Slash | Token::Percent => Precedence::Product,
            Token::Bang => Precedence::Prefix,
            Token::LParen => Precedence::Call,
            Token::LBracket => Precedence::Index,
            _ => Precedence::Lowest,
        }
    }
}

} // verus!
