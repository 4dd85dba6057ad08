use vstd::prelude::*;

verus! {

/// The tokens of the language. Whitespace, newlines and `//` comments are
/// skipped by the lexer; `Newline` and `Comment` name what it skips.
#[derive(Clone, Copy, Debug, PartialEq, Eq, Structural)]
pub enum Token {
    Newline,
    Comment,
    Identifier,
    Plus,
    Minus,
    Asterisk,
    Slash,
    Or,
    And,
    NotEqual,
    Equal,
    LessThan,
    LessThanOrEqual,
    GreaterThan,
    GreaterThanOrEqual,
    Bang,
    Percent,
    Number,
    If,
    Else,
    LParen,
    RParen,
    LBrace,
    RBrace,
    LBracket,
    RBracket,
    Semicolon,
    Colon,
    Assign,
    Let,
    Comma,
    Function,
    Return,
    True,
    False,
    String,
    For,
    In,
    Switch,
    Case,
    Default,
    Watch,
}

/// The binary operators that the parser turns into an infix expression.
pub open spec fn spec_is_infix_operator(t: Token) -> bool {
    match t {
        Token::Plus | Token::Minus | Token::Asterisk | Token::Slash | Token::Or | Token::And
        | Token::NotEqual | Token::Equal | Token::LessThan | Token::LessThanOrEqual
        | Token::GreaterThan | Token::GreaterThanOrEqual | Token::Percent => true,
        _ => false,
    }
}

/// The name of a token kind, as error messages print it.
pub open spec fn token_name(t: Token) -> Seq<char> {
    match t {
        Token::Newline => "Newline"@,
        Token::Comment => "Comment"@,
        Token::Identifier => "Identifier"@,
        Token::Plus => "Plus"@,
        Token::Minus => "Minus"@,
        Token::Asterisk => "Asterisk"@,
        Token::Slash => "Slash"@,
        Token::Or => "Or"@,
        Token::And => "And"@,
        Token::NotEqual => "NotEqual"@,
        Token::Equal => "Equal"@,
        Token::LessThan => "LessThan"@,
        Token::LessThanOrEqual => "LessThanOrEqual"@,
        Token::GreaterThan => "GreaterThan"@,
        Token::GreaterThanOrEqual => "GreaterThanOrEqual"@,
        Token::Bang => "Bang"@,
        Token::Percent => "Percent"@,
        Token::Number => "Number"@,
        Token::If => "If"@,
        Token::Else => "Else"@,
        Token::LParen => "LParen"@,
        Token::RParen => "RParen"@,
        Token::LBrace => "LBrace"@,
        Token::RBrace => "RBrace"@,
        Token::LBracket => "LBracket"@,
        Token::RBracket => "RBracket"@,
        Token::Semicolon => "Semicolon"@,
        Token::Colon => "Colon"@,
        Token::Assign => "Assign"@,
        Token::Let => "Let"@,
        Token::Comma => "Comma"@,
        Token::Function => "Function"@,
        Token::Return => "Return"@,
        Token::True => "True"@,
        Token::False => "False"@,
        Token::String => "String"@,
        Token::For => "For"@,
        Token::In => "In"@,
        Token::Switch => "Switch"@,
        Token::Case => "Case"@,
        Token::Default => "Default"@,
        Token::Watch => "Watch"@,
    }
}

impl Token {
    pub fn name(&self) -> (r: &'static str)
        ensures
            r@ == token_name(*self),
    {
        match self {
            Token::Newline => "Newline",
            Token::Comment => "Comment",
            Token::Identifier => "Identifier",
            Token::Plus => "Plus",
            Token::Minus => "Minus",
            Token::Asterisk => "Asterisk",
            Token::Slash => "Slash",
            Token::Or => "Or",
            Token::And => "And",
            Token::NotEqual => "NotEqual",
            Token::Equal => "Equal",
            Token::LessThan => "LessThan",
            Token::LessThanOrEqual => "LessThanOrEqual",
            Token::GreaterThan => "GreaterThan",
            Token::GreaterThanOrEqual => "GreaterThanOrEqual",
            Token::Bang => "Bang",
            Token::Percent => "Percent",
            Token::Number => "Number",
            Token::If => "If",
            Token::Else => "Else",
            Token::LParen => "LParen",
            Token::RParen => "RParen",
            Token::LBrace => "LBrace",
            Token::RBrace => "RBrace",
            Token::LBracket => "LBracket",
            Token::RBracket => "RBracket",
            Token::Semicolon => "Semicolon",
            Token::Colon => "Colon",
            Token::Assign => "Assign",
            Token::Let => "Let",
            Token::Comma => "Comma",
            Token::Function => "Function",
            Token::Return => "Return",
            Token::True => "True",
            Token::False => "False",
            Token::String => "String",
            Token::For => "For",
            Token::In => "In",
            Token::Switch => "Switch",
            Token::Case => "Case",
            Token::Default => "Default",
            Token::Watch => "Watch",
        }
    }

    pub fn is_infix_operator(&self) -> (r: bool)
        ensures
            r == spec_is_infix_operator(*self),
    {
        match self {
            Token::Plus
            | Token::Minus
            | Token::Asterisk
            | Token::Slash
            | Token::Or
            | Token::And
            | Token::NotEqual
            | Token::Equal
            | Token::LessThan
            | Token::LessThanOrEqual
            | Token::GreaterThan
            | Token::GreaterThanOrEqual
            | Token::Percent => true,
            _ => false,
        }
    }
}

} // verus!
