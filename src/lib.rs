pub mod ast;
pub mod builtin;
pub mod grammar;
pub mod interpreter;
pub mod lexer;
pub mod parser;
pub mod precedence;
pub mod text;
pub mod token;
