use vstd::prelude::*;
use std::rc::Rc;
use crate::ast;
use crate::ast::Operator;
use crate::grammar::{
    SElem, SExpr, SStmt, block_is, call_tail, expr_is, first, function_tail, switch_tail, number_of, p_assign, p_access, p_array, p_block, p_call,
    p_call_args, p_case, p_cases, p_default, p_elements, p_expression, p_for, p_function, p_if, p_infix,
    p_infix_loop, p_nud, p_params, p_program, p_return, p_statement, p_stmts_until, p_switch, p_var_decl,
    p_watch, stmt_is, stmts_are, string_of,
};
use crate::lexer::Peekable;
use crate::precedence::Precedence;
use crate::text::push_char;
use crate::token::Token;

verus! {

/// A syntax error: the first unexpected token aborts parsing.
#[derive(Debug, PartialEq)]
pub struct ParseError {
    pub message: String,
    pub child: Option<Box<ParseError>>,
}

impl ParseError {
    pub fn new(message: &str) -> (e: ParseError)
        ensures
            e.message@ == message@,
    {
        ParseError { message: String::from_str(message), child: None }
    }

    pub fn description(&self) -> (r: &str)
        ensures
            r@ == self.message@,
    {
        self.message.as_str()
    }
}

/// The lexer only moves forward, and a successful parse takes at least one
/// token.
pub open spec fn progress(a: Peekable, b: Peekable, ok: bool) -> bool {
    &&& b.wf()
    &&& b.source() == a.source()
    &&& b.rest().len() <= a.rest().len()
    &&& (ok ==> b.rest().len() < a.rest().len())
}

pub open spec fn fails_with<T>(r: Result<T, ParseError>, m: Seq<char>) -> bool {
    r matches Err(e) && e.message@ == m
}

proof fn lemma_stmts_push(v: Seq<ast::Statement>, s: Seq<SStmt>, x: ast::Statement, sx: SStmt)
    requires
        stmts_are(v, s),
        stmt_is(x, sx),
    ensures
        stmts_are(v.push(x), s.push(sx)),
{
    assert forall|i: int| 0 <= i < s.push(sx).len() implies stmt_is(#[trigger] v.push(x)[i], s.push(sx)[i]) by {
        if i < s.len() {
            assert(v.push(x)[i] == v[i]);
        }
    }
}

/// Takes the next token, which must be `t`.
fn expect(lexer: &mut Peekable, t: Token, message: &str) -> (r: Result<(), ParseError>)
    requires
        old(lexer).wf(),
    ensures
        progress(*old(lexer), *final(lexer), r is Ok),
        match crate::grammar::p_expect(old(lexer).rest(), t, message@) {
            Ok(rest) => r is Ok && final(lexer).rest() == rest,
            Err(m) => fails_with(r, m),
        },
{
    match lexer.next() {
        Some(token) => if token == t {
            Ok(())
        } else {
            Err(ParseError::new(message))
        },
        None => Err(ParseError::new(message)),
    }
}

/// Takes an identifier and returns its name.
fn expect_identifier(lexer: &mut Peekable) -> (r: Result<String, ParseError>)
    requires
        old(lexer).wf(),
    ensures
        progress(*old(lexer), *final(lexer), r is Ok),
        match crate::grammar::p_ident(old(lexer).rest()) {
            Ok((name, rest)) => (r matches Ok(n) && n@ == name) && final(lexer).rest() == rest,
            Err(m) => fails_with(r, m),
        },
{
    match lexer.next() {
        Some(Token::Identifier) => match &lexer.current_slice {
            Some(s) => Ok(s.clone()),
            None => Ok(String::new()),
        },
        _ => Err(ParseError::new("expected identifier")),
    }
}

/// Takes the `;` that ends a statement.
fn end_of_statement(lexer: &mut Peekable) -> (r: Result<(), ParseError>)
    requires
        old(lexer).wf(),
    ensures
        progress(*old(lexer), *final(lexer), r is Ok),
        match crate::grammar::p_end(old(lexer).rest()) {
            Ok(rest) => r is Ok && final(lexer).rest() == rest,
            Err(m) => fails_with(r, m),
        },
{
    match lexer.peek() {
        Some(Token::Semicolon) => {
            lexer.next();
            Ok(())
        },
        _ => Err(ParseError::new("expected semicolon")),
    }
}

/// Takes a `,` if one comes next.
fn skip_comma(lexer: &mut Peekable)
    requires
        old(lexer).wf(),
    ensures
        progress(*old(lexer), *final(lexer), false),
        final(lexer).rest() == crate::grammar::skip_comma(old(lexer).rest()),
{
    if lexer.peek() == Some(Token::Comma) {
        lexer.next();
    }
}

/// Parses a whole token stream into a program.
pub fn parse(lexer: &mut Peekable) -> (r: Result<ast::Program, ParseError>)
    requires
        old(lexer).wf(),
    ensures
        progress(*old(lexer), *final(lexer), false),
        match p_program(old(lexer).rest(), Seq::empty()) {
            Ok(ss) => (r matches Ok(p) && stmts_are(p.statements@, ss)) && final(lexer).rest().len() == 0,
            Err(m) => fails_with(r, m),
        },
{
    let mut statements: Vec<ast::Statement> = Vec::new();
    let ghost mut acc: Seq<SStmt> = Seq::empty();
    while lexer.peek().is_some()
        invariant
            progress(*old(lexer), *lexer, false),
            p_program(old(lexer).rest(), Seq::empty()) == p_program(lexer.rest(), acc),
            stmts_are(statements@, acc),
        decreases lexer.rest().len(),
    {
        let ghost before = lexer.rest();
        let statement = match parse_statement(lexer) {
            Ok(statement) => statement,
            Err(error) => return Err(error),
        };
        let ghost ss = p_statement(before)->Ok_0.0;
        proof { lemma_stmts_push(statements@, acc, statement, ss); }
        statements.push(statement);
        proof { acc = acc.push(ss); }
    }
    Ok(ast::Program { statements })
}

/// One statement, chosen by its first token: `let`, `return` and `watch`
/// start declarations that end in `;`; anything else is an expression,
/// followed by `;` for an expression statement or by nothing for the value
/// of a block.
pub fn parse_statement(lexer: &mut Peekable) -> (r: Result<ast::Statement, ParseError>)
    requires
        old(lexer).wf(),
    ensures
        progress(*old(lexer), *final(lexer), r is Ok),
        match p_statement(old(lexer).rest()) {
            Ok((ss, rest)) => (r matches Ok(s) && stmt_is(s, ss)) && final(lexer).rest() == rest,
            Err(m) => fails_with(r, m),
        },
    decreases old(lexer).rest().len(), 5int,
{
    let token = match lexer.peek() {
        Some(token) => token,
        None => return Err(ParseError::new("unexpected end of file")),
    };
    match token {
        Token::Let => {
            let declaration = match parse_variable_declaration(lexer) {
                Ok(d) => d,
                Err(error) => return Err(error),
            };
            match end_of_statement(lexer) {
                Ok(()) => Ok(ast::Statement::VariableDeclaration(declaration)),
                Err(error) => Err(error),
            }
        },
        Token::Return => {
            let statement = match parse_return_statement(lexer) {
                Ok(s) => s,
                Err(error) => return Err(error),
            };
            match end_of_statement(lexer) {
                Ok(()) => Ok(ast::Statement::ReturnStatement(statement)),
                Err(error) => Err(error),
            }
        },
        Token::Watch => {
            let declaration = match parse_watch_declaration(lexer) {
                Ok(d) => d,
                Err(error) => return Err(error),
            };
            match end_of_statement(lexer) {
                Ok(()) => Ok(ast::Statement::WatchDeclaration(Rc::new(declaration))),
                Err(error) => Err(error),
            }
        },
        _ => {
            let expression = match parse_expression(lexer, Precedence::Lowest) {
                Ok(e) => e,
                Err(error) => return Err(error),
            };
            match lexer.peek() {
                Some(Token::Semicolon) => {
                    lexer.next();
                    Ok(ast::Statement::Expression(expression))
                },
                _ => Ok(ast::Statement::BlockReturnStatement(ast::BlockReturnStatement { value: expression })),
            }
        },
    }
}

/// `let name = expression` (the `;` is left to the caller).
pub fn parse_variable_declaration(lexer: &mut Peekable) -> (r: Result<ast::VariableDeclaration, ParseError>)
    requires
        old(lexer).wf(),
    ensures
        progress(*old(lexer), *final(lexer), r is Ok),
        match p_var_decl(old(lexer).rest()) {
            Ok((name, se, rest)) => (r matches Ok(d) && d.name@ == name && expr_is(d.value, se))
                && final(lexer).rest() == rest,
            Err(m) => fails_with(r, m),
        },
    decreases old(lexer).rest().len(), 4int,
{
    match expect(lexer, Token::Let, "expected let") {
        Ok(()) => {},
        Err(error) => return Err(error),
    }
    let name = match expect_identifier(lexer) {
        Ok(name) => name,
        Err(error) => return Err(error),
    };
    match lexer.next() {
        Some(Token::Assign) => {},
        Some(token) => {
            let message = String::from_str("expected assign after ").concat(name.as_str())
                .concat(" but got ").concat(token.name());
            return Err(ParseError { message, child: None });
        },
        None => return Err(ParseError::new("expected assign")),
    }
    let value = match parse_expression(lexer, Precedence::Lowest) {
        Ok(e) => e,
        Err(error) => return Err(error),
    };
    Ok(ast::VariableDeclaration { name, value })
}

/// The value of the number token just taken.
fn number_literal(lexer: &Peekable) -> (r: Result<ast::Expression, ParseError>)
    ensures
        lexer.current_slice matches Some(s) ==> match number_of(s@) {
            Ok(v) => r matches Ok(e) && expr_is(e, SExpr::Number(v)),
            Err(m) => fails_with(r, m),
        },
{
    match &lexer.current_slice {
        Some(s) => match crate::text::parse_number(s.as_str()) {
            Some(value) => Ok(ast::Expression::NumberLiteral(ast::NumberLiteral { value })),
            None => Err(ParseError::new("number out of range")),
        },
        None => Err(ParseError::new("expected number")),
    }
}

/// The contents of the string token just taken, without its quotes.
fn string_literal(lexer: &Peekable) -> (r: Result<ast::Expression, ParseError>)
    ensures
        lexer.current_slice matches Some(s) ==> match string_of(s@) {
            Ok(v) => r matches Ok(e) && expr_is(e, SExpr::Str(v)),
            Err(m) => fails_with(r, m),
        },
{
    match &lexer.current_slice {
        Some(s) => {
            let text = s.as_str();
            let n = text.unicode_len();
            if n < 2 {
                return Err(ParseError::new("expected string"));
            }
            let mut value = String::new();
            let mut i: usize = 1;
            while i + 1 < n
                invariant
                    1 <= i <= n - 1,
                    n == text@.len(),
                    value@ == text@.subrange(1, i as int),
                decreases n - i,
            {
                push_char(&mut value, text.get_char(i));
                i = i + 1;
                assert(value@ =~= text@.subrange(1, i as int));
            }
            Ok(ast::Expression::StringLiteral(ast::StringLiteral { value }))
        },
        None => Err(ParseError::new("expected string")),
    }
}

/// The prefix part of an expression: a literal, a name, or a construct that
/// starts with its own keyword or bracket.
fn parse_prefix(lexer: &mut Peekable) -> (r: Result<ast::Expression, ParseError>)
    requires
        old(lexer).wf(),
    ensures
        progress(*old(lexer), *final(lexer), r is Ok),
        match p_nud(old(lexer).rest()) {
            Ok((se, rest)) => (r matches Ok(e) && expr_is(e, se)) && final(lexer).rest() == rest,
            Err(m) => fails_with(r, m),
        },
    decreases old(lexer).rest().len(), 2int,
{
    let start = lexer.peek();
    match start {
        Some(Token::Number) => {
            lexer.next();
            number_literal(lexer)
        },
        Some(Token::Identifier) => {
            lexer.next();
            match &lexer.current_slice {
                Some(s) => Ok(ast::Expression::Identifier(ast::Identifier { value: s.clone() })),
                None => Err(ParseError::new("expected identifier")),
            }
        },
        Some(Token::Function) => match parse_function_expression(lexer) {
            Ok(f) => Ok(ast::Expression::FunctionLiteral(Rc::new(f))),
            Err(error) => Err(error),
        },
        Some(Token::If) => match parse_if_expression(lexer) {
            Ok(e) => Ok(ast::Expression::IfExpression(Box::new(e))),
            Err(error) => Err(error),
        },
        Some(Token::True) => {
            lexer.next();
            Ok(ast::Expression::BooleanLiteral(ast::BooleanLiteral { value: true }))
        },
        Some(Token::False) => {
            lexer.next();
            Ok(ast::Expression::BooleanLiteral(ast::BooleanLiteral { value: false }))
        },
        Some(Token::String) => {
            lexer.next();
            string_literal(lexer)
        },
        Some(Token::LBracket) => match parse_array_literal(lexer) {
            Ok(a) => Ok(ast::Expression::ArrayLiteral(a)),
            Err(error) => Err(error),
        },
        Some(Token::LParen) => {
            lexer.next();
            let inner = match parse_expression(lexer, Precedence::Lowest) {
                Ok(e) => e,
                Err(error) => return Err(error),
            };
            match expect(lexer, Token::RParen, "expected )") {
                Ok(()) => Ok(inner),
                Err(error) => Err(error),
            }
        },
        Some(Token::For) => match parse_for_expression(lexer) {
            Ok(e) => Ok(ast::Expression::ForExpression(Box::new(e))),
            Err(error) => Err(error),
        },
        Some(Token::Switch) => match parse_switch_expression(lexer) {
            Ok(e) => Ok(ast::Expression::SwitchExpression(Box::new(e))),
            Err(error) => Err(error),
        },
        Some(Token::LBrace) => match parse_block_statement(lexer) {
            Ok(b) => Ok(ast::Expression::BlockExpression(b)),
            Err(error) => Err(error),
        },
        _ => Err(ParseError::new("unexpected token")),
    }
}

/// An expression whose operators all bind more strongly than `precedence`:
/// a prefix part, then each following infix operator, call, index or
/// assignment of higher precedence, left to right.
pub fn parse_expression(lexer: &mut Peekable, precedence: Precedence) -> (r: Result<ast::Expression, ParseError>)
    requires
        old(lexer).wf(),
    ensures
        progress(*old(lexer), *final(lexer), r is Ok),
        match p_expression(old(lexer).rest(), precedence) {
            Ok((se, rest)) => (r matches Ok(e) && expr_is(e, se)) && final(lexer).rest() == rest,
            Err(m) => fails_with(r, m),
        },
    decreases old(lexer).rest().len(), 3int,
{
    let mut left = match parse_prefix(lexer) {
        Ok(e) => e,
        Err(error) => return Err(error),
    };
    let ghost mut sleft: SExpr = p_nud(old(lexer).rest())->Ok_0.0;
    let mut peeked = lexer.peek();
    while peeked.is_some() && peeked != Some(Token::Semicolon)
        && precedence.is_lower_than(&Precedence::get_precedence(&peeked.unwrap()))
        invariant
            progress(*old(lexer), *lexer, true),
            peeked == first(lexer.rest()),
            p_expression(old(lexer).rest(), precedence) == p_infix_loop(sleft, lexer.rest(), precedence),
            expr_is(left, sleft),
        decreases lexer.rest().len(),
    {
        let token = peeked.unwrap();
        let ghost before = lexer.rest();
        let expression = if token == Token::LParen {
            match parse_call_expression(lexer, left, Ghost(sleft)) {
                Ok(call) => ast::Expression::CallExpression(Box::new(call)),
                Err(error) => return Err(error),
            }
        } else if token == Token::LBracket {
            match parse_element_access_expression(lexer, left, Ghost(sleft)) {
                Ok(access) => ast::Expression::ElementAccessExpression(Box::new(access)),
                Err(error) => return Err(error),
            }
        } else if token == Token::Assign {
            match parse_assign(lexer, left, Ghost(sleft)) {
                Ok(assign) => ast::Expression::Assign(Box::new(assign)),
                Err(error) => return Err(error),
            }
        } else {
            match parse_infix_expression(lexer, left, Ghost(sleft)) {
                Ok(infix) => ast::Expression::InfixExpression(Box::new(infix)),
                Err(error) => return Err(error),
            }
        };
        proof {
            sleft = (if token == Token::LParen {
                p_call(sleft, before)
            } else if token == Token::LBracket {
                p_access(sleft, before)
            } else if token == Token::Assign {
                p_assign(sleft, before)
            } else {
                p_infix(sleft, before)
            })->Ok_0.0;
        }
        left = expression;
        peeked = lexer.peek();
    }
    Ok(left)
}

/// `left op right`, where `right` binds more strongly than `op`.
fn parse_infix_expression(lexer: &mut Peekable, left: ast::Expression, sleft: Ghost<SExpr>) -> (r: Result<ast::InfixExpression, ParseError>)
    requires
        old(lexer).wf(),
        expr_is(left, sleft@),
    ensures
        progress(*old(lexer), *final(lexer), r is Ok),
        match p_infix(sleft@, old(lexer).rest()) {
            Ok((se, rest)) => (r matches Ok(x) && expr_is(ast::Expression::InfixExpression(Box::new(x)), se))
                && final(lexer).rest() == rest,
            Err(m) => fails_with(r, m),
        },
    decreases old(lexer).rest().len(), 1int,
{
    let token = match lexer.next() {
        Some(token) => token,
        None => return Err(ParseError::new("unexpected end of file")),
    };
    if !(token.is_infix_operator() || token == Token::Bang) {
        return Err(ParseError::new("unexpected token"));
    }
    let precedence = Precedence::get_precedence(&token);
    let right = match parse_expression(lexer, precedence) {
        Ok(e) => e,
        Err(error) => return Err(error),
    };
    Ok(ast::InfixExpression { left, operator: Operator::get_operator(&token), right })
}

/// `left = right`; which left sides are assignable is decided when it runs.
fn parse_assign(lexer: &mut Peekable, left: ast::Expression, sleft: Ghost<SExpr>) -> (r: Result<ast::Assign, ParseError>)
    requires
        old(lexer).wf(),
        expr_is(left, sleft@),
    ensures
        progress(*old(lexer), *final(lexer), r is Ok),
        match p_assign(sleft@, old(lexer).rest()) {
            Ok((se, rest)) => (r matches Ok(x) && expr_is(ast::Expression::Assign(Box::new(x)), se))
                && final(lexer).rest() == rest,
            Err(m) => fails_with(r, m),
        },
    decreases old(lexer).rest().len(), 1int,
{
    match lexer.next() {
        Some(_) => {},
        None => return Err(ParseError::new("unexpected end of file")),
    }
    let right = match parse_expression(lexer, Precedence::Lowest) {
        Ok(e) => e,
        Err(error) => return Err(error),
    };
    Ok(ast::Assign { left, right })
}

/// Statements up to the closing `}` (which is left to the caller).
fn parse_statements_until_brace(lexer: &mut Peekable) -> (r: Result<Vec<ast::Statement>, ParseError>)
    requires
        old(lexer).wf(),
    ensures
        progress(*old(lexer), *final(lexer), false),
        match p_stmts_until(old(lexer).rest(), Seq::empty()) {
            Ok((ss, rest)) => (r matches Ok(v) && stmts_are(v@, ss)) && final(lexer).rest() == rest,
            Err(m) => fails_with(r, m),
        },
    decreases old(lexer).rest().len(), 6int,
{
    let mut statements: Vec<ast::Statement> = Vec::new();
    let ghost mut acc: Seq<SStmt> = Seq::empty();
    let mut peeked = lexer.peek();
    while peeked.is_some() && peeked != Some(Token::RBrace)
        invariant
            progress(*old(lexer), *lexer, false),
            peeked == first(lexer.rest()),
            p_stmts_until(old(lexer).rest(), Seq::empty()) == p_stmts_until(lexer.rest(), acc),
            stmts_are(statements@, acc),
        decreases lexer.rest().len(),
    {
        let ghost before = lexer.rest();
        let statement = match parse_statement(lexer) {
            Ok(s) => s,
            Err(error) => return Err(error),
        };
        let ghost ss = p_statement(before)->Ok_0.0;
        proof { lemma_stmts_push(statements@, acc, statement, ss); }
        statements.push(statement);
        proof { acc = acc.push(ss); }
        peeked = lexer.peek();
    }
    Ok(statements)
}

/// `fn (a, b, ...) { statements }`.
fn parse_function_expression(lexer: &mut Peekable) -> (r: Result<ast::FunctionLiteral, ParseError>)
    requires
        old(lexer).wf(),
    ensures
        progress(*old(lexer), *final(lexer), r is Ok),
        match p_function(old(lexer).rest()) {
            Ok((ps, body, rest)) => (r matches Ok(f) && expr_is(ast::Expression::FunctionLiteral(Rc::new(f)), SExpr::Function(ps, body)))
                && final(lexer).rest() == rest,
            Err(m) => fails_with(r, m),
        },
    decreases old(lexer).rest().len(), 1int,
{
    match expect(lexer, Token::Function, "expected function") {
        Ok(()) => {},
        Err(error) => return Err(error),
    }
    match expect(lexer, Token::LParen, "expected (") {
        Ok(()) => {},
        Err(error) => return Err(error),
    }
    let ghost start = lexer.rest();
    let mut parameters: Vec<ast::Identifier> = Vec::new();
    let ghost mut acc: Seq<Seq<char>> = Seq::empty();
    let mut peeked = lexer.peek();
    while peeked.is_some() && peeked != Some(Token::RParen)
        invariant
            progress(*old(lexer), *lexer, true),
            peeked == first(lexer.rest()),
            p_function(old(lexer).rest()) == function_tail(old(lexer).rest().len() as int, p_params(lexer.rest(), acc)),
            parameters@.len() == acc.len(),
            forall|i: int| 0 <= i < acc.len() ==> (#[trigger] parameters@[i]).value@ == acc[i],
        decreases lexer.rest().len(),
    {
        let name = match expect_identifier(lexer) {
            Ok(name) => name,
            Err(error) => return Err(error),
        };
        proof { acc = acc.push(name@); }
        parameters.push(ast::Identifier { value: name });
        skip_comma(lexer);
        peeked = lexer.peek();
    }
    match expect(lexer, Token::RParen, "expected )") {
        Ok(()) => {},
        Err(error) => return Err(error),
    }
    match expect(lexer, Token::LBrace, "expected {") {
        Ok(()) => {},
        Err(error) => return Err(error),
    }
    let ghost before_body = lexer.rest();
    let statements = match parse_statements_until_brace(lexer) {
        Ok(s) => s,
        Err(error) => return Err(error),
    };
    let ghost ss = p_stmts_until(before_body, Seq::empty())->Ok_0.0;
    match expect(lexer, Token::RBrace, "expected }") {
        Ok(()) => {},
        Err(error) => return Err(error),
    }
    let f = ast::FunctionLiteral { parameters, body: ast::BlockExpression { statements } };
    proof {
        assert(block_is(f.body, ss));
        assert forall|i: int| 0 <= i < acc.len() implies (#[trigger] f.parameters@[i]).value@ == acc[i] by {
            assert(f.parameters@[i] == parameters@[i]);
        }
        assert(expr_is(ast::Expression::FunctionLiteral(Rc::new(f)), SExpr::Function(acc, ss)));
    }
    Ok(f)
}

/// `left(arguments, ...)`.
fn parse_call_expression(lexer: &mut Peekable, left: ast::Expression, sleft: Ghost<SExpr>) -> (r: Result<ast::CallExpression, ParseError>)
    requires
        old(lexer).wf(),
        expr_is(left, sleft@),
    ensures
        progress(*old(lexer), *final(lexer), r is Ok),
        match p_call(sleft@, old(lexer).rest()) {
            Ok((se, rest)) => (r matches Ok(x) && expr_is(ast::Expression::CallExpression(Box::new(x)), se))
                && final(lexer).rest() == rest,
            Err(m) => fails_with(r, m),
        },
    decreases old(lexer).rest().len(), 1int,
{
    match expect(lexer, Token::LParen, "expected (") {
        Ok(()) => {},
        Err(error) => return Err(error),
    }
    let ghost start = lexer.rest();
    let mut arguments: Vec<ast::Expression> = Vec::new();
    let ghost mut acc: Seq<SExpr> = Seq::empty();
    let mut peeked = lexer.peek();
    while peeked.is_some() && peeked != Some(Token::RParen)
        invariant
            progress(*old(lexer), *lexer, true),
            peeked == first(lexer.rest()),
            p_call(sleft@, old(lexer).rest()) == call_tail(sleft@, p_call_args(lexer.rest(), acc)),
            arguments@.len() == acc.len(),
            forall|i: int| 0 <= i < acc.len() ==> expr_is(#[trigger] arguments@[i], acc[i]),
        decreases lexer.rest().len(),
    {
        let ghost before = lexer.rest();
        let argument = match parse_expression(lexer, Precedence::Lowest) {
            Ok(e) => e,
            Err(error) => return Err(error),
        };
        proof { acc = acc.push(p_expression(before, Precedence::Lowest)->Ok_0.0); }
        arguments.push(argument);
        skip_comma(lexer);
        peeked = lexer.peek();
    }
    match expect(lexer, Token::RParen, "expected )") {
        Ok(()) => {},
        Err(error) => return Err(error),
    }
    Ok(ast::CallExpression { left, arguments })
}

/// `return expression` (the `;` is left to the caller).
fn parse_return_statement(lexer: &mut Peekable) -> (r: Result<ast::ReturnStatement, ParseError>)
    requires
        old(lexer).wf(),
    ensures
        progress(*old(lexer), *final(lexer), r is Ok),
        match p_return(old(lexer).rest()) {
            Ok((se, rest)) => (r matches Ok(x) && expr_is(x.value, se)) && final(lexer).rest() == rest,
            Err(m) => fails_with(r, m),
        },
    decreases old(lexer).rest().len(), 4int,
{
    match expect(lexer, Token::Return, "expected return") {
        Ok(()) => {},
        Err(error) => return Err(error),
    }
    match parse_expression(lexer, Precedence::Lowest) {
        Ok(value) => Ok(ast::ReturnStatement { value }),
        Err(error) => Err(error),
    }
}

/// `if (condition) { ... }`, optionally followed by `else { ... }`.
fn parse_if_expression(lexer: &mut Peekable) -> (r: Result<ast::IfExpression, ParseError>)
    requires
        old(lexer).wf(),
    ensures
        progress(*old(lexer), *final(lexer), r is Ok),
        match p_if(old(lexer).rest()) {
            Ok((se, rest)) => (r matches Ok(x) && expr_is(ast::Expression::IfExpression(Box::new(x)), se))
                && final(lexer).rest() == rest,
            Err(m) => fails_with(r, m),
        },
    decreases old(lexer).rest().len(), 1int,
{
    match expect(lexer, Token::If, "expected if") {
        Ok(()) => {},
        Err(error) => return Err(error),
    }
    match expect(lexer, Token::LParen, "expected (") {
        Ok(()) => {},
        Err(error) => return Err(error),
    }
    let condition = match parse_expression(lexer, Precedence::Lowest) {
        Ok(e) => e,
        Err(error) => return Err(error),
    };
    match expect(lexer, Token::RParen, "expected )") {
        Ok(()) => {},
        Err(error) => return Err(error),
    }
    if lexer.peek() != Some(Token::LBrace) {
        return Err(ParseError::new("expected {"));
    }
    let consequence = match parse_block_statement(lexer) {
        Ok(b) => b,
        Err(error) => return Err(error),
    };
    match lexer.peek() {
        Some(Token::Else) => {
            lexer.next();
            if lexer.peek() != Some(Token::LBrace) {
                return Err(ParseError::new("expected {"));
            }
            match parse_block_statement(lexer) {
                Ok(alternative) => Ok(ast::IfExpression { condition, consequence, alternative: Some(alternative) }),
                Err(error) => Err(error),
            }
        },
        Some(_) => Ok(ast::IfExpression { condition, consequence, alternative: None }),
        None => Err(ParseError::new("expected {")),
    }
}

/// `{ statements }`.
pub fn parse_block_statement(lexer: &mut Peekable) -> (r: Result<ast::BlockExpression, ParseError>)
    requires
        old(lexer).wf(),
    ensures
        progress(*old(lexer), *final(lexer), r is Ok),
        match p_block(old(lexer).rest()) {
            Ok((ss, rest)) => (r matches Ok(b) && block_is(b, ss)) && final(lexer).rest() == rest,
            Err(m) => fails_with(r, m),
        },
    decreases old(lexer).rest().len(), 1int,
{
    match expect(lexer, Token::LBrace, "expected {") {
        Ok(()) => {},
        Err(error) => return Err(error),
    }
    let statements = match parse_statements_until_brace(lexer) {
        Ok(s) => s,
        Err(error) => return Err(error),
    };
    match expect(lexer, Token::RBrace, "expected }") {
        Ok(()) => {},
        Err(error) => return Err(error),
    }
    Ok(ast::BlockExpression { statements })
}

/// `[ elements ]`.
fn parse_array_literal(lexer: &mut Peekable) -> (r: Result<ast::ArrayLiteral, ParseError>)
    requires
        old(lexer).wf(),
    ensures
        progress(*old(lexer), *final(lexer), r is Ok),
        match p_array(old(lexer).rest()) {
            Ok((els, rest)) => (r matches Ok(x) && expr_is(ast::Expression::ArrayLiteral(x), SExpr::Array(els)))
                && final(lexer).rest() == rest,
            Err(m) => fails_with(r, m),
        },
    decreases old(lexer).rest().len(), 1int,
{
    match expect(lexer, Token::LBracket, "expected [") {
        Ok(()) => {},
        Err(error) => return Err(error),
    }
    let elements = match parse_comma_separated(lexer) {
        Ok(e) => e,
        Err(error) => return Err(error),
    };
    match expect(lexer, Token::RBracket, "expected ]") {
        Ok(()) => {},
        Err(error) => return Err(error),
    }
    Ok(ast::ArrayLiteral { elements })
}

pub open spec fn elem_is(x: ast::ArrayMapValue, s: SElem) -> bool {
    match (x, s) {
        (ast::ArrayMapValue::Value(v), SElem::Value(sv)) => expr_is(v, sv),
        (ast::ArrayMapValue::MapKeyValue(kv), SElem::Entry(k, sv)) => kv.key@ == k && expr_is(kv.value, sv),
        _ => false,
    }
}

/// Array elements up to `]`: values, or `name: value` entries whose key is
/// the identifier's name.
fn parse_comma_separated(lexer: &mut Peekable) -> (r: Result<Vec<ast::ArrayMapValue>, ParseError>)
    requires
        old(lexer).wf(),
    ensures
        progress(*old(lexer), *final(lexer), false),
        match p_elements(old(lexer).rest(), Seq::empty()) {
            Ok((els, rest)) => (r matches Ok(v) && v@.len() == els.len()
                && forall|i: int| 0 <= i < els.len() ==> elem_is(#[trigger] v@[i], els[i]))
                && final(lexer).rest() == rest,
            Err(m) => fails_with(r, m),
        },
    decreases old(lexer).rest().len(), 4int,
{
    let mut elements: Vec<ast::ArrayMapValue> = Vec::new();
    let ghost mut acc: Seq<SElem> = Seq::empty();
    let mut peeked = lexer.peek();
    while peeked.is_some() && peeked != Some(Token::RBracket)
        invariant
            progress(*old(lexer), *lexer, false),
            peeked == first(lexer.rest()),
            p_elements(old(lexer).rest(), Seq::empty()) == p_elements(lexer.rest(), acc),
            elements@.len() == acc.len(),
            forall|i: int| 0 <= i < acc.len() ==> elem_is(#[trigger] elements@[i], acc[i]),
        decreases lexer.rest().len(),
    {
        let ghost before = lexer.rest();
        let expression = match parse_expression(lexer, Precedence::Lowest) {
            Ok(e) => e,
            Err(error) => return Err(error),
        };
        let ghost se = p_expression(before, Precedence::Lowest)->Ok_0.0;
        if lexer.peek() == Some(Token::Colon) {
            let key = match expression {
                ast::Expression::Identifier(identifier) => identifier.value,
                _ => return Err(ParseError::new("expected string literal")),
            };
            lexer.next();
            let ghost before_value = lexer.rest();
            let value = match parse_expression(lexer, Precedence::Lowest) {
                Ok(e) => e,
                Err(error) => return Err(error),
            };
            proof { acc = acc.push(SElem::Entry(key@, p_expression(before_value, Precedence::Lowest)->Ok_0.0)); }
            elements.push(ast::ArrayMapValue::MapKeyValue(ast::MapKeyValue { key, value }));
        } else {
            proof { acc = acc.push(SElem::Value(se)); }
            elements.push(ast::ArrayMapValue::Value(expression));
        }
        skip_comma(lexer);
        peeked = lexer.peek();
    }
    Ok(elements)
}

/// `left[index]`.
fn parse_element_access_expression(lexer: &mut Peekable, left: ast::Expression, sleft: Ghost<SExpr>) -> (r: Result<ast::ElementAccessExpression, ParseError>)
    requires
        old(lexer).wf(),
        expr_is(left, sleft@),
    ensures
        progress(*old(lexer), *final(lexer), r is Ok),
        match p_access(sleft@, old(lexer).rest()) {
            Ok((se, rest)) => (r matches Ok(x) && expr_is(ast::Expression::ElementAccessExpression(Box::new(x)), se))
                && final(lexer).rest() == rest,
            Err(m) => fails_with(r, m),
        },
    decreases old(lexer).rest().len(), 1int,
{
    match expect(lexer, Token::LBracket, "expected [") {
        Ok(()) => {},
        Err(error) => return Err(error),
    }
    let index = match parse_expression(lexer, Precedence::Lowest) {
        Ok(e) => e,
        Err(error) => return Err(error),
    };
    match expect(lexer, Token::RBracket, "expected ]") {
        Ok(()) => {},
        Err(error) => return Err(error),
    }
    Ok(ast::ElementAccessExpression { left, index })
}

/// `for (name in iterable) { ... }`.
fn parse_for_expression(lexer: &mut Peekable) -> (r: Result<ast::ForExpression, ParseError>)
    requires
        old(lexer).wf(),
    ensures
        progress(*old(lexer), *final(lexer), r is Ok),
        match p_for(old(lexer).rest()) {
            Ok((se, rest)) => (r matches Ok(x) && expr_is(ast::Expression::ForExpression(Box::new(x)), se))
                && final(lexer).rest() == rest,
            Err(m) => fails_with(r, m),
        },
    decreases old(lexer).rest().len(), 1int,
{
    match expect(lexer, Token::For, "expected for") {
        Ok(()) => {},
        Err(error) => return Err(error),
    }
    match expect(lexer, Token::LParen, "expected (") {
        Ok(()) => {},
        Err(error) => return Err(error),
    }
    let name = match expect_identifier(lexer) {
        Ok(name) => name,
        Err(error) => return Err(error),
    };
    match expect(lexer, Token::In, "expected in") {
        Ok(()) => {},
        Err(error) => return Err(error),
    }
    let iterable = match parse_expression(lexer, Precedence::Lowest) {
        Ok(e) => e,
        Err(error) => return Err(error),
    };
    match expect(lexer, Token::RParen, "expected )") {
        Ok(()) => {},
        Err(error) => return Err(error),
    }
    match parse_block_statement(lexer) {
        Ok(body) => Ok(ast::ForExpression { variable: ast::Identifier { value: name }, iterable, body }),
        Err(error) => Err(error),
    }
}

/// `switch (expression) { case c: { ... } ... default: { ... } }`.
fn parse_switch_expression(lexer: &mut Peekable) -> (r: Result<ast::SwitchExpression, ParseError>)
    requires
        old(lexer).wf(),
    ensures
        progress(*old(lexer), *final(lexer), r is Ok),
        match p_switch(old(lexer).rest()) {
            Ok((se, rest)) => (r matches Ok(x) && expr_is(ast::Expression::SwitchExpression(Box::new(x)), se))
                && final(lexer).rest() == rest,
            Err(m) => fails_with(r, m),
        },
    decreases old(lexer).rest().len(), 1int,
{
    match expect(lexer, Token::Switch, "expected switch") {
        Ok(()) => {},
        Err(error) => return Err(error),
    }
    match expect(lexer, Token::LParen, "expected (") {
        Ok(()) => {},
        Err(error) => return Err(error),
    }
    let expression = match parse_expression(lexer, Precedence::Lowest) {
        Ok(e) => e,
        Err(error) => return Err(error),
    };
    match expect(lexer, Token::RParen, "expected )") {
        Ok(()) => {},
        Err(error) => return Err(error),
    }
    match expect(lexer, Token::LBrace, "expected {") {
        Ok(()) => {},
        Err(error) => return Err(error),
    }
    let ghost start = lexer.rest();
    let ghost sexpr = p_expression(old(lexer).rest().drop_first().drop_first(), Precedence::Lowest)->Ok_0.0;
    let mut cases: Vec<ast::Case> = Vec::new();
    let ghost mut acc: Seq<(SExpr, Seq<SStmt>)> = Seq::empty();
    let mut peeked = lexer.peek();
    while peeked.is_some() && peeked != Some(Token::RBrace) && peeked != Some(Token::Default)
        invariant
            progress(*old(lexer), *lexer, true),
            peeked == first(lexer.rest()),
            p_switch(old(lexer).rest()) == switch_tail(sexpr, old(lexer).rest().len() as int, p_cases(lexer.rest(), acc)),
            cases@.len() == acc.len(),
            forall|i: int| 0 <= i < acc.len() ==>
                expr_is(#[trigger] cases@[i].condition, acc[i].0) && block_is(cases@[i].body, acc[i].1),
        decreases lexer.rest().len(),
    {
        let ghost before = lexer.rest();
        let case = match parse_case(lexer) {
            Ok(c) => c,
            Err(error) => return Err(error),
        };
        proof { acc = acc.push(p_case(before)->Ok_0.0); }
        cases.push(case);
        peeked = lexer.peek();
    }
    let default = if lexer.peek() == Some(Token::Default) {
        match parse_default(lexer) {
            Ok(d) => Some(d),
            Err(error) => return Err(error),
        }
    } else {
        None
    };
    match expect(lexer, Token::RBrace, "expected }") {
        Ok(()) => {},
        Err(error) => return Err(error),
    }
    Ok(ast::SwitchExpression { expression, cases, default })
}

/// `case condition: { ... }`.
fn parse_case(lexer: &mut Peekable) -> (r: Result<ast::Case, ParseError>)
    requires
        old(lexer).wf(),
    ensures
        progress(*old(lexer), *final(lexer), r is Ok),
        match p_case(old(lexer).rest()) {
            Ok((sc, rest)) => (r matches Ok(c) && expr_is(c.condition, sc.0) && block_is(c.body, sc.1))
                && final(lexer).rest() == rest,
            Err(m) => fails_with(r, m),
        },
    decreases old(lexer).rest().len(), 1int,
{
    match expect(lexer, Token::Case, "expected case") {
        Ok(()) => {},
        Err(error) => return Err(error),
    }
    let condition = match parse_expression(lexer, Precedence::Lowest) {
        Ok(e) => e,
        Err(error) => return Err(error),
    };
    match expect(lexer, Token::Colon, "expected :") {
        Ok(()) => {},
        Err(error) => return Err(error),
    }
    match parse_block_statement(lexer) {
        Ok(body) => Ok(ast::Case { condition, body }),
        Err(error) => Err(error),
    }
}

/// `default: { ... }`.
fn parse_default(lexer: &mut Peekable) -> (r: Result<ast::Default, ParseError>)
    requires
        old(lexer).wf(),
    ensures
        progress(*old(lexer), *final(lexer), r is Ok),
        match p_default(old(lexer).rest()) {
            Ok((ss, rest)) => (r matches Ok(d) && block_is(d.body, ss)) && final(lexer).rest() == rest,
            Err(m) => fails_with(r, m),
        },
    decreases old(lexer).rest().len(), 1int,
{
    match expect(lexer, Token::Default, "expected default") {
        Ok(()) => {},
        Err(error) => return Err(error),
    }
    match expect(lexer, Token::Colon, "expected :") {
        Ok(()) => {},
        Err(error) => return Err(error),
    }
    match parse_block_statement(lexer) {
        Ok(body) => Ok(ast::Default { body }),
        Err(error) => Err(error),
    }
}

/// `watch name = { ... }` (the `;` is left to the caller).
fn parse_watch_declaration(lexer: &mut Peekable) -> (r: Result<ast::WatchDeclaration, ParseError>)
    requires
        old(lexer).wf(),
    ensures
        progress(*old(lexer), *final(lexer), r is Ok),
        match p_watch(old(lexer).rest()) {
            Ok((name, body, rest)) => (r matches Ok(d) && d.name@ == name && block_is(d.block, body))
                && final(lexer).rest() == rest,
            Err(m) => fails_with(r, m),
        },
    decreases old(lexer).rest().len(), 4int,
{
    match expect(lexer, Token::Watch, "expected watch") {
        Ok(()) => {},
        Err(error) => return Err(error),
    }
    let name = match expect_identifier(lexer) {
        Ok(name) => name,
        Err(error) => return Err(error),
    };
    match expect(lexer, Token::Assign, "expected assign") {
        Ok(()) => {},
        Err(error) => return Err(error),
    }
    match parse_block_statement(lexer) {
        Ok(block) => Ok(ast::WatchDeclaration { name, block }),
        Err(error) => Err(error),
    }
}

} // verus!
