use vstd::prelude::*;
use crate::ast::{
    ArrayMapValue, BlockExpression, Expression, Operator, Statement, operator_of,
};
use crate::precedence::Precedence;
use crate::text::{all_digits, digits_value};
use crate::token::{Token, spec_is_infix_operator, token_name};

verus! {

/// The mathematical form of an expression tree.
pub enum SExpr {
    Infix(Box<SExpr>, Operator, Box<SExpr>),
    Number(i32),
    Ident(Seq<char>),
    Function(Seq<Seq<char>>, Seq<SStmt>),
    Call(Box<SExpr>, Seq<SExpr>),
    If(Box<SExpr>, Seq<SStmt>, Option<Seq<SStmt>>),
    Bool(bool),
    Str(Seq<char>),
    Array(Seq<SElem>),
    Access(Box<SExpr>, Box<SExpr>),
    For(Seq<char>, Box<SExpr>, Seq<SStmt>),
    Switch(Box<SExpr>, Seq<(SExpr, Seq<SStmt>)>, Option<Seq<SStmt>>),
    Assign(Box<SExpr>, Box<SExpr>),
    Block(Seq<SStmt>),
}

pub enum SStmt {
    Let(Seq<char>, SExpr),
    Expr(SExpr),
    Return(SExpr),
    BlockReturn(SExpr),
    Watch(Seq<char>, Seq<SStmt>),
}

pub enum SElem {
    Value(SExpr),
    Entry(Seq<char>, SExpr),
}

pub type Toks = Seq<(Token, Seq<char>)>;

/// The tree `e` has the form `s`.
pub open spec fn expr_is(e: Expression, s: SExpr) -> bool
    decreases e,
{
    match e {
        Expression::InfixExpression(x) => match s {
            SExpr::Infix(l, op, r) => expr_is(x.left, *l) && x.operator == op && expr_is(x.right, *r),
            _ => false,
        },
        Expression::NumberLiteral(n) => s == SExpr::Number(n.value),
        Expression::Identifier(id) => s == SExpr::Ident(id.value@),
        Expression::FunctionLiteral(lit) => match s {
            SExpr::Function(ps, body) => lit.parameters@.len() == ps.len()
                && (forall|i: int| 0 <= i < ps.len() ==> (#[trigger] lit.parameters@[i]).value@ == ps[i])
                && block_is(lit.body, body),
            _ => false,
        },
        Expression::CallExpression(x) => match s {
            SExpr::Call(l, args) => expr_is(x.left, *l) && x.arguments@.len() == args.len()
                && forall|i: int| 0 <= i < args.len() ==> expr_is(#[trigger] x.arguments@[i], args[i]),
            _ => false,
        },
        Expression::IfExpression(x) => match s {
            SExpr::If(c, cons, alt) => expr_is(x.condition, *c) && block_is(x.consequence, cons)
                && match (x.alternative, alt) {
                    (Some(b), Some(sb)) => block_is(b, sb),
                    (None, None) => true,
                    _ => false,
                },
            _ => false,
        },
        Expression::BooleanLiteral(b) => s == SExpr::Bool(b.value),
        Expression::StringLiteral(t) => s == SExpr::Str(t.value@),
        Expression::ArrayLiteral(x) => match s {
            SExpr::Array(els) => x.elements@.len() == els.len()
                && forall|i: int| 0 <= i < els.len() ==> match (#[trigger] x.elements@[i], els[i]) {
                    (ArrayMapValue::Value(v), SElem::Value(sv)) => expr_is(v, sv),
                    (ArrayMapValue::MapKeyValue(kv), SElem::Entry(k, sv)) => kv.key@ == k && expr_is(kv.value, sv),
                    _ => false,
                },
            _ => false,
        },
        Expression::ElementAccessExpression(x) => match s {
            SExpr::Access(l, i) => expr_is(x.left, *l) && expr_is(x.index, *i),
            _ => false,
        },
        Expression::ForExpression(x) => match s {
            SExpr::For(name, it, body) => x.variable.value@ == name && expr_is(x.iterable, *it) && block_is(x.body, body),
            _ => false,
        },
        Expression::SwitchExpression(x) => match s {
            SExpr::Switch(v, cases, d) => expr_is(x.expression, *v) && x.cases@.len() == cases.len()
                && (forall|i: int| 0 <= i < cases.len() ==>
                    expr_is(#[trigger] x.cases@[i].condition, cases[i].0) && block_is(x.cases@[i].body, cases[i].1))
                && match (x.default, d) {
                    (Some(dd), Some(sd)) => block_is(dd.body, sd),
                    (None, None) => true,
                    _ => false,
                },
            _ => false,
        },
        Expression::Assign(x) => match s {
            SExpr::Assign(l, r) => expr_is(x.left, *l) && expr_is(x.right, *r),
            _ => false,
        },
        Expression::BlockExpression(b) => match s {
            SExpr::Block(ss) => block_is(b, ss),
            _ => false,
        },
    }
}

pub open spec fn block_is(b: BlockExpression, s: Seq<SStmt>) -> bool
    decreases b,
{
    b.statements@.len() == s.len() && forall|i: int| 0 <= i < s.len() ==> stmt_is(#[trigger] b.statements@[i], s[i])
}

pub open spec fn stmt_is(st: Statement, s: SStmt) -> bool
    decreases st,
{
    match st {
        Statement::VariableDeclaration(vd) => match s {
            SStmt::Let(name, e) => vd.name@ == name && expr_is(vd.value, e),
            _ => false,
        },
        Statement::Expression(e) => match s {
            SStmt::Expr(se) => expr_is(e, se),
            _ => false,
        },
        Statement::ReturnStatement(rs) => match s {
            SStmt::Return(se) => expr_is(rs.value, se),
            _ => false,
        },
        Statement::BlockReturnStatement(bs) => match s {
            SStmt::BlockReturn(se) => expr_is(bs.value, se),
            _ => false,
        },
        Statement::WatchDeclaration(d) => match s {
            SStmt::Watch(name, body) => d.name@ == name && block_is(d.block, body),
            _ => false,
        },
    }
}

pub open spec fn stmts_are(v: Seq<Statement>, s: Seq<SStmt>) -> bool {
    v.len() == s.len() && forall|i: int| 0 <= i < s.len() ==> stmt_is(#[trigger] v[i], s[i])
}

pub open spec fn first(ts: Toks) -> Option<Token> {
    if ts.len() > 0 { Some(ts[0].0) } else { None }
}

pub open spec fn p_expect(ts: Toks, t: Token, message: Seq<char>) -> Result<Toks, Seq<char>> {
    if ts.len() > 0 && ts[0].0 == t { Ok(ts.drop_first()) } else { Err(message) }
}

pub open spec fn p_ident(ts: Toks) -> Result<(Seq<char>, Toks), Seq<char>> {
    if ts.len() > 0 && ts[0].0 == Token::Identifier {
        Ok((ts[0].1, ts.drop_first()))
    } else {
        Err("expected identifier"@)
    }
}

pub open spec fn p_end(ts: Toks) -> Result<Toks, Seq<char>> {
    if first(ts) == Some(Token::Semicolon) { Ok(ts.drop_first()) } else { Err("expected semicolon"@) }
}

pub open spec fn skip_comma(ts: Toks) -> Toks {
    if first(ts) == Some(Token::Comma) { ts.drop_first() } else { ts }
}

pub open spec fn no_progress() -> Seq<char> {
    "no progress"@
}

/// The number a number token stands for.
pub open spec fn number_of(text: Seq<char>) -> Result<i32, Seq<char>> {
    if all_digits(text) && digits_value(text) <= i32::MAX {
        Ok(digits_value(text) as i32)
    } else {
        Err("number out of range"@)
    }
}

/// The contents of a string token, quotes removed.
pub open spec fn string_of(text: Seq<char>) -> Result<Seq<char>, Seq<char>> {
    if text.len() < 2 { Err("expected string"@) } else { Ok(text.subrange(1, text.len() - 1)) }
}

/// A program: statements until the tokens run out.
pub open spec fn p_program(ts: Toks, acc: Seq<SStmt>) -> Result<Seq<SStmt>, Seq<char>>
    decreases ts.len(),
{
    if ts.len() == 0 {
        Ok(acc)
    } else {
        match p_statement(ts) {
            Err(m) => Err(m),
            Ok((s, r)) => if r.len() < ts.len() { p_program(r, acc.push(s)) } else { Err(no_progress()) },
        }
    }
}

pub open spec fn p_statement(ts: Toks) -> Result<(SStmt, Toks), Seq<char>>
    decreases ts.len(), 5int,
{
    if ts.len() == 0 {
        Err("unexpected end of file"@)
    } else if ts[0].0 == Token::Let {
        match p_var_decl(ts) {
            Err(m) => Err(m),
            Ok((name, e, r1)) => match p_end(r1) {
                Ok(r2) => Ok((SStmt::Let(name, e), r2)),
                Err(m) => Err(m),
            },
        }
    } else if ts[0].0 == Token::Return {
        match p_return(ts) {
            Err(m) => Err(m),
            Ok((e, r1)) => match p_end(r1) {
                Ok(r2) => Ok((SStmt::Return(e), r2)),
                Err(m) => Err(m),
            },
        }
    } else if ts[0].0 == Token::Watch {
        match p_watch(ts) {
            Err(m) => Err(m),
            Ok((name, body, r1)) => match p_end(r1) {
                Ok(r2) => Ok((SStmt::Watch(name, body), r2)),
                Err(m) => Err(m),
            },
        }
    } else {
        match p_expression(ts, Precedence::Lowest) {
            Err(m) => Err(m),
            Ok((e, r1)) => if first(r1) == Some(Token::Semicolon) {
                Ok((SStmt::Expr(e), r1.drop_first()))
            } else {
                Ok((SStmt::BlockReturn(e), r1))
            },
        }
    }
}

pub open spec fn p_var_decl(ts: Toks) -> Result<(Seq<char>, SExpr, Toks), Seq<char>>
    decreases ts.len(), 4int,
{
    match p_expect(ts, Token::Let, "expected let"@) {
        Err(m) => Err(m),
        Ok(r1) => match p_ident(r1) {
            Err(m) => Err(m),
            Ok((name, r2)) => if r2.len() == 0 {
                Err("expected assign"@)
            } else if r2[0].0 != Token::Assign {
                Err("expected assign after "@ + name + " but got "@ + token_name(r2[0].0))
            } else {
                match p_expression(r2.drop_first(), Precedence::Lowest) {
                    Err(m) => Err(m),
                    Ok((e, r4)) => Ok((name, e, r4)),
                }
            },
        },
    }
}

pub open spec fn p_return(ts: Toks) -> Result<(SExpr, Toks), Seq<char>>
    decreases ts.len(), 4int,
{
    match p_expect(ts, Token::Return, "expected return"@) {
        Err(m) => Err(m),
        Ok(r1) => p_expression(r1, Precedence::Lowest),
    }
}

pub open spec fn p_watch(ts: Toks) -> Result<(Seq<char>, Seq<SStmt>, Toks), Seq<char>>
    decreases ts.len(), 4int,
{
    match p_expect(ts, Token::Watch, "expected watch"@) {
        Err(m) => Err(m),
        Ok(r1) => match p_ident(r1) {
            Err(m) => Err(m),
            Ok((name, r2)) => match p_expect(r2, Token::Assign, "expected assign"@) {
                Err(m) => Err(m),
                Ok(r3) => match p_block(r3) {
                    Err(m) => Err(m),
                    Ok((body, r4)) => Ok((name, body, r4)),
                },
            },
        },
    }
}

/// The prefix part of an expression: a literal, a name, or a construct
/// that starts with its own keyword or bracket.
pub open spec fn p_nud(ts: Toks) -> Result<(SExpr, Toks), Seq<char>>
    decreases ts.len(), 2int,
{
    if ts.len() == 0 {
        Err("unexpected token"@)
    } else {
        let t = ts[0].0;
        if t == Token::Number {
            match number_of(ts[0].1) {
                Ok(v) => Ok((SExpr::Number(v), ts.drop_first())),
                Err(m) => Err(m),
            }
        } else if t == Token::Identifier {
            Ok((SExpr::Ident(ts[0].1), ts.drop_first()))
        } else if t == Token::Function {
            match p_function(ts) {
                Ok((ps, body, r)) => Ok((SExpr::Function(ps, body), r)),
                Err(m) => Err(m),
            }
        } else if t == Token::If {
            p_if(ts)
        } else if t == Token::True {
            Ok((SExpr::Bool(true), ts.drop_first()))
        } else if t == Token::False {
            Ok((SExpr::Bool(false), ts.drop_first()))
        } else if t == Token::String {
            match string_of(ts[0].1) {
                Ok(v) => Ok((SExpr::Str(v), ts.drop_first())),
                Err(m) => Err(m),
            }
        } else if t == Token::LBracket {
            match p_array(ts) {
                Ok((els, r)) => Ok((SExpr::Array(els), r)),
                Err(m) => Err(m),
            }
        } else if t == Token::LParen {
            match p_expression(ts.drop_first(), Precedence::Lowest) {
                Err(m) => Err(m),
                Ok((e, r1)) => match p_expect(r1, Token::RParen, "expected )"@) {
                    Ok(r2) => Ok((e, r2)),
                    Err(m) => Err(m),
                },
            }
        } else if t == Token::For {
            p_for(ts)
        } else if t == Token::Switch {
            p_switch(ts)
        } else if t == Token::LBrace {
            match p_block(ts) {
                Ok((ss, r)) => Ok((SExpr::Block(ss), r)),
                Err(m) => Err(m),
            }
        } else {
            Err("unexpected token"@)
        }
    }
}

/// An expression whose operators all bind more strongly than `prec`.
pub open spec fn p_expression(ts: Toks, prec: Precedence) -> Result<(SExpr, Toks), Seq<char>>
    decreases ts.len(), 3int,
{
    match p_nud(ts) {
        Err(m) => Err(m),
        Ok((left, r)) => if r.len() < ts.len() { p_infix_loop(left, r, prec) } else { Err(no_progress()) },
    }
}

/// Extends `left` by every following infix or postfix operator that binds
/// more strongly than `prec`.
pub open spec fn p_infix_loop(left: SExpr, ts: Toks, prec: Precedence) -> Result<(SExpr, Toks), Seq<char>>
    decreases ts.len(), 2int,
{
    if ts.len() > 0 && ts[0].0 != Token::Semicolon && prec.rank() < Precedence::of_token(ts[0].0).rank() {
        let t = ts[0].0;
        let step = if t == Token::LParen {
            p_call(left, ts)
        } else if t == Token::LBracket {
            p_access(left, ts)
        } else if t == Token::Assign {
            p_assign(left, ts)
        } else {
            p_infix(left, ts)
        };
        match step {
            Err(m) => Err(m),
            Ok((e, r)) => if r.len() < ts.len() { p_infix_loop(e, r, prec) } else { Err(no_progress()) },
        }
    } else {
        Ok((left, ts))
    }
}

pub open spec fn p_infix(left: SExpr, ts: Toks) -> Result<(SExpr, Toks), Seq<char>>
    decreases ts.len(), 1int,
{
    if ts.len() == 0 {
        Err("unexpected end of file"@)
    } else if !(spec_is_infix_operator(ts[0].0) || ts[0].0 == Token::Bang) {
        Err("unexpected token"@)
    } else {
        match p_expression(ts.drop_first(), Precedence::of_token(ts[0].0)) {
            Err(m) => Err(m),
            Ok((right, r)) => Ok((SExpr::Infix(Box::new(left), operator_of(ts[0].0), Box::new(right)), r)),
        }
    }
}

pub open spec fn p_assign(left: SExpr, ts: Toks) -> Result<(SExpr, Toks), Seq<char>>
    decreases ts.len(), 1int,
{
    if ts.len() == 0 {
        Err("unexpected end of file"@)
    } else {
        match p_expression(ts.drop_first(), Precedence::Lowest) {
            Err(m) => Err(m),
            Ok((right, r)) => Ok((SExpr::Assign(Box::new(left), Box::new(right)), r)),
        }
    }
}

pub open spec fn p_access(left: SExpr, ts: Toks) -> Result<(SExpr, Toks), Seq<char>>
    decreases ts.len(), 1int,
{
    match p_expect(ts, Token::LBracket, "expected ["@) {
        Err(m) => Err(m),
        Ok(r1) => match p_expression(r1, Precedence::Lowest) {
            Err(m) => Err(m),
            Ok((index, r2)) => match p_expect(r2, Token::RBracket, "expected ]"@) {
                Err(m) => Err(m),
                Ok(r3) => Ok((SExpr::Access(Box::new(left), Box::new(index)), r3)),
            },
        },
    }
}

pub open spec fn p_call(left: SExpr, ts: Toks) -> Result<(SExpr, Toks), Seq<char>>
    decreases ts.len(), 1int,
{
    match p_expect(ts, Token::LParen, "expected ("@) {
        Err(m) => Err(m),
        Ok(r1) => call_tail(left, p_call_args(r1, Seq::empty())),
    }
}

/// What follows the arguments of a call: the closing `)`.
pub open spec fn call_tail(left: SExpr, args: Result<(Seq<SExpr>, Toks), Seq<char>>) -> Result<(SExpr, Toks), Seq<char>> {
    match args {
        Err(m) => Err(m),
        Ok((args, r2)) => match p_expect(r2, Token::RParen, "expected )"@) {
            Err(m) => Err(m),
            Ok(r3) => Ok((SExpr::Call(Box::new(left), args), r3)),
        },
    }
}

/// Arguments up to `)`, separated by optional commas.
pub open spec fn p_call_args(ts: Toks, acc: Seq<SExpr>) -> Result<(Seq<SExpr>, Toks), Seq<char>>
    decreases ts.len(), 4int,
{
    if ts.len() > 0 && ts[0].0 != Token::RParen {
        match p_expression(ts, Precedence::Lowest) {
            Err(m) => Err(m),
            Ok((e, r1)) => {
                let r2 = skip_comma(r1);
                if r2.len() < ts.len() { p_call_args(r2, acc.push(e)) } else { Err(no_progress()) }
            },
        }
    } else {
        Ok((acc, ts))
    }
}

/// Parameter names up to `)`, separated by optional commas.
pub open spec fn p_params(ts: Toks, acc: Seq<Seq<char>>) -> Result<(Seq<Seq<char>>, Toks), Seq<char>>
    decreases ts.len(),
{
    if ts.len() > 0 && ts[0].0 != Token::RParen {
        match p_ident(ts) {
            Err(m) => Err(m),
            Ok((name, r1)) => p_params(skip_comma(r1), acc.push(name)),
        }
    } else {
        Ok((acc, ts))
    }
}

/// Statements up to `}`.
pub open spec fn p_stmts_until(ts: Toks, acc: Seq<SStmt>) -> Result<(Seq<SStmt>, Toks), Seq<char>>
    decreases ts.len(), 6int,
{
    if ts.len() > 0 && ts[0].0 != Token::RBrace {
        match p_statement(ts) {
            Err(m) => Err(m),
            Ok((s, r)) => if r.len() < ts.len() { p_stmts_until(r, acc.push(s)) } else { Err(no_progress()) },
        }
    } else {
        Ok((acc, ts))
    }
}

pub open spec fn p_function(ts: Toks) -> Result<(Seq<Seq<char>>, Seq<SStmt>, Toks), Seq<char>>
    decreases ts.len(), 1int,
{
    match p_expect(ts, Token::Function, "expected function"@) {
        Err(m) => Err(m),
        Ok(r1) => match p_expect(r1, Token::LParen, "expected ("@) {
            Err(m) => Err(m),
            Ok(r2) => function_tail(ts.len() as int, p_params(r2, Seq::empty())),
        },
    }
}

/// What follows the parameters of a function literal: `)`, then the body in
/// braces; `n` is the number of tokens the literal started with.
pub open spec fn function_tail(n: int, params: Result<(Seq<Seq<char>>, Toks), Seq<char>>)
    -> Result<(Seq<Seq<char>>, Seq<SStmt>, Toks), Seq<char>>
    decreases n, 0int,
{
    match params {
        Err(m) => Err(m),
        Ok((ps, r3)) => match p_expect(r3, Token::RParen, "expected )"@) {
            Err(m) => Err(m),
            Ok(r4) => match p_expect(r4, Token::LBrace, "expected {"@) {
                Err(m) => Err(m),
                Ok(r5) => if r5.len() < n {
                    match p_stmts_until(r5, Seq::empty()) {
                        Err(m) => Err(m),
                        Ok((ss, r6)) => match p_expect(r6, Token::RBrace, "expected }"@) {
                            Err(m) => Err(m),
                            Ok(r7) => Ok((ps, ss, r7)),
                        },
                    }
                } else {
                    Err(no_progress())
                },
            },
        },
    }
}

pub open spec fn p_block(ts: Toks) -> Result<(Seq<SStmt>, Toks), Seq<char>>
    decreases ts.len(), 1int,
{
    match p_expect(ts, Token::LBrace, "expected {"@) {
        Err(m) => Err(m),
        Ok(r1) => match p_stmts_until(r1, Seq::empty()) {
            Err(m) => Err(m),
            Ok((ss, r2)) => match p_expect(r2, Token::RBrace, "expected }"@) {
                Err(m) => Err(m),
                Ok(r3) => Ok((ss, r3)),
            },
        },
    }
}

pub open spec fn p_if(ts: Toks) -> Result<(SExpr, Toks), Seq<char>>
    decreases ts.len(), 1int,
{
    match p_expect(ts, Token::If, "expected if"@) {
        Err(m) => Err(m),
        Ok(r1) => match p_expect(r1, Token::LParen, "expected ("@) {
            Err(m) => Err(m),
            Ok(r2) => match p_expression(r2, Precedence::Lowest) {
                Err(m) => Err(m),
                Ok((c, r3)) => match p_expect(r3, Token::RParen, "expected )"@) {
                    Err(m) => Err(m),
                    Ok(r4) => if first(r4) != Some(Token::LBrace) {
                        Err("expected {"@)
                    } else if r4.len() >= ts.len() {
                        Err(no_progress())
                    } else {
                        match p_block(r4) {
                            Err(m) => Err(m),
                            Ok((cons, r5)) => if first(r5) == Some(Token::Else) {
                                let r6 = r5.drop_first();
                                if first(r6) != Some(Token::LBrace) {
                                    Err("expected {"@)
                                } else if r6.len() >= ts.len() {
                                    Err(no_progress())
                                } else {
                                    match p_block(r6) {
                                        Err(m) => Err(m),
                                        Ok((alt, r7)) => Ok((SExpr::If(Box::new(c), cons, Some(alt)), r7)),
                                    }
                                }
                            } else if r5.len() > 0 {
                                Ok((SExpr::If(Box::new(c), cons, None), r5))
                            } else {
                                Err("expected {"@)
                            },
                        }
                    },
                },
            },
        },
    }
}

pub open spec fn p_array(ts: Toks) -> Result<(Seq<SElem>, Toks), Seq<char>>
    decreases ts.len(), 1int,
{
    match p_expect(ts, Token::LBracket, "expected ["@) {
        Err(m) => Err(m),
        Ok(r1) => match p_elements(r1, Seq::empty()) {
            Err(m) => Err(m),
            Ok((els, r2)) => match p_expect(r2, Token::RBracket, "expected ]"@) {
                Err(m) => Err(m),
                Ok(r3) => Ok((els, r3)),
            },
        },
    }
}

/// Array elements up to `]`: values, or `name: value` entries keyed by the
/// identifier's name.
pub open spec fn p_elements(ts: Toks, acc: Seq<SElem>) -> Result<(Seq<SElem>, Toks), Seq<char>>
    decreases ts.len(), 4int,
{
    if ts.len() > 0 && ts[0].0 != Token::RBracket {
        match p_expression(ts, Precedence::Lowest) {
            Err(m) => Err(m),
            Ok((e, r1)) => if first(r1) == Some(Token::Colon) {
                match e {
                    SExpr::Ident(key) => {
                        let r2 = r1.drop_first();
                        if r2.len() < ts.len() {
                            match p_expression(r2, Precedence::Lowest) {
                                Err(m) => Err(m),
                                Ok((v, r3)) => {
                                    let r4 = skip_comma(r3);
                                    if r4.len() < ts.len() {
                                        p_elements(r4, acc.push(SElem::Entry(key, v)))
                                    } else {
                                        Err(no_progress())
                                    }
                                },
                            }
                        } else {
                            Err(no_progress())
                        }
                    },
                    _ => Err("expected string literal"@),
                }
            } else {
                let r4 = skip_comma(r1);
                if r4.len() < ts.len() { p_elements(r4, acc.push(SElem::Value(e))) } else { Err(no_progress()) }
            },
        }
    } else {
        Ok((acc, ts))
    }
}

pub open spec fn p_for(ts: Toks) -> Result<(SExpr, Toks), Seq<char>>
    decreases ts.len(), 1int,
{
    match p_expect(ts, Token::For, "expected for"@) {
        Err(m) => Err(m),
        Ok(r1) => match p_expect(r1, Token::LParen, "expected ("@) {
            Err(m) => Err(m),
            Ok(r2) => match p_ident(r2) {
                Err(m) => Err(m),
                Ok((name, r3)) => match p_expect(r3, Token::In, "expected in"@) {
                    Err(m) => Err(m),
                    Ok(r4) => match p_expression(r4, Precedence::Lowest) {
                        Err(m) => Err(m),
                        Ok((it, r5)) => match p_expect(r5, Token::RParen, "expected )"@) {
                            Err(m) => Err(m),
                            Ok(r6) => if r6.len() < ts.len() {
                                match p_block(r6) {
                                    Err(m) => Err(m),
                                    Ok((body, r7)) => Ok((SExpr::For(name, Box::new(it), body), r7)),
                                }
                            } else {
                                Err(no_progress())
                            },
                        },
                    },
                },
            },
        },
    }
}

pub open spec fn p_switch(ts: Toks) -> Result<(SExpr, Toks), Seq<char>>
    decreases ts.len(), 1int,
{
    match p_expect(ts, Token::Switch, "expected switch"@) {
        Err(m) => Err(m),
        Ok(r1) => match p_expect(r1, Token::LParen, "expected ("@) {
            Err(m) => Err(m),
            Ok(r2) => match p_expression(r2, Precedence::Lowest) {
                Err(m) => Err(m),
                Ok((e, r3)) => match p_expect(r3, Token::RParen, "expected )"@) {
                    Err(m) => Err(m),
                    Ok(r4) => match p_expect(r4, Token::LBrace, "expected {"@) {
                        Err(m) => Err(m),
                        Ok(r5) => if r5.len() >= ts.len() {
                            Err(no_progress())
                        } else {
                            switch_tail(e, ts.len() as int, p_cases(r5, Seq::empty()))
                        },
                    },
                },
            },
        },
    }
}

/// What follows the cases of a switch: an optional default, then `}`; `n`
/// is the number of tokens the switch started with.
pub open spec fn switch_tail(e: SExpr, n: int, cases: Result<(Seq<(SExpr, Seq<SStmt>)>, Toks), Seq<char>>)
    -> Result<(SExpr, Toks), Seq<char>>
    decreases n, 0int,
{
    match cases {
        Err(m) => Err(m),
        Ok((cases, r6)) => {
            let d = if first(r6) == Some(Token::Default) && r6.len() < n {
                match p_default(r6) {
                    Err(m) => Err(m),
                    Ok((body, r7)) => Ok((Some(body), r7)),
                }
            } else if first(r6) == Some(Token::Default) {
                Err(no_progress())
            } else {
                Ok((None, r6))
            };
            match d {
                Err(m) => Err(m),
                Ok((default, r7)) => match p_expect(r7, Token::RBrace, "expected }"@) {
                    Err(m) => Err(m),
                    Ok(r8) => Ok((SExpr::Switch(Box::new(e), cases, default), r8)),
                },
            }
        },
    }
}

/// `case` clauses up to `default` or `}`.
pub open spec fn p_cases(ts: Toks, acc: Seq<(SExpr, Seq<SStmt>)>) -> Result<(Seq<(SExpr, Seq<SStmt>)>, Toks), Seq<char>>
    decreases ts.len(), 3int,
{
    if ts.len() > 0 && ts[0].0 != Token::RBrace && ts[0].0 != Token::Default {
        match p_case(ts) {
            Err(m) => Err(m),
            Ok((c, r)) => if r.len() < ts.len() { p_cases(r, acc.push(c)) } else { Err(no_progress()) },
        }
    } else {
        Ok((acc, ts))
    }
}

pub open spec fn p_case(ts: Toks) -> Result<((SExpr, Seq<SStmt>), Toks), Seq<char>>
    decreases ts.len(), 1int,
{
    match p_expect(ts, Token::Case, "expected case"@) {
        Err(m) => Err(m),
        Ok(r1) => match p_expression(r1, Precedence::Lowest) {
            Err(m) => Err(m),
            Ok((c, r2)) => match p_expect(r2, Token::Colon, "expected :"@) {
                Err(m) => Err(m),
                Ok(r3) => if r3.len() < ts.len() {
                    match p_block(r3) {
                        Err(m) => Err(m),
                        Ok((body, r4)) => Ok(((c, body), r4)),
                    }
                } else {
                    Err(no_progress())
                },
            },
        },
    }
}

pub open spec fn p_default(ts: Toks) -> Result<(Seq<SStmt>, Toks), Seq<char>>
    decreases ts.len(), 1int,
{
    match p_expect(ts, Token::Default, "expected default"@) {
        Err(m) => Err(m),
        Ok(r1) => match p_expect(r1, Token::Colon, "expected :"@) {
            Err(m) => Err(m),
            Ok(r2) => p_block(r2),
        },
    }
}

} // verus!
