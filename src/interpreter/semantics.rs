use vstd::prelude::*;
use crate::ast::{
    ArrayLiteral, ArrayMapValue, Assign, BlockExpression, CallExpression, Case,
    ElementAccessExpression, Expression, ForExpression, Identifier, IfExpression, InfixExpression,
    Operator, Program, Statement, SwitchExpression, WatchDeclaration,
};
use crate::interpreter::environment::{
    Watch, assign_in, define_in, lookup, new_env_in, resolve, set_watch_in, watch_at,
};
use crate::interpreter::object::{ArrayV, Slot, Value, equal_values, falsey, is_marker, put_key, unwrap_return_value};
use crate::interpreter::runtime::{State, element_at, element_by_key, put_element, render, set_element};
use std::rc::Rc;

verus! {

/// What evaluating something gives: the state after it, and a value or an
/// error message.
pub type Outcome = (State, Result<Value, Seq<char>>);

pub open spec fn too_deep() -> Seq<char> {
    "evaluation too deep"@
}

pub open spec fn too_many_scopes() -> Seq<char> {
    "too many environments"@
}

pub open spec fn with_envs(s: State, envs: Seq<crate::interpreter::environment::EnvV>) -> State {
    State { envs, ..s }
}

/// The value of an infix operator on two evaluated operands.
pub open spec fn infix_value(op: Operator, l: Value, r: Value) -> Result<Value, Seq<char>> {
    match (l, r) {
        (Value::Number(a), Value::Number(b)) => match op {
            Operator::Plus => Ok(Value::Number(vstd::wrapping::i32_specs::wrapping_add(a, b))),
            Operator::Minus => Ok(Value::Number(vstd::wrapping::i32_specs::wrapping_sub(a, b))),
            Operator::Asterisk => Ok(Value::Number(vstd::wrapping::i32_specs::wrapping_mul(a, b))),
            Operator::Slash => if b == 0 {
                Err("division by zero"@)
            } else {
                match a.checked_div(b) {
                    Some(q) => Ok(Value::Number(q)),
                    None => Ok(Value::Number(i32::MIN)),
                }
            },
            Operator::Percent => if b == 0 {
                Err("division by zero"@)
            } else {
                match a.checked_rem(b) {
                    Some(q) => Ok(Value::Number(q)),
                    None => Ok(Value::Number(0)),
                }
            },
            Operator::Equal => Ok(Value::Boolean(a == b)),
            Operator::NotEqual => Ok(Value::Boolean(a != b)),
            Operator::LessThan => Ok(Value::Boolean(a < b)),
            Operator::LessThanOrEqual => Ok(Value::Boolean(a <= b)),
            Operator::GreaterThan => Ok(Value::Boolean(a > b)),
            Operator::GreaterThanOrEqual => Ok(Value::Boolean(a >= b)),
            Operator::And => Ok(Value::Boolean(a != 0 && b != 0)),
            Operator::Or => Ok(Value::Boolean(a != 0 || b != 0)),
            Operator::Bang => Err("invalid operator"@),
        },
        (Value::Str(a), Value::Str(b)) => match op {
            Operator::Plus => Ok(Value::Str(a + b)),
            Operator::Equal => Ok(Value::Boolean(a == b)),
            Operator::NotEqual => Ok(Value::Boolean(a != b)),
            _ => Err("invalid operator"@),
        },
        (Value::Boolean(a), Value::Boolean(b)) => match op {
            Operator::Equal => Ok(Value::Boolean(a == b)),
            Operator::NotEqual => Ok(Value::Boolean(a != b)),
            _ => Err("invalid operator"@),
        },
        _ => Err("invalid operator"@),
    }
}

/// Reading an identifier: while a watch is recording, the read is registered
/// on the environment the lookup starts from.
pub open spec fn eval_identifier(name: Seq<char>, env: usize, w: Option<Watch>, s: State) -> Outcome {
    let s1 = match w {
        Some(wt) => with_envs(s, set_watch_in(s.envs, env as int, name, wt)),
        None => s,
    };
    match lookup(s1.envs, env as int, name) {
        Some(v) => (s1, Ok(v)),
        None => (s1, Err("variable not found "@ + name)),
    }
}

/// Calling the builtin named `name` on evaluated arguments.
pub open spec fn call_builtin(name: Seq<char>, args: Seq<Value>, s: State) -> Outcome {
    if name == "print"@ {
        if args.len() != 1 {
            (s, Err("wrong number of arguments"@))
        } else {
            (State { output: s.output.push(render(s.arrays, args[0], Seq::empty())), ..s }, Ok(Value::Null))
        }
    } else {
        (s, Err("unknown builtin"@))
    }
}

pub open spec fn eval_expr(e: Expression, env: usize, w: Option<Watch>, s: State, fuel: nat) -> Outcome
    decreases fuel, 0int, 0int,
{
    if fuel == 0 {
        (s, Err(too_deep()))
    } else {
        let f = (fuel - 1) as nat;
        match e {
            Expression::NumberLiteral(n) => (s, Ok(Value::Number(n.value))),
            Expression::BooleanLiteral(b) => (s, Ok(Value::Boolean(b.value))),
            Expression::StringLiteral(t) => (s, Ok(Value::Str(t.value@))),
            Expression::Identifier(id) => eval_identifier(id.value@, env, w, s),
            Expression::FunctionLiteral(lit) => (s, Ok(Value::Function(lit, env))),
            Expression::InfixExpression(x) => eval_infix(*x, env, w, s, f),
            Expression::CallExpression(x) => eval_call(*x, env, w, s, f),
            Expression::IfExpression(x) => eval_if(*x, env, w, s, f),
            Expression::ArrayLiteral(x) => eval_array_literal(x, env, w, s, f),
            Expression::ElementAccessExpression(x) => eval_element_access(*x, env, w, s, f),
            Expression::ForExpression(x) => eval_for(*x, env, w, s, f),
            Expression::SwitchExpression(x) => eval_switch(*x, env, w, s, f),
            Expression::Assign(x) => eval_assign(*x, env, w, s, f),
            Expression::BlockExpression(b) => eval_block(b, env, w, s, f),
        }
    }
}

/// A block runs its statements in the current environment and stops at the
/// first marker; a block-return marker is unwrapped here.
pub open spec fn eval_block(b: BlockExpression, env: usize, w: Option<Watch>, s: State, fuel: nat) -> Outcome
    decreases fuel, 0int, 0int,
{
    if fuel == 0 {
        (s, Err(too_deep()))
    } else {
        let (s1, r) = eval_stmts(b.statements@, 0, env, w, s, (fuel - 1) as nat);
        match r {
            Ok(Value::BlockReturn(v)) => (s1, Ok(*v)),
            _ => (s1, r),
        }
    }
}

pub open spec fn eval_stmts(stmts: Seq<Statement>, i: int, env: usize, w: Option<Watch>, s: State, fuel: nat) -> Outcome
    decreases fuel, 3int, stmts.len() - i,
{
    if i < 0 || i >= stmts.len() {
        (s, Ok(Value::NoValue))
    } else {
        let (s1, r) = eval_stmt(stmts[i], env, w, s, fuel);
        match r {
            Err(m) => (s1, Err(m)),
            Ok(v) => if is_marker(v) {
                (s1, Ok(v))
            } else {
                eval_stmts(stmts, i + 1, env, w, s1, fuel)
            },
        }
    }
}

/// A statement's value: a marker, or `NoValue` for one run for its effect.
pub open spec fn eval_stmt(st: Statement, env: usize, w: Option<Watch>, s: State, fuel: nat) -> Outcome
    decreases fuel, 2int, 0int,
{
    match st {
        Statement::VariableDeclaration(vd) => {
            let (s1, r) = eval_expr(vd.value, env, w, s, fuel);
            match r {
                Err(m) => (s1, Err(m)),
                Ok(v) => if v is Return {
                    (s1, Ok(v))
                } else {
                    (with_envs(s1, define_in(s1.envs, env as int, vd.name@, v)), Ok(Value::NoValue))
                },
            }
        },
        Statement::Expression(e) => {
            let (s1, r) = eval_expr(e, env, w, s, fuel);
            match r {
                Err(m) => (s1, Err(m)),
                Ok(v) => if is_marker(v) { (s1, Ok(v)) } else { (s1, Ok(Value::NoValue)) },
            }
        },
        Statement::ReturnStatement(rs) => {
            let (s1, r) = eval_expr(rs.value, env, w, s, fuel);
            match r {
                Err(m) => (s1, Err(m)),
                Ok(v) => (s1, Ok(Value::Return(Box::new(v)))),
            }
        },
        Statement::BlockReturnStatement(bs) => {
            let (s1, r) = eval_expr(bs.value, env, w, s, fuel);
            match r {
                Err(m) => (s1, Err(m)),
                Ok(v) => (s1, Ok(Value::BlockReturn(Box::new(v)))),
            }
        },
        Statement::WatchDeclaration(d) => eval_watch_decl(d, env, s, fuel),
    }
}

/// `watch name = { ... };`: the block runs recording its reads, unless the
/// name is already visible; then `name` is bound to its value.
pub open spec fn eval_watch_decl(d: Rc<WatchDeclaration>, env: usize, s: State, fuel: nat) -> Outcome
    decreases fuel, 1int, 0int,
{
    let track = if lookup(s.envs, env as int, d.name@) is None {
        Some(Watch { expressions: d, env })
    } else {
        None
    };
    let (s1, r) = eval_block(d.block, env, track, s, fuel);
    match r {
        Err(m) => (s1, Err(m)),
        Ok(v) => (with_envs(s1, define_in(s1.envs, env as int, d.name@, v)), Ok(Value::NoValue)),
    }
}

/// Evaluating a registered watch again, in its home environment and without
/// recording reads, and binding its name to the new value.
pub open spec fn refire(wt: Watch, s: State, fuel: nat) -> Outcome
    decreases fuel, 1int, 0int,
{
    let (s1, r) = eval_block(wt.expressions.block, wt.env, None, s, fuel);
    match r {
        Err(m) => (s1, Err(m)),
        Ok(v) => (with_envs(s1, define_in(s1.envs, wt.env as int, wt.expressions.name@, v)), Ok(v)),
    }
}

pub open spec fn eval_infix(x: InfixExpression, env: usize, w: Option<Watch>, s: State, fuel: nat) -> Outcome
    decreases fuel, 4int, 0int,
{
    let (s1, l) = eval_expr(x.left, env, w, s, fuel);
    match l {
        Err(m) => (s1, Err(m)),
        Ok(lv) => {
            let (s2, r) = eval_expr(x.right, env, w, s1, fuel);
            match r {
                Err(m) => (s2, Err(m)),
                Ok(rv) => (s2, infix_value(x.operator, lv, rv)),
            }
        },
    }
}

/// Binds the parameters from `i` on to the arguments, each evaluated in the
/// caller's environment `env`; a missing argument is an error.
pub open spec fn bind_params(
    params: Seq<Identifier>,
    args: Seq<Expression>,
    i: int,
    call_env: usize,
    env: usize,
    w: Option<Watch>,
    s: State,
    fuel: nat,
) -> (State, Result<(), Seq<char>>)
    decreases fuel, 3int, params.len() - i,
{
    if i < 0 || i >= params.len() {
        (s, Ok(()))
    } else if i >= args.len() {
        (s, Err("wrong number of arguments"@))
    } else {
        let (s1, r) = eval_expr(args[i], env, w, s, fuel);
        match r {
            Err(m) => (s1, Err(m)),
            Ok(v) => bind_params(params, args, i + 1, call_env, env, w,
                with_envs(s1, define_in(s1.envs, call_env as int, params[i].value@, v)), fuel),
        }
    }
}

/// Evaluates the arguments from `i` on, appending their values to `acc`.
pub open spec fn eval_args(args: Seq<Expression>, i: int, env: usize, w: Option<Watch>, s: State, fuel: nat, acc: Seq<Value>)
    -> (State, Result<Seq<Value>, Seq<char>>)
    decreases fuel, 3int, args.len() - i,
{
    if i < 0 || i >= args.len() {
        (s, Ok(acc))
    } else {
        let (s1, r) = eval_expr(args[i], env, w, s, fuel);
        match r {
            Err(m) => (s1, Err(m)),
            Ok(v) => eval_args(args, i + 1, env, w, s1, fuel, acc.push(v)),
        }
    }
}

pub open spec fn eval_call(x: CallExpression, env: usize, w: Option<Watch>, s: State, fuel: nat) -> Outcome
    decreases fuel, 4int, 0int,
{
    let (s1, fr) = eval_expr(x.left, env, w, s, fuel);
    match fr {
        Err(m) => (s1, Err(m)),
        Ok(Value::Function(lit, fenv)) => if s1.envs.len() >= usize::MAX {
            (s1, Err(too_many_scopes()))
        } else {
            let call_env = s1.envs.len() as usize;
            let s2 = with_envs(s1, new_env_in(s1.envs, Some(fenv)));
            let (s3, br) = bind_params(lit.parameters@, x.arguments@, 0, call_env, env, w, s2, fuel);
            match br {
                Err(m) => (s3, Err(m)),
                Ok(_) => {
                    let (s4, rr) = eval_block(lit.body, call_env, w, s3, fuel);
                    match rr {
                        Err(m) => (s4, Err(m)),
                        Ok(v) => (s4, Ok(unwrap_return_value(v))),
                    }
                },
            }
        },
        Ok(Value::BuiltIn(name)) => {
            let (s2, ar) = eval_args(x.arguments@, 0, env, w, s1, fuel, Seq::empty());
            match ar {
                Err(m) => (s2, Err(m)),
                Ok(vals) => call_builtin(name, vals, s2),
            }
        },
        Ok(_) => (s1, Err("not a function "@ + crate::ast::describe(x.left))),
    }
}

pub open spec fn eval_if(x: IfExpression, env: usize, w: Option<Watch>, s: State, fuel: nat) -> Outcome
    decreases fuel, 4int, 0int,
{
    let (s1, c) = eval_expr(x.condition, env, w, s, fuel);
    match c {
        Err(m) => (s1, Err(m)),
        Ok(cv) => if !falsey(cv) {
            eval_block(x.consequence, env, w, s1, fuel)
        } else {
            match x.alternative {
                Some(b) => eval_block(b, env, w, s1, fuel),
                None => (s1, Ok(Value::NoValue)),
            }
        },
    }
}

/// Evaluates the elements of an array literal from `i` on into `slots` and
/// `map`.
pub open spec fn eval_elements(
    elems: Seq<ArrayMapValue>,
    i: int,
    env: usize,
    w: Option<Watch>,
    s: State,
    fuel: nat,
    slots: Seq<Slot>,
    map: Seq<(Seq<char>, Value)>,
) -> (State, Result<ArrayV, Seq<char>>)
    decreases fuel, 3int, elems.len() - i,
{
    if i < 0 || i >= elems.len() {
        (s, Ok(ArrayV { elements: slots, map }))
    } else {
        match elems[i] {
            ArrayMapValue::Value(e) => {
                let (s1, r) = eval_expr(e, env, w, s, fuel);
                match r {
                    Err(m) => (s1, Err(m)),
                    Ok(v) => eval_elements(elems, i + 1, env, w, s1, fuel, slots.push(Slot::Val(v)), map),
                }
            },
            ArrayMapValue::MapKeyValue(kv) => {
                let (s1, r) = eval_expr(kv.value, env, w, s, fuel);
                match r {
                    Err(m) => (s1, Err(m)),
                    Ok(v) => eval_elements(elems, i + 1, env, w, s1, fuel,
                        slots.push(Slot::Key(kv.key@)), put_key(map, kv.key@, v)),
                }
            },
        }
    }
}

pub open spec fn eval_array_literal(x: ArrayLiteral, env: usize, w: Option<Watch>, s: State, fuel: nat) -> Outcome
    decreases fuel, 4int, 0int,
{
    let (s1, r) = eval_elements(x.elements@, 0, env, w, s, fuel, Seq::empty(), Seq::empty());
    match r {
        Err(m) => (s1, Err(m)),
        Ok(av) => (State { arrays: s1.arrays.push(av), ..s1 }, Ok(Value::Array(s1.arrays.len() as usize))),
    }
}

pub open spec fn eval_element_access(x: ElementAccessExpression, env: usize, w: Option<Watch>, s: State, fuel: nat) -> Outcome
    decreases fuel, 4int, 0int,
{
    let (s1, l) = eval_expr(x.left, env, w, s, fuel);
    match l {
        Err(m) => (s1, Err(m)),
        Ok(lv) => {
            let (s2, ix) = eval_expr(x.index, env, w, s1, fuel);
            match ix {
                Err(m) => (s2, Err(m)),
                Ok(iv) => match lv {
                    Value::Array(a) => match iv {
                        Value::Number(n) => (s2, element_at(s2.arrays, a, n)),
                        Value::Str(k) => (s2, element_by_key(s2.arrays, a, k)),
                        _ => (s2, Err("not a number "@ + crate::ast::describe(x.index))),
                    },
                    _ => (s2, Err("not an array "@ + crate::ast::describe(x.left))),
                },
            }
        },
    }
}

/// One iteration per slot from `i` on, over the slots as they were when the
/// loop started; each runs the body in a fresh child scope of `env`.
pub open spec fn eval_for_from(
    slots: Seq<Slot>,
    a: usize,
    i: int,
    var: Seq<char>,
    body: BlockExpression,
    env: usize,
    w: Option<Watch>,
    s: State,
    fuel: nat,
) -> Outcome
    decreases fuel, 3int, slots.len() - i,
{
    if i < 0 || i >= slots.len() {
        (s, Ok(Value::NoValue))
    } else {
        let item = match slots[i] {
            Slot::Val(v) => Ok(v),
            Slot::Key(k) => element_by_key(s.arrays, a, k),
        };
        match item {
            Err(m) => (s, Err(m)),
            Ok(v) => if s.envs.len() >= usize::MAX {
                (s, Err(too_many_scopes()))
            } else {
                let loop_env = s.envs.len() as usize;
                let s1 = with_envs(s, define_in(new_env_in(s.envs, Some(env)), loop_env as int, var, v));
                let (s2, r) = eval_block(body, loop_env, w, s1, fuel);
                match r {
                    Err(m) => (s2, Err(m)),
                    Ok(bv) => if bv is NoValue {
                        eval_for_from(slots, a, i + 1, var, body, env, w, s2, fuel)
                    } else {
                        (s2, Ok(bv))
                    },
                }
            },
        }
    }
}

pub open spec fn eval_for(x: ForExpression, env: usize, w: Option<Watch>, s: State, fuel: nat) -> Outcome
    decreases fuel, 4int, 0int,
{
    let (s1, it) = eval_expr(x.iterable, env, w, s, fuel);
    match it {
        Err(m) => (s1, Err(m)),
        Ok(Value::Array(a)) => if a < s1.arrays.len() {
            eval_for_from(s1.arrays[a as int].elements, a, 0, x.variable.value@, x.body, env, w, s1, fuel)
        } else {
            (s1, Err("not an array"@))
        },
        Ok(_) => (s1, Err("not an array"@)),
    }
}

/// Tries the cases from `i` on; the first whose condition equals `v` runs
/// and decides the value, else the default does, else `NoValue`.
pub open spec fn eval_cases(
    cases: Seq<Case>,
    i: int,
    v: Value,
    default: Option<crate::ast::Default>,
    env: usize,
    w: Option<Watch>,
    s: State,
    fuel: nat,
) -> Outcome
    decreases fuel, 3int, cases.len() - i,
{
    if i < 0 || i >= cases.len() {
        match default {
            Some(d) => eval_block(d.body, env, w, s, fuel),
            None => (s, Ok(Value::NoValue)),
        }
    } else {
        let (s1, c) = eval_expr(cases[i].condition, env, w, s, fuel);
        match c {
            Err(m) => (s1, Err(m)),
            Ok(cv) => if equal_values(cv, v) {
                eval_block(cases[i].body, env, w, s1, fuel)
            } else {
                eval_cases(cases, i + 1, v, default, env, w, s1, fuel)
            },
        }
    }
}

pub open spec fn eval_switch(x: SwitchExpression, env: usize, w: Option<Watch>, s: State, fuel: nat) -> Outcome
    decreases fuel, 4int, 0int,
{
    let (s1, r) = eval_expr(x.expression, env, w, s, fuel);
    match r {
        Err(m) => (s1, Err(m)),
        Ok(v) => eval_cases(x.cases@, 0, v, x.default, env, w, s1, fuel),
    }
}

/// `name = v`: updates the nearest binding; where the environment updated
/// holds a watch registration for `name`, that watch runs again.
pub open spec fn assign_identifier(name: Seq<char>, v: Value, env: usize, s: State, fuel: nat) -> Outcome
    decreases fuel, 2int, 0int,
{
    let s1 = with_envs(s, assign_in(s.envs, env as int, name, v));
    match resolve(s.envs, env as int, name) {
        None => (s1, Ok(v)),
        Some(j) => match watch_at(s1.envs, j, name) {
            None => (s1, Ok(v)),
            Some(wt) => {
                let (s2, r) = refire(wt, s1, fuel);
                match r {
                    Err(m) => (s2, Err(m)),
                    Ok(_) => (s2, Ok(v)),
                }
            },
        },
    }
}

/// `a[i] = v`, with `v` already evaluated.
pub open spec fn assign_element(x: ElementAccessExpression, v: Value, env: usize, w: Option<Watch>, s: State, fuel: nat) -> Outcome
    decreases fuel, 2int, 0int,
{
    let (s1, l) = eval_expr(x.left, env, w, s, fuel);
    match l {
        Err(m) => (s1, Err(m)),
        Ok(lv) => {
            let (s2, ix) = eval_expr(x.index, env, w, s1, fuel);
            match ix {
                Err(m) => (s2, Err(m)),
                Ok(iv) => match lv {
                    Value::Array(a) => match iv {
                        Value::Number(n) => match set_element(s2.arrays, a, n, v) {
                            Ok(arrays) => (State { arrays, ..s2 }, Ok(v)),
                            Err(m) => (s2, Err(m)),
                        },
                        Value::Str(k) => (State { arrays: put_element(s2.arrays, a, k, v), ..s2 }, Ok(v)),
                        _ => (s2, Err("not a valid index"@)),
                    },
                    _ => (s2, Err("not an array"@)),
                },
            }
        },
    }
}

pub open spec fn eval_assign(x: Assign, env: usize, w: Option<Watch>, s: State, fuel: nat) -> Outcome
    decreases fuel, 4int, 0int,
{
    match x.left {
        Expression::Identifier(id) => {
            let (s1, r) = eval_expr(x.right, env, w, s, fuel);
            match r {
                Err(m) => (s1, Err(m)),
                Ok(v) => assign_identifier(id.value@, v, env, s1, fuel),
            }
        },
        Expression::ElementAccessExpression(ea) => {
            let (s1, r) = eval_expr(x.right, env, w, s, fuel);
            match r {
                Err(m) => (s1, Err(m)),
                Ok(v) => assign_element(*ea, v, env, w, s1, fuel),
            }
        },
        _ => (s, Err("invalid assignment"@)),
    }
}

/// The top level runs statements until one yields anything but `NoValue`.
pub open spec fn eval_program_from(stmts: Seq<Statement>, i: int, env: usize, w: Option<Watch>, s: State, fuel: nat) -> Outcome
    decreases stmts.len() - i,
{
    if i < 0 || i >= stmts.len() {
        (s, Ok(Value::NoValue))
    } else {
        let (s1, r) = eval_stmt(stmts[i], env, w, s, fuel);
        match r {
            Err(m) => (s1, Err(m)),
            Ok(v) => if v is NoValue {
                eval_program_from(stmts, i + 1, env, w, s1, fuel)
            } else {
                (s1, Ok(v))
            },
        }
    }
}

pub open spec fn eval_program(p: Program, env: usize, w: Option<Watch>, s: State, fuel: nat) -> Outcome {
    eval_program_from(p.statements@, 0, env, w, s, fuel)
}

} // verus!
