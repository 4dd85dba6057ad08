use vstd::prelude::*;
use std::rc::Rc;
use crate::ast::{
    ArrayLiteral, ArrayMapValue, Assign, BlockExpression, CallExpression, ElementAccessExpression,
    Expression, ForExpression, Identifier, IfExpression, InfixExpression, Operator, Program,
    Statement, SwitchExpression, WatchDeclaration,
};
use crate::interpreter::environment::{self, Environment};
use crate::interpreter::object::{
    Array, ArrayElement, BlockReturn, Function, MapEntry, Object, Return, Value, entries_view, slots_view,
};
use crate::interpreter::runtime::{Runtime, print};
use crate::interpreter::semantics::{
    assign_element, assign_identifier, bind_params, eval_args, eval_array_literal, eval_assign, eval_block,
    eval_call, eval_cases, eval_element_access, eval_elements, eval_expr, eval_for, eval_for_from,
    eval_identifier, eval_if, eval_infix, eval_program, eval_program_from, eval_stmt, eval_stmts,
    eval_switch, eval_watch_decl, infix_value, refire,
};

verus! {

/// The depth of nested evaluation after which a program is stopped with an
/// error instead of exhausting the stack.
pub const EVAL_DEPTH: u64 = 20000;

/// A runtime error: what went wrong, and optionally the error it came from.
#[derive(Debug, PartialEq)]
pub struct Error {
    pub message: String,
    pub child: Option<Box<Error>>,
}

impl Error {
    pub fn new(message: &str) -> (e: Error)
        ensures
            e.message@ == message@,
            e.child is None,
    {
        Error { message: String::from_str(message), child: None }
    }
}

pub open spec fn res_view(r: Result<Object, Error>) -> Result<Value, Seq<char>> {
    match r {
        Ok(o) => Ok(o@),
        Err(e) => Err(e.message@),
    }
}

/// The watch whose block is being evaluated, if reads are being recorded.
pub struct Watch {
    pub declaration: Rc<WatchDeclaration>,
    pub env: usize,
}

pub struct EvalOption {
    pub watch: Option<Watch>,
}

impl EvalOption {
    pub fn new() -> (r: EvalOption)
        ensures
            r.watch is None,
    {
        EvalOption { watch: None }
    }
}

/// The registration that reads are recorded under, if any.
pub open spec fn tracking(o: &EvalOption) -> Option<environment::Watch> {
    match o.watch {
        Some(w) => Some(environment::Watch { expressions: w.declaration, env: w.env }),
        None => None,
    }
}

fn apply_operator(op: Operator, l: Object, r: Object) -> (res: Result<Object, Error>)
    ensures
        res_view(res) == infix_value(op, l@, r@),
{
    match (l, r) {
        (Object::Number(a), Object::Number(b)) => match op {
            Operator::Plus => Ok(Object::Number(a.wrapping_add(b))),
            Operator::Minus => Ok(Object::Number(a.wrapping_sub(b))),
            Operator::Asterisk => Ok(Object::Number(a.wrapping_mul(b))),
            Operator::Slash => if b == 0 {
                Err(Error::new("division by zero"))
            } else {
                match a.checked_div(b) {
                    Some(q) => Ok(Object::Number(q)),
                    None => Ok(Object::Number(i32::MIN)),
                }
            },
            Operator::Percent => if b == 0 {
                Err(Error::new("division by zero"))
            } else {
                match a.checked_rem(b) {
                    Some(q) => Ok(Object::Number(q)),
                    None => Ok(Object::Number(0)),
                }
            },
            Operator::Equal => Ok(Object::Boolean(a == b)),
            Operator::NotEqual => Ok(Object::Boolean(a != b)),
            Operator::LessThan => Ok(Object::Boolean(a < b)),
            Operator::LessThanOrEqual => Ok(Object::Boolean(a <= b)),
            Operator::GreaterThan => Ok(Object::Boolean(a > b)),
            Operator::GreaterThanOrEqual => Ok(Object::Boolean(a >= b)),
            Operator::And => Ok(Object::Boolean(a != 0 && b != 0)),
            Operator::Or => Ok(Object::Boolean(a != 0 || b != 0)),
            Operator::Bang => Err(Error::new("invalid operator")),
        },
        (Object::StringLiteral(a), Object::StringLiteral(b)) => match op {
            Operator::Plus => Ok(Object::StringLiteral(a.concat(b.as_str()))),
            Operator::Equal => Ok(Object::Boolean(a.eq(&b))),
            Operator::NotEqual => Ok(Object::Boolean(!a.eq(&b))),
            _ => Err(Error::new("invalid operator")),
        },
        (Object::Boolean(a), Object::Boolean(b)) => match op {
            Operator::Equal => Ok(Object::Boolean(a == b)),
            Operator::NotEqual => Ok(Object::Boolean(a != b)),
            _ => Err(Error::new("invalid operator")),
        },
        _ => Err(Error::new("invalid operator")),
    }
}

impl Expression {
    pub fn eval(&self, rt: &mut Runtime, env: usize, option: &EvalOption, fuel: u64) -> (r: Result<Object, Error>)
        ensures
            (final(rt)@, res_view(r)) == eval_expr(*self, env, tracking(option), old(rt)@, fuel as nat),
        decreases fuel, 0int, 0int,
    {
        if fuel == 0 {
            return Err(Error::new("evaluation too deep"));
        }
        let f = fuel - 1;
        match self {
            Expression::NumberLiteral(n) => Ok(Object::Number(n.value)),
            Expression::BooleanLiteral(b) => Ok(Object::Boolean(b.value)),
            Expression::StringLiteral(t) => Ok(Object::StringLiteral(t.value.clone())),
            Expression::Identifier(id) => id.eval(rt, env, option),
            Expression::FunctionLiteral(lit) => Ok(Object::Function(Function { literal: Rc::clone(lit), env })),
            Expression::InfixExpression(x) => x.eval(rt, env, option, f),
            Expression::CallExpression(x) => x.eval(rt, env, option, f),
            Expression::IfExpression(x) => x.eval(rt, env, option, f),
            Expression::ArrayLiteral(x) => x.eval(rt, env, option, f),
            Expression::ElementAccessExpression(x) => x.eval(rt, env, option, f),
            Expression::ForExpression(x) => x.eval(rt, env, option, f),
            Expression::SwitchExpression(x) => x.eval(rt, env, option, f),
            Expression::Assign(x) => x.eval(rt, env, option, f),
            Expression::BlockExpression(b) => b.eval(rt, env, option, f),
        }
    }
}

impl Identifier {
    pub fn eval(&self, rt: &mut Runtime, env: usize, option: &EvalOption) -> (r: Result<Object, Error>)
        ensures
            (final(rt)@, res_view(r)) == eval_identifier(self.value@, env, tracking(option), old(rt)@),
    {
        match &option.watch {
            Some(w) => rt.set_watch_at(env, self.value.clone(), Rc::clone(&w.declaration), w.env),
            None => {},
        }
        match Environment::get(&rt.envs, env, &self.value) {
            Some(v) => Ok(v),
            None => {
                let message = String::from_str("variable not found ").concat(self.value.as_str());
                Err(Error { message, child: None })
            },
        }
    }

    /// `name = value` with `value` already evaluated.
    pub fn assign(&self, rt: &mut Runtime, env: usize, value: Object, fuel: u64) -> (r: Result<Object, Error>)
        ensures
            (final(rt)@, res_view(r)) == assign_identifier(self.value@, value@, env, old(rt)@, fuel as nat),
        decreases fuel, 2int, 0int,
    {
        let target = Environment::assign(&mut rt.envs, env, &self.value, value.clone());
        match target {
            None => Ok(value),
            Some(j) => match rt.watch_of(j, &self.value) {
                None => Ok(value),
                Some(wt) => match refire_watch(rt, &wt, fuel) {
                    Err(e) => Err(e),
                    Ok(_) => Ok(value),
                },
            },
        }
    }
}

/// Evaluates a registered watch again and binds its name to the result.
pub fn refire_watch(rt: &mut Runtime, wt: &environment::Watch, fuel: u64) -> (r: Result<Object, Error>)
    ensures
        (final(rt)@, res_view(r)) == refire(*wt, old(rt)@, fuel as nat),
    decreases fuel, 1int, 0int,
{
    let quiet = EvalOption { watch: None };
    match wt.expressions.block.eval(rt, wt.env, &quiet, fuel) {
        Err(e) => Err(e),
        Ok(v) => {
            rt.define_var(wt.env, wt.expressions.name.clone(), v.clone());
            Ok(v)
        },
    }
}

impl InfixExpression {
    pub fn eval(&self, rt: &mut Runtime, env: usize, option: &EvalOption, fuel: u64) -> (r: Result<Object, Error>)
        ensures
            (final(rt)@, res_view(r)) == eval_infix(*self, env, tracking(option), old(rt)@, fuel as nat),
        decreases fuel, 4int, 0int,
    {
        let left = match self.left.eval(rt, env, option, fuel) {
            Ok(v) => v,
            Err(e) => return Err(e),
        };
        let right = match self.right.eval(rt, env, option, fuel) {
            Ok(v) => v,
            Err(e) => return Err(e),
        };
        apply_operator(self.operator, left, right)
    }
}

impl BlockExpression {
    pub fn eval(&self, rt: &mut Runtime, env: usize, option: &EvalOption, fuel: u64) -> (r: Result<Object, Error>)
        ensures
            (final(rt)@, res_view(r)) == eval_block(*self, env, tracking(option), old(rt)@, fuel as nat),
        decreases fuel, 0int, 0int,
    {
        if fuel == 0 {
            return Err(Error::new("evaluation too deep"));
        }
        let f = fuel - 1;
        let ghost w = tracking(option);
        let ghost total = eval_stmts(self.statements@, 0, env, w, rt@, f as nat);
        let mut i: usize = 0;
        while i < self.statements.len()
            invariant
                i <= self.statements@.len(),
                total == eval_stmts(self.statements@, i as int, env, w, rt@, f as nat),
                total == eval_stmts(self.statements@, 0, env, w, old(rt)@, f as nat),
                w == tracking(option),
                fuel > 0,
                f == fuel - 1,
            decreases self.statements@.len() - i,
        {
            match self.statements[i].eval(rt, env, option, f) {
                Err(e) => return Err(e),
                Ok(v) => {
                    if v.is_return_like() {
                        return Ok(v.unwrap_block_return());
                    }
                },
            }
            i = i + 1;
        }
        Ok(Object::NoValue)
    }
}

impl Statement {
    pub fn eval(&self, rt: &mut Runtime, env: usize, option: &EvalOption, fuel: u64) -> (r: Result<Object, Error>)
        ensures
            (final(rt)@, res_view(r)) == eval_stmt(*self, env, tracking(option), old(rt)@, fuel as nat),
        decreases fuel, 2int, 0int,
    {
        match self {
            Statement::VariableDeclaration(vd) => match vd.value.eval(rt, env, option, fuel) {
                Err(e) => Err(e),
                Ok(v) => if v.is_return() {
                    Ok(v)
                } else {
                    rt.define_var(env, vd.name.clone(), v);
                    Ok(Object::NoValue)
                },
            },
            Statement::Expression(e) => match e.eval(rt, env, option, fuel) {
                Err(err) => Err(err),
                Ok(v) => if v.is_return_like() { Ok(v) } else { Ok(Object::NoValue) },
            },
            Statement::ReturnStatement(rs) => match rs.value.eval(rt, env, option, fuel) {
                Err(e) => Err(e),
                Ok(v) => Ok(Object::Return(Box::new(Return { value: v }))),
            },
            Statement::BlockReturnStatement(bs) => match bs.value.eval(rt, env, option, fuel) {
                Err(e) => Err(e),
                Ok(v) => Ok(Object::BlockReturn(Box::new(BlockReturn { value: v }))),
            },
            Statement::WatchDeclaration(d) => eval_watch_declaration(d, rt, env, fuel),
        }
    }
}

/// `watch name = { ... };`
pub fn eval_watch_declaration(d: &Rc<WatchDeclaration>, rt: &mut Runtime, env: usize, fuel: u64) -> (r: Result<Object, Error>)
    ensures
        (final(rt)@, res_view(r)) == eval_watch_decl(*d, env, old(rt)@, fuel as nat),
    decreases fuel, 1int, 0int,
{
    let option = if Environment::get(&rt.envs, env, &d.name).is_none() {
        EvalOption { watch: Some(Watch { declaration: Rc::clone(d), env }) }
    } else {
        EvalOption { watch: None }
    };
    match d.block.eval(rt, env, &option, fuel) {
        Err(e) => Err(e),
        Ok(v) => {
            rt.define_var(env, d.name.clone(), v);
            Ok(Object::NoValue)
        },
    }
}

impl IfExpression {
    pub fn eval(&self, rt: &mut Runtime, env: usize, option: &EvalOption, fuel: u64) -> (r: Result<Object, Error>)
        ensures
            (final(rt)@, res_view(r)) == eval_if(*self, env, tracking(option), old(rt)@, fuel as nat),
        decreases fuel, 4int, 0int,
    {
        let condition = match self.condition.eval(rt, env, option, fuel) {
            Ok(v) => v,
            Err(e) => return Err(e),
        };
        if !condition.is_falsey() {
            self.consequence.eval(rt, env, option, fuel)
        } else {
            match &self.alternative {
                Some(b) => b.eval(rt, env, option, fuel),
                None => Ok(Object::NoValue),
            }
        }
    }
}

impl CallExpression {
    pub fn eval(&self, rt: &mut Runtime, env: usize, option: &EvalOption, fuel: u64) -> (r: Result<Object, Error>)
        ensures
            (final(rt)@, res_view(r)) == eval_call(*self, env, tracking(option), old(rt)@, fuel as nat),
        decreases fuel, 4int, 0int,
    {
        let ghost w = tracking(option);
        let callee = match self.left.eval(rt, env, option, fuel) {
            Ok(v) => v,
            Err(e) => return Err(e),
        };
        match callee {
            Object::Function(func) => {
                if rt.envs.len() >= usize::MAX {
                    return Err(Error::new("too many environments"));
                }
                let call_env = rt.new_environment(Some(func.env));
                let params = &func.literal.parameters;
                let ghost total = bind_params(params@, self.arguments@, 0, call_env, env, w, rt@, fuel as nat);
                let ghost whole = eval_call(*self, env, w, old(rt)@, fuel as nat);
                assert(whole == (match total.1 {
                    Err(m) => (total.0, Err(m)),
                    Ok(_) => {
                        let (s4, rr) = eval_block(func.literal.body, call_env, w, total.0, fuel as nat);
                        match rr {
                            Err(m) => (s4, Err(m)),
                            Ok(v) => (s4, Ok(crate::interpreter::object::unwrap_return_value(v))),
                        }
                    },
                }));
                let mut i: usize = 0;
                while i < params.len()
                    invariant
                        whole == (match total.1 {
                            Err(m) => (total.0, Err(m)),
                            Ok(_) => {
                                let (s4, rr) = eval_block(func.literal.body, call_env, w, total.0, fuel as nat);
                                match rr {
                                    Err(m) => (s4, Err(m)),
                                    Ok(v) => (s4, Ok(crate::interpreter::object::unwrap_return_value(v))),
                                }
                            },
                        }),
                        whole == eval_call(*self, env, w, old(rt)@, fuel as nat),
                        i <= params@.len(),
                        total == bind_params(params@, self.arguments@, i as int, call_env, env, w, rt@, fuel as nat),
                        w == tracking(option),
                    decreases params@.len() - i,
                {
                    if i >= self.arguments.len() {
                        return Err(Error::new("wrong number of arguments"));
                    }
                    let v = match self.arguments[i].eval(rt, env, option, fuel) {
                        Ok(v) => v,
                        Err(e) => return Err(e),
                    };
                    rt.define_var(call_env, params[i].value.clone(), v);
                    i = i + 1;
                }
                match func.literal.body.eval(rt, call_env, option, fuel) {
                    Err(e) => Err(e),
                    Ok(v) => Ok(v.unwrap_return()),
                }
            },
            Object::BuiltInFunction(b) => {
                let ghost total = eval_args(self.arguments@, 0, env, w, rt@, fuel as nat, Seq::empty());
                let ghost whole = eval_call(*self, env, w, old(rt)@, fuel as nat);
                assert(whole == (match total.1 {
                    Err(m) => (total.0, Err(m)),
                    Ok(vals) => crate::interpreter::semantics::call_builtin(b.name@, vals, total.0),
                }));
                let mut args: Vec<Object> = Vec::new();
                assert(Seq::new(args@.len(), |j: int| args@[j]@) =~= Seq::<Value>::empty());
                let mut i: usize = 0;
                while i < self.arguments.len()
                    invariant
                        whole == (match total.1 {
                            Err(m) => (total.0, Err(m)),
                            Ok(vals) => crate::interpreter::semantics::call_builtin(b.name@, vals, total.0),
                        }),
                        whole == eval_call(*self, env, w, old(rt)@, fuel as nat),
                        i <= self.arguments@.len(),
                        total == eval_args(self.arguments@, i as int, env, w, rt@, fuel as nat,
                            Seq::new(args@.len(), |j: int| args@[j]@)),
                        w == tracking(option),
                    decreases self.arguments@.len() - i,
                {
                    let v = match self.arguments[i].eval(rt, env, option, fuel) {
                        Ok(v) => v,
                        Err(e) => return Err(e),
                    };
                    let ghost before = Seq::new(args@.len(), |j: int| args@[j]@);
                    args.push(v);
                    assert(Seq::new(args@.len(), |j: int| args@[j]@) =~= before.push(args@[args@.len() - 1]@));
                    i = i + 1;
                }
                print(rt, &b.name, args)
            },
            _ => {
                let message = String::from_str("not a function ").concat(self.left.to_string().as_str());
                Err(Error { message, child: None })
            },
        }
    }
}

impl ArrayLiteral {
    pub fn eval(&self, rt: &mut Runtime, env: usize, option: &EvalOption, fuel: u64) -> (r: Result<Object, Error>)
        ensures
            (final(rt)@, res_view(r)) == eval_array_literal(*self, env, tracking(option), old(rt)@, fuel as nat),
        decreases fuel, 4int, 0int,
    {
        let ghost w = tracking(option);
        let mut slots: Vec<ArrayElement> = Vec::new();
        let mut map: Vec<MapEntry> = Vec::new();
        let ghost total = eval_elements(self.elements@, 0, env, w, rt@, fuel as nat, Seq::empty(), Seq::empty());
        assert(slots_view(slots@) =~= Seq::empty());
        assert(entries_view(map@) =~= Seq::empty());
        assert(total == eval_elements(self.elements@, 0, env, w, rt@, fuel as nat, slots_view(slots@), entries_view(map@)));
        let mut i: usize = 0;
        while i < self.elements.len()
            invariant
                eval_array_literal(*self, env, w, old(rt)@, fuel as nat) == (match total.1 {
                    Err(m) => (total.0, Err(m)),
                    Ok(av) => (crate::interpreter::runtime::State { arrays: total.0.arrays.push(av), ..total.0 },
                        Ok(Value::Array(total.0.arrays.len() as usize))),
                }),
                i <= self.elements@.len(),
                total == eval_elements(self.elements@, i as int, env, w, rt@, fuel as nat,
                    slots_view(slots@), entries_view(map@)),
                w == tracking(option),
            decreases self.elements@.len() - i,
        {
            match &self.elements[i] {
                ArrayMapValue::Value(e) => {
                    let v = match e.eval(rt, env, option, fuel) {
                        Ok(v) => v,
                        Err(err) => return Err(err),
                    };
                    let ghost before = slots_view(slots@);
                    let ghost vv = v@;
                    slots.push(ArrayElement::Object(v));
                    assert(slots_view(slots@) =~= before.push(crate::interpreter::object::Slot::Val(vv)));
                },
                ArrayMapValue::MapKeyValue(kv) => {
                    let v = match kv.value.eval(rt, env, option, fuel) {
                        Ok(v) => v,
                        Err(err) => return Err(err),
                    };
                    let ghost before = slots_view(slots@);
                    slots.push(ArrayElement::Key(kv.key.clone()));
                    assert(slots_view(slots@) =~= before.push(crate::interpreter::object::Slot::Key(kv.key@)));
                    crate::interpreter::runtime::put_entry(&mut map, kv.key.clone(), v);
                },
            }
            i = i + 1;
        }
        let a = rt.alloc_array(Array { elements: slots, map });
        Ok(Object::Array(a))
    }
}

impl ElementAccessExpression {
    pub fn eval(&self, rt: &mut Runtime, env: usize, option: &EvalOption, fuel: u64) -> (r: Result<Object, Error>)
        ensures
            (final(rt)@, res_view(r)) == eval_element_access(*self, env, tracking(option), old(rt)@, fuel as nat),
        decreases fuel, 4int, 0int,
    {
        let left = match self.left.eval(rt, env, option, fuel) {
            Ok(v) => v,
            Err(e) => return Err(e),
        };
        let index = match self.index.eval(rt, env, option, fuel) {
            Ok(v) => v,
            Err(e) => return Err(e),
        };
        match left {
            Object::Array(a) => match index {
                Object::Number(n) => rt.element_at(a, n),
                Object::StringLiteral(k) => rt.element_by_key(a, &k),
                _ => {
                    let message = String::from_str("not a number ").concat(self.index.to_string().as_str());
                    Err(Error { message, child: None })
                },
            },
            _ => {
                let message = String::from_str("not an array ").concat(self.left.to_string().as_str());
                Err(Error { message, child: None })
            },
        }
    }

    /// `left[index] = value` with `value` already evaluated.
    pub fn assign(&self, rt: &mut Runtime, env: usize, value: Object, option: &EvalOption, fuel: u64) -> (r: Result<Object, Error>)
        ensures
            (final(rt)@, res_view(r)) == assign_element(*self, value@, env, tracking(option), old(rt)@, fuel as nat),
        decreases fuel, 2int, 0int,
    {
        let left = match self.left.eval(rt, env, option, fuel) {
            Ok(v) => v,
            Err(e) => return Err(e),
        };
        let index = match self.index.eval(rt, env, option, fuel) {
            Ok(v) => v,
            Err(e) => return Err(e),
        };
        match left {
            Object::Array(a) => match index {
                Object::Number(n) => match rt.set_element(a, n, value.clone()) {
                    Ok(()) => Ok(value),
                    Err(e) => Err(e),
                },
                Object::StringLiteral(k) => {
                    rt.put_element(a, k, value.clone());
                    Ok(value)
                },
                _ => Err(Error::new("not a valid index")),
            },
            _ => Err(Error::new("not an array")),
        }
    }
}

impl ForExpression {
    pub fn eval(&self, rt: &mut Runtime, env: usize, option: &EvalOption, fuel: u64) -> (r: Result<Object, Error>)
        ensures
            (final(rt)@, res_view(r)) == eval_for(*self, env, tracking(option), old(rt)@, fuel as nat),
        decreases fuel, 4int, 0int,
    {
        let ghost w = tracking(option);
        let iterable = match self.iterable.eval(rt, env, option, fuel) {
            Ok(v) => v,
            Err(e) => return Err(e),
        };
        let a = match iterable {
            Object::Array(a) => a,
            _ => return Err(Error::new("not an array")),
        };
        if a >= rt.arrays.len() {
            return Err(Error::new("not an array"));
        }
        let slots = rt.arrays[a].elements.clone();
        assert(slots@ =~= rt.arrays@[a as int].elements@);
        assert(slots_view(slots@) == rt@.arrays[a as int].elements);
        let ghost var = self.variable.value@;
        let ghost total = eval_for_from(slots_view(slots@), a, 0, var, self.body, env, w, rt@, fuel as nat);
        assert(eval_for(*self, env, w, old(rt)@, fuel as nat) == total);
        let mut i: usize = 0;
        while i < slots.len()
            invariant
                eval_for(*self, env, w, old(rt)@, fuel as nat) == total,
                i <= slots@.len(),
                total == eval_for_from(slots_view(slots@), a, i as int, var, self.body, env, w, rt@, fuel as nat),
                w == tracking(option),
                var == self.variable.value@,
            decreases slots@.len() - i,
        {
            let item = match &slots[i] {
                ArrayElement::Object(o) => o.clone(),
                ArrayElement::Key(k) => match rt.element_by_key(a, k) {
                    Ok(v) => v,
                    Err(e) => return Err(e),
                },
            };
            if rt.envs.len() >= usize::MAX {
                return Err(Error::new("too many environments"));
            }
            let loop_env = rt.new_environment(Some(env));
            rt.define_var(loop_env, self.variable.value.clone(), item);
            let v = match self.body.eval(rt, loop_env, option, fuel) {
                Ok(v) => v,
                Err(e) => return Err(e),
            };
            if !v.is_none() {
                return Ok(v);
            }
            i = i + 1;
        }
        Ok(Object::NoValue)
    }
}

impl SwitchExpression {
    pub fn eval(&self, rt: &mut Runtime, env: usize, option: &EvalOption, fuel: u64) -> (r: Result<Object, Error>)
        ensures
            (final(rt)@, res_view(r)) == eval_switch(*self, env, tracking(option), old(rt)@, fuel as nat),
        decreases fuel, 4int, 0int,
    {
        let ghost w = tracking(option);
        let value = match self.expression.eval(rt, env, option, fuel) {
            Ok(v) => v,
            Err(e) => return Err(e),
        };
        let ghost total = eval_cases(self.cases@, 0, value@, self.default, env, w, rt@, fuel as nat);
        assert(eval_switch(*self, env, w, old(rt)@, fuel as nat) == total);
        let mut i: usize = 0;
        while i < self.cases.len()
            invariant
                eval_switch(*self, env, w, old(rt)@, fuel as nat) == total,
                i <= self.cases@.len(),
                total == eval_cases(self.cases@, i as int, value@, self.default, env, w, rt@, fuel as nat),
                w == tracking(option),
            decreases self.cases@.len() - i,
        {
            let condition = match self.cases[i].condition.eval(rt, env, option, fuel) {
                Ok(v) => v,
                Err(e) => return Err(e),
            };
            if condition.is_equal_to(&value) {
                return self.cases[i].body.eval(rt, env, option, fuel);
            }
            i = i + 1;
        }
        match &self.default {
            Some(d) => d.body.eval(rt, env, option, fuel),
            None => Ok(Object::NoValue),
        }
    }
}

impl Assign {
    pub fn eval(&self, rt: &mut Runtime, env: usize, option: &EvalOption, fuel: u64) -> (r: Result<Object, Error>)
        ensures
            (final(rt)@, res_view(r)) == eval_assign(*self, env, tracking(option), old(rt)@, fuel as nat),
        decreases fuel, 4int, 0int,
    {
        match &self.left {
            Expression::Identifier(id) => match self.right.eval(rt, env, option, fuel) {
                Err(e) => Err(e),
                Ok(v) => id.assign(rt, env, v, fuel),
            },
            Expression::ElementAccessExpression(ea) => match self.right.eval(rt, env, option, fuel) {
                Err(e) => Err(e),
                Ok(v) => ea.assign(rt, env, v, option, fuel),
            },
            _ => Err(Error::new("invalid assignment")),
        }
    }
}

impl Program {
    /// Runs the program in environment `env` with the given depth budget.
    pub fn eval_with_depth(&self, rt: &mut Runtime, env: usize, option: &EvalOption, fuel: u64) -> (r: Result<Object, Error>)
        ensures
            (final(rt)@, res_view(r)) == eval_program(*self, env, tracking(option), old(rt)@, fuel as nat),
    {
        let ghost w = tracking(option);
        let ghost total = eval_program_from(self.statements@, 0, env, w, rt@, fuel as nat);
        let mut i: usize = 0;
        while i < self.statements.len()
            invariant
                eval_program(*self, env, w, old(rt)@, fuel as nat) == total,
                i <= self.statements@.len(),
                total == eval_program_from(self.statements@, i as int, env, w, rt@, fuel as nat),
                w == tracking(option),
            decreases self.statements@.len() - i,
        {
            match self.statements[i].eval(rt, env, option, fuel) {
                Err(e) => return Err(e),
                Ok(v) => {
                    if !v.is_none() {
                        return Ok(v);
                    }
                },
            }
            i = i + 1;
        }
        Ok(Object::NoValue)
    }

    /// Runs the program in environment `env`: its value is that of the first
    /// statement whose value is not `NoValue`.
    pub fn eval(&self, rt: &mut Runtime, env: usize, option: &EvalOption) -> (r: Result<Object, Error>)
        ensures
            (final(rt)@, res_view(r)) == eval_program(*self, env, tracking(option), old(rt)@, EVAL_DEPTH as nat),
    {
        self.eval_with_depth(rt, env, option, EVAL_DEPTH)
    }
}

} // verus!
