use vstd::prelude::*;
use std::rc::Rc;
use crate::ast::{
    ArrayLiteral, ArrayMapValue, Assign, BlockExpression, CallExpression, Case, ElementAccessExpression,
    Expression, ForExpression, FunctionLiteral, Identifier, IfExpression, InfixExpression, Program,
    Statement, SwitchExpression, WatchDeclaration,
};
use crate::interpreter::environment::{
    EnvV, Watch, assign_in, define_entry, define_in, first_greater, lookup, new_env_in, resolve,
    set_watch_in, watch_at,
};
use crate::interpreter::object::{ArrayV, Slot, Value, find_key, lemma_find_key_bounds, lookup_key, put_key};
use crate::interpreter::runtime::{State, element_at, element_by_key, put_element, set_element};
use crate::interpreter::semantics::{
    Outcome, assign_element, assign_identifier, bind_params, eval_args, eval_array_literal,
    eval_assign, eval_block, eval_call, eval_cases, eval_element_access, eval_elements, eval_expr, eval_for,
    eval_for_from, eval_if, eval_infix, eval_program, eval_program_from, eval_stmt,
    eval_stmts, eval_switch, eval_watch_decl, refire, with_envs,
};

verus! {

/// No `return` statement anywhere in the expression, function bodies and
/// watch blocks included.
pub open spec fn rf_expr(e: Expression) -> bool
    decreases e,
{
    match e {
        Expression::InfixExpression(x) => rf_expr(x.left) && rf_expr(x.right),
        Expression::FunctionLiteral(lit) => rf_block(lit.body),
        Expression::CallExpression(x) => rf_expr(x.left)
            && forall|i: int| 0 <= i < x.arguments@.len() ==> rf_expr(#[trigger] x.arguments@[i]),
        Expression::IfExpression(x) => rf_expr(x.condition) && rf_block(x.consequence)
            && (x.alternative matches Some(b) ==> rf_block(b)),
        Expression::ArrayLiteral(x) => forall|i: int| 0 <= i < x.elements@.len() ==> match #[trigger] x.elements@[i] {
            ArrayMapValue::Value(v) => rf_expr(v),
            ArrayMapValue::MapKeyValue(kv) => rf_expr(kv.value),
        },
        Expression::ElementAccessExpression(x) => rf_expr(x.left) && rf_expr(x.index),
        Expression::ForExpression(x) => rf_expr(x.iterable) && rf_block(x.body),
        Expression::SwitchExpression(x) => rf_expr(x.expression)
            && (forall|i: int| 0 <= i < x.cases@.len() ==> rf_expr(#[trigger] x.cases@[i].condition) && rf_block(x.cases@[i].body))
            && (x.default matches Some(d) ==> rf_block(d.body)),
        Expression::Assign(x) => rf_expr(x.left) && rf_expr(x.right),
        Expression::BlockExpression(b) => rf_block(b),
        _ => true,
    }
}

pub open spec fn rf_block(b: BlockExpression) -> bool
    decreases b,
{
    forall|i: int| 0 <= i < b.statements@.len() ==> rf_stmt(#[trigger] b.statements@[i])
}

pub open spec fn rf_stmt(st: Statement) -> bool
    decreases st,
{
    match st {
        Statement::VariableDeclaration(vd) => rf_expr(vd.value),
        Statement::Expression(e) => rf_expr(e),
        Statement::ReturnStatement(_) => false,
        Statement::BlockReturnStatement(bs) => rf_expr(bs.value),
        Statement::WatchDeclaration(d) => rf_block(d.block),
    }
}

} // verus!

verus! {

pub open spec fn lit_body(lit: Rc<FunctionLiteral>) -> BlockExpression {
    lit.body
}

pub open spec fn decl_block(d: Rc<WatchDeclaration>) -> BlockExpression {
    d.block
}

/// A value that may be stored: no control-flow marker, and a function only
/// if its body is free of `return`.
pub open spec fn ok_value(v: Value) -> bool {
    match v {
        Value::Return(_) | Value::BlockReturn(_) => false,
        Value::Function(lit, _) => rf_block(lit_body(lit)),
        _ => true,
    }
}

pub open spec fn ok_watch(w: Option<Watch>) -> bool {
    w matches Some(wt) ==> rf_block(decl_block(wt.expressions))
}

pub open spec fn ok_values(s: Seq<(Seq<char>, Value)>) -> bool {
    forall|j: int| 0 <= j < s.len() ==> ok_value(#[trigger] s[j].1)
}

pub open spec fn ok_watches(s: Seq<(Seq<char>, Watch)>) -> bool {
    forall|j: int| 0 <= j < s.len() ==> rf_block(decl_block(#[trigger] s[j].1.expressions))
}

pub open spec fn ok_slots(s: Seq<Slot>) -> bool {
    forall|j: int| 0 <= j < s.len() ==> (#[trigger] s[j] matches Slot::Val(v) ==> ok_value(v))
}

pub open spec fn clean_env(e: EnvV) -> bool {
    ok_values(e.values) && ok_watches(e.watch)
}

pub open spec fn clean_array(a: ArrayV) -> bool {
    ok_slots(a.elements) && ok_values(a.map)
}

/// Every stored value may be stored, and every registered watch is free of
/// `return`.
pub open spec fn clean(s: State) -> bool {
    &&& forall|i: int| 0 <= i < s.envs.len() ==> clean_env(#[trigger] s.envs[i])
    &&& forall|i: int| 0 <= i < s.arrays.len() ==> clean_array(#[trigger] s.arrays[i])
}

pub open spec fn good_value(out: Outcome) -> bool {
    clean(out.0) && (out.1 matches Ok(v) ==> ok_value(v))
}

pub open spec fn ok_stmt_value(v: Value) -> bool {
    v is NoValue || (v matches Value::BlockReturn(b) && ok_value(*b))
}

pub open spec fn good_stmt(out: Outcome) -> bool {
    clean(out.0) && (out.1 matches Ok(v) ==> ok_stmt_value(v))
}

proof fn lemma_lookup_key_ok(s: Seq<(Seq<char>, Value)>, k: Seq<char>)
    requires
        ok_values(s),
    ensures
        lookup_key(s, k) matches Some(v) ==> ok_value(v),
{
    lemma_find_key_bounds(s, k, 0);
}

proof fn lemma_put_key_ok(s: Seq<(Seq<char>, Value)>, k: Seq<char>, v: Value)
    requires
        ok_values(s),
        ok_value(v),
    ensures
        ok_values(put_key(s, k, v)),
{
    lemma_find_key_bounds(s, k, 0);
}

proof fn lemma_put_watch_ok(s: Seq<(Seq<char>, Watch)>, k: Seq<char>, w: Watch)
    requires
        ok_watches(s),
        rf_block(decl_block(w.expressions)),
    ensures
        ok_watches(put_key(s, k, w)),
{
    lemma_find_key_bounds(s, k, 0);
}

proof fn lemma_first_greater_in(s: Seq<(Seq<char>, Value)>, k: Seq<char>, j: int)
    requires
        0 <= j <= s.len(),
    ensures
        j <= first_greater(s, k, j) <= s.len(),
    decreases s.len() - j,
{
    if j < s.len() {
        lemma_first_greater_in(s, k, j + 1);
    }
}

proof fn lemma_define_entry_ok(s: Seq<(Seq<char>, Value)>, k: Seq<char>, v: Value)
    requires
        ok_values(s),
        ok_value(v),
    ensures
        ok_values(define_entry(s, k, v)),
{
    lemma_find_key_bounds(s, k, 0);
    if find_key(s, k, 0) is None {
        let p = first_greater(s, k, 0);
        lemma_first_greater_in(s, k, 0);
        s.insert_ensures(p, (k, v));
        let t = s.insert(p, (k, v));
        assert forall|j: int| 0 <= j < t.len() implies ok_value(#[trigger] t[j].1) by {
            if j > p {
                assert(t[j] == s[j - 1]);
            }
        }
    }
}

proof fn lemma_lookup_ok(envs: Seq<EnvV>, i: int, k: Seq<char>)
    requires
        forall|j: int| 0 <= j < envs.len() ==> clean_env(#[trigger] envs[j]),
    ensures
        lookup(envs, i, k) matches Some(v) ==> ok_value(v),
    decreases i,
{
    if 0 <= i < envs.len() {
        assert(clean_env(envs[i]));
        lemma_lookup_key_ok(envs[i].values, k);
        if lookup_key(envs[i].values, k) is None {
            match envs[i].parent {
                Some(p) => if 0 <= p < i { lemma_lookup_ok(envs, p as int, k); },
                None => {},
            }
        }
    }
}

proof fn lemma_define_clean(s: State, i: int, k: Seq<char>, v: Value)
    requires
        clean(s),
        ok_value(v),
    ensures
        clean(with_envs(s, define_in(s.envs, i, k, v))),
{
    if 0 <= i < s.envs.len() {
        assert(clean_env(s.envs[i]));
        lemma_define_entry_ok(s.envs[i].values, k, v);
    }
}

proof fn lemma_assign_clean(s: State, i: int, k: Seq<char>, v: Value)
    requires
        clean(s),
        ok_value(v),
    ensures
        clean(with_envs(s, assign_in(s.envs, i, k, v))),
{
    match resolve(s.envs, i, k) {
        Some(j) => lemma_define_clean(s, j, k, v),
        None => {},
    }
}

proof fn lemma_set_watch_clean(s: State, i: int, k: Seq<char>, w: Watch)
    requires
        clean(s),
        rf_block(decl_block(w.expressions)),
    ensures
        clean(with_envs(s, set_watch_in(s.envs, i, k, w))),
{
    if 0 <= i < s.envs.len() {
        assert(clean_env(s.envs[i]));
        lemma_put_watch_ok(s.envs[i].watch, k, w);
    }
}

proof fn lemma_new_env_clean(s: State, p: Option<usize>)
    requires
        clean(s),
    ensures
        clean(with_envs(s, new_env_in(s.envs, p))),
{
    let t = with_envs(s, new_env_in(s.envs, p));
    assert forall|i: int| 0 <= i < t.envs.len() implies clean_env(#[trigger] t.envs[i]) by {
        if i < s.envs.len() {
            assert(clean_env(s.envs[i]));
            assert(t.envs[i].values == s.envs[i].values);
            assert(t.envs[i].watch == s.envs[i].watch);
        }
    }
}

proof fn lemma_watch_at_ok(envs: Seq<EnvV>, i: int, k: Seq<char>)
    requires
        forall|j: int| 0 <= j < envs.len() ==> clean_env(#[trigger] envs[j]),
    ensures
        watch_at(envs, i, k) matches Some(wt) ==> rf_block(decl_block(wt.expressions)),
{
    if 0 <= i < envs.len() {
        assert(clean_env(envs[i]));
        lemma_find_key_bounds(envs[i].watch, k, 0);
    }
}

proof fn lemma_element_ok(s: State, a: usize, n: i32, k: Seq<char>)
    requires
        clean(s),
    ensures
        element_at(s.arrays, a, n) matches Ok(v) ==> ok_value(v),
        element_by_key(s.arrays, a, k) matches Ok(v) ==> ok_value(v),
{
    if a < s.arrays.len() {
        assert(clean_array(s.arrays[a as int]));
        lemma_lookup_key_ok(s.arrays[a as int].map, k);
        if 0 <= n < s.arrays[a as int].elements.len() {
            assert(ok_slots(s.arrays[a as int].elements));
            if let Slot::Key(kk) = s.arrays[a as int].elements[n as int] {
                lemma_lookup_key_ok(s.arrays[a as int].map, kk);
            }
        }
    }
}

proof fn lemma_store_clean(s: State, a: usize, n: i32, k: Seq<char>, v: Value)
    requires
        clean(s),
        ok_value(v),
    ensures
        set_element(s.arrays, a, n, v) matches Ok(arrays) ==> clean(State { arrays, ..s }),
        clean(State { arrays: put_element(s.arrays, a, k, v), ..s }),
{
    if a < s.arrays.len() {
        assert(clean_array(s.arrays[a as int]));
        lemma_put_key_ok(s.arrays[a as int].map, k, v);
    }
}

proof fn lemma_expr(e: Expression, env: usize, w: Option<Watch>, s: State, fuel: nat)
    requires
        rf_expr(e),
        clean(s),
        ok_watch(w),
    ensures
        good_value(eval_expr(e, env, w, s, fuel)),
    decreases fuel, 0int, 0int,
{
    if fuel > 0 {
        let f = (fuel - 1) as nat;
        match e {
            Expression::Identifier(id) => {
                if let Some(wt) = w {
                    lemma_set_watch_clean(s, env as int, id.value@, wt);
                }
                let s1 = match w {
                    Some(wt) => with_envs(s, set_watch_in(s.envs, env as int, id.value@, wt)),
                    None => s,
                };
                lemma_lookup_ok(s1.envs, env as int, id.value@);
            },
            Expression::InfixExpression(x) => lemma_infix(*x, env, w, s, f),
            Expression::CallExpression(x) => lemma_call(*x, env, w, s, f),
            Expression::IfExpression(x) => lemma_if(*x, env, w, s, f),
            Expression::ArrayLiteral(x) => lemma_array_literal(x, env, w, s, f),
            Expression::ElementAccessExpression(x) => lemma_access(*x, env, w, s, f),
            Expression::ForExpression(x) => lemma_for(*x, env, w, s, f),
            Expression::SwitchExpression(x) => lemma_switch(*x, env, w, s, f),
            Expression::Assign(x) => lemma_assign(*x, env, w, s, f),
            Expression::BlockExpression(b) => lemma_block(b, env, w, s, f),
            _ => {},
        }
    }
}

proof fn lemma_block(b: BlockExpression, env: usize, w: Option<Watch>, s: State, fuel: nat)
    requires
        rf_block(b),
        clean(s),
        ok_watch(w),
    ensures
        good_value(eval_block(b, env, w, s, fuel)),
    decreases fuel, 0int, 0int,
{
    if fuel > 0 {
        lemma_stmts(b.statements@, 0, env, w, s, (fuel - 1) as nat);
    }
}

proof fn lemma_stmts(stmts: Seq<Statement>, i: int, env: usize, w: Option<Watch>, s: State, fuel: nat)
    requires
        forall|j: int| 0 <= j < stmts.len() ==> rf_stmt(#[trigger] stmts[j]),
        clean(s),
        ok_watch(w),
    ensures
        good_stmt(eval_stmts(stmts, i, env, w, s, fuel)),
    decreases fuel, 3int, stmts.len() - i,
{
    if 0 <= i < stmts.len() {
        lemma_stmt(stmts[i], env, w, s, fuel);
        let (s1, r) = eval_stmt(stmts[i], env, w, s, fuel);
        if let Ok(v) = r {
            if !crate::interpreter::object::is_marker(v) {
                lemma_stmts(stmts, i + 1, env, w, s1, fuel);
            }
        }
    }
}

proof fn lemma_stmt(st: Statement, env: usize, w: Option<Watch>, s: State, fuel: nat)
    requires
        rf_stmt(st),
        clean(s),
        ok_watch(w),
    ensures
        good_stmt(eval_stmt(st, env, w, s, fuel)),
        !(st is BlockReturnStatement) ==> (eval_stmt(st, env, w, s, fuel).1 matches Ok(v) ==> v is NoValue),
    decreases fuel, 2int, 0int,
{
    match st {
        Statement::VariableDeclaration(vd) => {
            lemma_expr(vd.value, env, w, s, fuel);
            let (s1, r) = eval_expr(vd.value, env, w, s, fuel);
            if let Ok(v) = r {
                lemma_define_clean(s1, env as int, vd.name@, v);
            }
        },
        Statement::Expression(e) => lemma_expr(e, env, w, s, fuel),
        Statement::ReturnStatement(_) => {},
        Statement::BlockReturnStatement(bs) => lemma_expr(bs.value, env, w, s, fuel),
        Statement::WatchDeclaration(d) => lemma_watch_decl(d, env, s, fuel),
    }
}

proof fn lemma_watch_decl(d: Rc<WatchDeclaration>, env: usize, s: State, fuel: nat)
    requires
        rf_block(decl_block(d)),
        clean(s),
    ensures
        good_stmt(eval_watch_decl(d, env, s, fuel)),
        eval_watch_decl(d, env, s, fuel).1 matches Ok(v) ==> v is NoValue,
    decreases fuel, 1int, 0int,
{
    let track = if lookup(s.envs, env as int, d.name@) is None {
        Some(Watch { expressions: d, env })
    } else {
        None
    };
    lemma_block(decl_block(d), env, track, s, fuel);
    let (s1, r) = eval_block(decl_block(d), env, track, s, fuel);
    if let Ok(v) = r {
        lemma_define_clean(s1, env as int, d.name@, v);
    }
}

proof fn lemma_refire(wt: Watch, s: State, fuel: nat)
    requires
        rf_block(decl_block(wt.expressions)),
        clean(s),
    ensures
        good_value(refire(wt, s, fuel)),
    decreases fuel, 1int, 0int,
{
    lemma_block(decl_block(wt.expressions), wt.env, None, s, fuel);
    let (s1, r) = eval_block(decl_block(wt.expressions), wt.env, None, s, fuel);
    if let Ok(v) = r {
        lemma_define_clean(s1, wt.env as int, wt.expressions.name@, v);
    }
}

proof fn lemma_infix(x: InfixExpression, env: usize, w: Option<Watch>, s: State, fuel: nat)
    requires
        rf_expr(x.left),
        rf_expr(x.right),
        clean(s),
        ok_watch(w),
    ensures
        good_value(eval_infix(x, env, w, s, fuel)),
    decreases fuel, 4int, 0int,
{
    lemma_expr(x.left, env, w, s, fuel);
    let (s1, l) = eval_expr(x.left, env, w, s, fuel);
    if l is Ok {
        lemma_expr(x.right, env, w, s1, fuel);
    }
}

proof fn lemma_bind(
    params: Seq<Identifier>,
    args: Seq<Expression>,
    i: int,
    call_env: usize,
    env: usize,
    w: Option<Watch>,
    s: State,
    fuel: nat,
)
    requires
        forall|j: int| 0 <= j < args.len() ==> rf_expr(#[trigger] args[j]),
        clean(s),
        ok_watch(w),
    ensures
        clean(bind_params(params, args, i, call_env, env, w, s, fuel).0),
    decreases fuel, 3int, params.len() - i,
{
    if 0 <= i < params.len() && i < args.len() {
        lemma_expr(args[i], env, w, s, fuel);
        let (s1, r) = eval_expr(args[i], env, w, s, fuel);
        if let Ok(v) = r {
            lemma_define_clean(s1, call_env as int, params[i].value@, v);
            lemma_bind(params, args, i + 1, call_env, env, w,
                with_envs(s1, define_in(s1.envs, call_env as int, params[i].value@, v)), fuel);
        }
    }
}

proof fn lemma_args(args: Seq<Expression>, i: int, env: usize, w: Option<Watch>, s: State, fuel: nat, acc: Seq<Value>)
    requires
        forall|j: int| 0 <= j < args.len() ==> rf_expr(#[trigger] args[j]),
        clean(s),
        ok_watch(w),
    ensures
        clean(eval_args(args, i, env, w, s, fuel, acc).0),
    decreases fuel, 3int, args.len() - i,
{
    if 0 <= i < args.len() {
        lemma_expr(args[i], env, w, s, fuel);
        let (s1, r) = eval_expr(args[i], env, w, s, fuel);
        if let Ok(v) = r {
            lemma_args(args, i + 1, env, w, s1, fuel, acc.push(v));
        }
    }
}

proof fn lemma_call(x: CallExpression, env: usize, w: Option<Watch>, s: State, fuel: nat)
    requires
        rf_expr(x.left),
        forall|i: int| 0 <= i < x.arguments@.len() ==> rf_expr(#[trigger] x.arguments@[i]),
        clean(s),
        ok_watch(w),
    ensures
        good_value(eval_call(x, env, w, s, fuel)),
    decreases fuel, 4int, 0int,
{
    lemma_expr(x.left, env, w, s, fuel);
    let (s1, fr) = eval_expr(x.left, env, w, s, fuel);
    match fr {
        Ok(Value::Function(lit, fenv)) => if s1.envs.len() < usize::MAX {
            let call_env = s1.envs.len() as usize;
            lemma_new_env_clean(s1, Some(fenv));
            let s2 = with_envs(s1, new_env_in(s1.envs, Some(fenv)));
            lemma_bind(lit.parameters@, x.arguments@, 0, call_env, env, w, s2, fuel);
            let (s3, br) = bind_params(lit.parameters@, x.arguments@, 0, call_env, env, w, s2, fuel);
            if br is Ok {
                lemma_block(lit_body(lit), call_env, w, s3, fuel);
            }
        },
        Ok(Value::BuiltIn(name)) => {
            lemma_args(x.arguments@, 0, env, w, s1, fuel, Seq::empty());
        },
        _ => {},
    }
}

proof fn lemma_if(x: IfExpression, env: usize, w: Option<Watch>, s: State, fuel: nat)
    requires
        rf_expr(x.condition),
        rf_block(x.consequence),
        x.alternative matches Some(b) ==> rf_block(b),
        clean(s),
        ok_watch(w),
    ensures
        good_value(eval_if(x, env, w, s, fuel)),
    decreases fuel, 4int, 0int,
{
    lemma_expr(x.condition, env, w, s, fuel);
    let (s1, c) = eval_expr(x.condition, env, w, s, fuel);
    if let Ok(cv) = c {
        if !crate::interpreter::object::falsey(cv) {
            lemma_block(x.consequence, env, w, s1, fuel);
        } else if let Some(b) = x.alternative {
            lemma_block(b, env, w, s1, fuel);
        }
    }
}

proof fn lemma_elements(
    elems: Seq<ArrayMapValue>,
    i: int,
    env: usize,
    w: Option<Watch>,
    s: State,
    fuel: nat,
    slots: Seq<Slot>,
    map: Seq<(Seq<char>, Value)>,
)
    requires
        forall|j: int| 0 <= j < elems.len() ==> match #[trigger] elems[j] {
            ArrayMapValue::Value(v) => rf_expr(v),
            ArrayMapValue::MapKeyValue(kv) => rf_expr(kv.value),
        },
        clean(s),
        ok_watch(w),
        ok_slots(slots),
        ok_values(map),
    ensures
        clean(eval_elements(elems, i, env, w, s, fuel, slots, map).0),
        eval_elements(elems, i, env, w, s, fuel, slots, map).1 matches Ok(av) ==> clean_array(av),
    decreases fuel, 3int, elems.len() - i,
{
    if 0 <= i < elems.len() {
        match elems[i] {
            ArrayMapValue::Value(e) => {
                lemma_expr(e, env, w, s, fuel);
                let (s1, r) = eval_expr(e, env, w, s, fuel);
                if let Ok(v) = r {
                    assert(ok_slots(slots.push(Slot::Val(v))));
                    lemma_elements(elems, i + 1, env, w, s1, fuel, slots.push(Slot::Val(v)), map);
                }
            },
            ArrayMapValue::MapKeyValue(kv) => {
                lemma_expr(kv.value, env, w, s, fuel);
                let (s1, r) = eval_expr(kv.value, env, w, s, fuel);
                if let Ok(v) = r {
                    assert(ok_slots(slots.push(Slot::Key(kv.key@))));
                    lemma_put_key_ok(map, kv.key@, v);
                    lemma_elements(elems, i + 1, env, w, s1, fuel, slots.push(Slot::Key(kv.key@)),
                        put_key(map, kv.key@, v));
                }
            },
        }
    }
}

proof fn lemma_array_literal(x: ArrayLiteral, env: usize, w: Option<Watch>, s: State, fuel: nat)
    requires
        forall|j: int| 0 <= j < x.elements@.len() ==> match #[trigger] x.elements@[j] {
            ArrayMapValue::Value(v) => rf_expr(v),
            ArrayMapValue::MapKeyValue(kv) => rf_expr(kv.value),
        },
        clean(s),
        ok_watch(w),
    ensures
        good_value(eval_array_literal(x, env, w, s, fuel)),
    decreases fuel, 4int, 0int,
{
    lemma_elements(x.elements@, 0, env, w, s, fuel, Seq::empty(), Seq::empty());
    let (s1, r) = eval_elements(x.elements@, 0, env, w, s, fuel, Seq::empty(), Seq::empty());
    if let Ok(av) = r {
        let t = State { arrays: s1.arrays.push(av), ..s1 };
        assert forall|i: int| 0 <= i < t.arrays.len() implies clean_array(#[trigger] t.arrays[i]) by {
            if i < s1.arrays.len() {
                assert(t.arrays[i] == s1.arrays[i]);
            }
        }
    }
}

proof fn lemma_access(x: ElementAccessExpression, env: usize, w: Option<Watch>, s: State, fuel: nat)
    requires
        rf_expr(x.left),
        rf_expr(x.index),
        clean(s),
        ok_watch(w),
    ensures
        good_value(eval_element_access(x, env, w, s, fuel)),
    decreases fuel, 4int, 0int,
{
    lemma_expr(x.left, env, w, s, fuel);
    let (s1, l) = eval_expr(x.left, env, w, s, fuel);
    if l is Ok {
        lemma_expr(x.index, env, w, s1, fuel);
        let (s2, ix) = eval_expr(x.index, env, w, s1, fuel);
        if let (Ok(Value::Array(a)), Ok(iv)) = (l, ix) {
            match iv {
                Value::Number(n) => lemma_element_ok(s2, a, n, Seq::empty()),
                Value::Str(k) => lemma_element_ok(s2, a, 0, k),
                _ => {},
            }
        }
    }
}

proof fn lemma_for_from(
    slots: Seq<Slot>,
    a: usize,
    i: int,
    var: Seq<char>,
    body: BlockExpression,
    env: usize,
    w: Option<Watch>,
    s: State,
    fuel: nat,
)
    requires
        ok_slots(slots),
        rf_block(body),
        clean(s),
        ok_watch(w),
    ensures
        good_value(eval_for_from(slots, a, i, var, body, env, w, s, fuel)),
    decreases fuel, 3int, slots.len() - i,
{
    if 0 <= i < slots.len() {
        let item = match slots[i] {
            Slot::Val(v) => Ok(v),
            Slot::Key(k) => element_by_key(s.arrays, a, k),
        };
        if let Slot::Key(k) = slots[i] {
            lemma_element_ok(s, a, 0, k);
        }
        if let Ok(v) = item {
            if s.envs.len() < usize::MAX {
                let loop_env = s.envs.len() as usize;
                lemma_new_env_clean(s, Some(env));
                let s0 = with_envs(s, new_env_in(s.envs, Some(env)));
                lemma_define_clean(s0, loop_env as int, var, v);
                let s1 = with_envs(s, define_in(new_env_in(s.envs, Some(env)), loop_env as int, var, v));
                lemma_block(body, loop_env, w, s1, fuel);
                let (s2, r) = eval_block(body, loop_env, w, s1, fuel);
                if let Ok(bv) = r {
                    if bv is NoValue {
                        lemma_for_from(slots, a, i + 1, var, body, env, w, s2, fuel);
                    }
                }
            }
        }
    }
}

proof fn lemma_for(x: ForExpression, env: usize, w: Option<Watch>, s: State, fuel: nat)
    requires
        rf_expr(x.iterable),
        rf_block(x.body),
        clean(s),
        ok_watch(w),
    ensures
        good_value(eval_for(x, env, w, s, fuel)),
    decreases fuel, 4int, 0int,
{
    lemma_expr(x.iterable, env, w, s, fuel);
    let (s1, it) = eval_expr(x.iterable, env, w, s, fuel);
    if let Ok(Value::Array(a)) = it {
        if a < s1.arrays.len() {
            assert(clean_array(s1.arrays[a as int]));
            lemma_for_from(s1.arrays[a as int].elements, a, 0, x.variable.value@, x.body, env, w, s1, fuel);
        }
    }
}

proof fn lemma_cases(
    cases: Seq<Case>,
    i: int,
    v: Value,
    default: Option<crate::ast::Default>,
    env: usize,
    w: Option<Watch>,
    s: State,
    fuel: nat,
)
    requires
        forall|j: int| 0 <= j < cases.len() ==> rf_expr(#[trigger] cases[j].condition) && rf_block(cases[j].body),
        default matches Some(d) ==> rf_block(d.body),
        clean(s),
        ok_watch(w),
    ensures
        good_value(eval_cases(cases, i, v, default, env, w, s, fuel)),
    decreases fuel, 3int, cases.len() - i,
{
    if i < 0 || i >= cases.len() {
        if let Some(d) = default {
            lemma_block(d.body, env, w, s, fuel);
        }
    } else {
        assert(rf_expr(cases[i].condition) && rf_block(cases[i].body));
        lemma_expr(cases[i].condition, env, w, s, fuel);
        let (s1, c) = eval_expr(cases[i].condition, env, w, s, fuel);
        if let Ok(cv) = c {
            if crate::interpreter::object::equal_values(cv, v) {
                lemma_block(cases[i].body, env, w, s1, fuel);
            } else {
                lemma_cases(cases, i + 1, v, default, env, w, s1, fuel);
            }
        }
    }
}

proof fn lemma_switch(x: SwitchExpression, env: usize, w: Option<Watch>, s: State, fuel: nat)
    requires
        rf_expr(x.expression),
        forall|i: int| 0 <= i < x.cases@.len() ==> rf_expr(#[trigger] x.cases@[i].condition) && rf_block(x.cases@[i].body),
        x.default matches Some(d) ==> rf_block(d.body),
        clean(s),
        ok_watch(w),
    ensures
        good_value(eval_switch(x, env, w, s, fuel)),
    decreases fuel, 4int, 0int,
{
    lemma_expr(x.expression, env, w, s, fuel);
    let (s1, r) = eval_expr(x.expression, env, w, s, fuel);
    if let Ok(v) = r {
        lemma_cases(x.cases@, 0, v, x.default, env, w, s1, fuel);
    }
}

proof fn lemma_assign_identifier(name: Seq<char>, v: Value, env: usize, s: State, fuel: nat)
    requires
        ok_value(v),
        clean(s),
    ensures
        good_value(assign_identifier(name, v, env, s, fuel)),
    decreases fuel, 2int, 0int,
{
    lemma_assign_clean(s, env as int, name, v);
    let s1 = with_envs(s, assign_in(s.envs, env as int, name, v));
    if let Some(j) = resolve(s.envs, env as int, name) {
        lemma_watch_at_ok(s1.envs, j, name);
        if let Some(wt) = watch_at(s1.envs, j, name) {
            lemma_refire(wt, s1, fuel);
        }
    }
}

proof fn lemma_assign_element(x: ElementAccessExpression, v: Value, env: usize, w: Option<Watch>, s: State, fuel: nat)
    requires
        rf_expr(x.left),
        rf_expr(x.index),
        ok_value(v),
        clean(s),
        ok_watch(w),
    ensures
        good_value(assign_element(x, v, env, w, s, fuel)),
    decreases fuel, 2int, 0int,
{
    lemma_expr(x.left, env, w, s, fuel);
    let (s1, l) = eval_expr(x.left, env, w, s, fuel);
    if l is Ok {
        lemma_expr(x.index, env, w, s1, fuel);
        let (s2, ix) = eval_expr(x.index, env, w, s1, fuel);
        if let (Ok(Value::Array(a)), Ok(iv)) = (l, ix) {
            match iv {
                Value::Number(n) => lemma_store_clean(s2, a, n, Seq::empty(), v),
                Value::Str(k) => lemma_store_clean(s2, a, 0, k, v),
                _ => {},
            }
        }
    }
}

proof fn lemma_assign(x: Assign, env: usize, w: Option<Watch>, s: State, fuel: nat)
    requires
        rf_expr(x.left),
        rf_expr(x.right),
        clean(s),
        ok_watch(w),
    ensures
        good_value(eval_assign(x, env, w, s, fuel)),
    decreases fuel, 4int, 0int,
{
    match x.left {
        Expression::Identifier(id) => {
            lemma_expr(x.right, env, w, s, fuel);
            let (s1, r) = eval_expr(x.right, env, w, s, fuel);
            if let Ok(v) = r {
                lemma_assign_identifier(id.value@, v, env, s1, fuel);
            }
        },
        Expression::ElementAccessExpression(ea) => {
            lemma_expr(x.right, env, w, s, fuel);
            let (s1, r) = eval_expr(x.right, env, w, s, fuel);
            if let Ok(v) = r {
                lemma_assign_element(*ea, v, env, w, s1, fuel);
            }
        },
        _ => {},
    }
}

/// The top-level statements are free of `return` (function bodies and
/// watch blocks included), and none of them is a trailing expression.
pub open spec fn pure_program(p: Program) -> bool {
    forall|i: int| 0 <= i < p.statements@.len() ==> rf_stmt(#[trigger] p.statements@[i])
        && !(p.statements@[i] is BlockReturnStatement)
}

proof fn lemma_program_from(stmts: Seq<Statement>, i: int, env: usize, w: Option<Watch>, s: State, fuel: nat)
    requires
        forall|j: int| 0 <= j < stmts.len() ==> rf_stmt(#[trigger] stmts[j]) && !(stmts[j] is BlockReturnStatement),
        clean(s),
        ok_watch(w),
    ensures
        eval_program_from(stmts, i, env, w, s, fuel).1 matches Ok(v) ==> v is NoValue,
    decreases stmts.len() - i,
{
    if 0 <= i < stmts.len() {
        assert(rf_stmt(stmts[i]) && !(stmts[i] is BlockReturnStatement));
        lemma_stmt(stmts[i], env, w, s, fuel);
        let (s1, r) = eval_stmt(stmts[i], env, w, s, fuel);
        if let Ok(v) = r {
            lemma_program_from(stmts, i + 1, env, w, s1, fuel);
        }
    }
}

/// A program none of whose top-level statements is a `return` or a trailing
/// expression, and with no `return` inside its functions or watch blocks
/// either, has the value `NoValue` (unless it fails), when run from a state
/// that holds no control-flow marker.
pub proof fn lemma_statement_purity(p: Program, env: usize, w: Option<Watch>, s: State, fuel: nat)
    requires
        pure_program(p),
        clean(s),
        ok_watch(w),
    ensures
        eval_program(p, env, w, s, fuel).1 matches Ok(v) ==> v is NoValue,
{
    lemma_program_from(p.statements@, 0, env, w, s, fuel);
}

/// The state a program starts from holds no control-flow marker.
pub proof fn lemma_builtin_state_clean()
    ensures
        clean(crate::builtin::get_builtin_environment::builtin_state()),
{
    let s = crate::builtin::get_builtin_environment::builtin_state();
    assert(clean_env(s.envs[0]));
}

} // verus!
