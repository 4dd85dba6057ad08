use vstd::prelude::*;
use std::rc::Rc;
use crate::ast::{BlockExpression, Case, Expression, FunctionLiteral};
use crate::interpreter::environment::{
    EnvV, Watch, assign_in, define_entry, define_in, first_greater, lookup, resolve, watch_at,
};
use crate::interpreter::object::{Slot, Value, find_key, lemma_find_key_bounds, lookup_key};
use crate::interpreter::runtime::{State, element_at, element_by_key, set_element};
use crate::interpreter::semantics::{
    assign_identifier, eval_block, eval_cases, eval_expr, eval_for_from, with_envs,
};

verus! {

proof fn lemma_find_key_update<V>(s: Seq<(Seq<char>, V)>, k: Seq<char>, i: int, j: int, x: V)
    requires
        find_key(s, k, i) == Some(j),
        0 <= i <= j,
    ensures
        find_key(s.update(j, (k, x)), k, i) == Some(j),
    decreases j - i,
{
    lemma_find_key_bounds(s, k, i);
    if i < j {
        lemma_find_key_update(s, k, i + 1, j, x);
    }
}

proof fn lemma_find_key_insert<V>(s: Seq<(Seq<char>, V)>, k: Seq<char>, i: int, p: int, x: V)
    requires
        find_key(s, k, 0) is None,
        0 <= i <= p <= s.len(),
    ensures
        find_key(s.insert(p, (k, x)), k, i) == Some(p),
    decreases p - i,
{
    lemma_find_key_bounds(s, k, 0);
    if i < p {
        lemma_find_key_insert(s, k, i + 1, p, x);
    }
}

proof fn lemma_first_greater_bounds<V>(s: Seq<(Seq<char>, V)>, k: Seq<char>, j: int)
    requires
        0 <= j <= s.len(),
    ensures
        j <= first_greater(s, k, j) <= s.len(),
    decreases s.len() - j,
{
    if j < s.len() {
        lemma_first_greater_bounds(s, k, j + 1);
    }
}

/// After binding `k` to `v` in a scope, the scope maps `k` to `v`.
pub proof fn lemma_define_entry_lookup(s: Seq<(Seq<char>, Value)>, k: Seq<char>, v: Value)
    ensures
        lookup_key(define_entry(s, k, v), k) == Some(v),
{
    match find_key(s, k, 0) {
        Some(j) => {
            lemma_find_key_bounds(s, k, 0);
            lemma_find_key_update(s, k, 0, j, v);
        },
        None => {
            lemma_first_greater_bounds(s, k, 0);
            lemma_find_key_insert(s, k, 0, first_greater(s, k, 0), v);
        },
    }
}

/// A name defined in an environment is then seen there.
pub proof fn lemma_define_then_lookup(envs: Seq<EnvV>, i: int, k: Seq<char>, v: Value)
    requires
        0 <= i < envs.len(),
    ensures
        lookup(define_in(envs, i, k, v), i, k) == Some(v),
{
    lemma_define_entry_lookup(envs[i].values, k, v);
}

/// An assignment to a name that some enclosing scope binds is seen by every
/// later read of that name from the same environment.
pub proof fn lemma_assign_then_lookup(envs: Seq<EnvV>, i: int, k: Seq<char>, v: Value)
    requires
        resolve(envs, i, k) is Some,
    ensures
        lookup(assign_in(envs, i, k, v), i, k) == Some(v),
    decreases i,
{
    let j = resolve(envs, i, k).unwrap();
    crate::interpreter::environment::resolve_in_range(envs, i, k);
    let after = define_in(envs, j, k, v);
    if find_key(envs[i].values, k, 0) is Some {
        lemma_define_then_lookup(envs, i, k, v);
    } else {
        let p = envs[i].parent.unwrap();
        assert(resolve(envs, p as int, k) == Some(j));
        crate::interpreter::environment::resolve_in_range(envs, p as int, k);
        lemma_assign_then_lookup(envs, p as int, k, v);
        assert(after[i] == envs[i]);
        assert(lookup_key(after[i].values, k) is None);
    }
}

/// Evaluating one function literal twice in the same environment gives two
/// closures over that very environment (not copies of it), so what either
/// reads through it is what was last assigned there.
pub proof fn lemma_closure_capture(
    lit: Rc<FunctionLiteral>,
    env: usize,
    w1: Option<Watch>,
    w2: Option<Watch>,
    s1: State,
    s2: State,
    f1: nat,
    f2: nat,
)
    requires
        f1 > 0,
        f2 > 0,
    ensures
        eval_expr(Expression::FunctionLiteral(lit), env, w1, s1, f1) == (s1, Ok::<Value, Seq<char>>(Value::Function(lit, env))),
        eval_expr(Expression::FunctionLiteral(lit), env, w2, s2, f2) == (s2, Ok::<Value, Seq<char>>(Value::Function(lit, env))),
{
}

/// Two bindings that hold the same array see each other's element
/// assignments: after `x[n] = v` succeeds, element `n` of that array is `v`.
pub proof fn lemma_array_sharing(arrays: Seq<crate::interpreter::object::ArrayV>, a: usize, n: i32, v: Value)
    requires
        set_element(arrays, a, n, v) is Ok,
    ensures
        element_at(set_element(arrays, a, n, v)->Ok_0, a, n) == Ok::<Value, Seq<char>>(v),
{
}

/// The body a switch runs for branch `k`: case `k`, or the default after
/// the last case.
pub open spec fn branch_body(cases: Seq<Case>, d: crate::ast::Default, k: int) -> BlockExpression {
    if k < cases.len() { cases[k].body } else { d.body }
}

/// A switch with a default takes exactly one branch: unless a condition
/// fails, its outcome is that of evaluating the body of one case, or of the
/// default.
pub proof fn lemma_switch_one_branch(
    cases: Seq<Case>,
    i: int,
    v: Value,
    d: crate::ast::Default,
    env: usize,
    w: Option<Watch>,
    s: State,
    fuel: nat,
)
    requires
        0 <= i <= cases.len(),
    ensures
        eval_cases(cases, i, v, Some(d), env, w, s, fuel).1 is Err
            || exists|k: int, sk: State| i <= k <= cases.len()
                && #[trigger] eval_block(branch_body(cases, d, k), env, w, sk, fuel)
                    == eval_cases(cases, i, v, Some(d), env, w, s, fuel),
    decreases cases.len() - i,
{
    let out = eval_cases(cases, i, v, Some(d), env, w, s, fuel);
    if i == cases.len() {
        assert(eval_block(branch_body(cases, d, i), env, w, s, fuel) == out);
    } else {
        let (s1, c) = eval_expr(cases[i].condition, env, w, s, fuel);
        match c {
            Err(_) => {},
            Ok(cv) => {
                if crate::interpreter::object::equal_values(cv, v) {
                    assert(eval_block(branch_body(cases, d, i), env, w, s1, fuel) == out);
                } else {
                    lemma_switch_one_branch(cases, i + 1, v, d, env, w, s1, fuel);
                }
            },
        }
    }
}

/// The value of slot `i` as the loop reads it.
pub open spec fn loop_item(slots: Seq<Slot>, a: usize, i: int, s: State) -> Result<Value, Seq<char>> {
    match slots[i] {
        Slot::Val(v) => Ok(v),
        Slot::Key(k) => element_by_key(s.arrays, a, k),
    }
}

/// The state in which the body of iteration `i` runs.
pub open spec fn loop_state(var: Seq<char>, env: usize, v: Value, s: State) -> State {
    with_envs(s, define_in(
        crate::interpreter::environment::new_env_in(s.envs, Some(env)),
        s.envs.len() as int, var, v))
}

/// A `return` in the body of a `for` ends the loop at once and hands the
/// return marker on, so that the enclosing call returns it; a trailing
/// expression of the body (no `;`) is unwrapped by the body's block and ends
/// the loop as the loop's own value, which is no return marker.
pub proof fn lemma_return_through_loops(
    slots: Seq<Slot>,
    a: usize,
    i: int,
    var: Seq<char>,
    body: BlockExpression,
    env: usize,
    w: Option<Watch>,
    s: State,
    fuel: nat,
)
    requires
        0 <= i < slots.len(),
        loop_item(slots, a, i, s) is Ok,
        s.envs.len() < usize::MAX,
    ensures
        ({
            let s1 = loop_state(var, env, loop_item(slots, a, i, s)->Ok_0, s);
            let (s2, r) = eval_block(body, s.envs.len() as usize, w, s1, fuel);
            r matches Ok(Value::Return(b)) ==> eval_for_from(slots, a, i, var, body, env, w, s, fuel)
                == (s2, Ok::<Value, Seq<char>>(Value::Return(b)))
        }),
        ({
            let s1 = loop_state(var, env, loop_item(slots, a, i, s)->Ok_0, s);
            let (s2, r) = eval_block(body, s.envs.len() as usize, w, s1, fuel);
            r matches Ok(bv) ==> !(bv is NoValue) ==> eval_for_from(slots, a, i, var, body, env, w, s, fuel)
                == (s2, Ok::<Value, Seq<char>>(bv))
        }),
        fuel > 0 ==> ({
            let (s1, r) = crate::interpreter::semantics::eval_stmts(body.statements@, 0, env, w, s, (fuel - 1) as nat);
            r matches Ok(Value::BlockReturn(b)) ==> !(*b is Return) ==> eval_block(body, env, w, s, fuel)
                == (s1, Ok::<Value, Seq<char>>(*b)) && !(eval_block(body, env, w, s, fuel).1 matches Ok(Value::Return(_)))
        }),
{
}

pub open spec fn rerun_watch_block(wt: Watch, s: State, fuel: nat) -> crate::interpreter::semantics::Outcome {
    eval_block(wt.expressions.block, wt.env, None, s, fuel)
}

pub open spec fn watched_name(wt: Watch) -> Seq<char> {
    wt.expressions.name@
}

/// After an assignment to a name whose updated environment holds a watch
/// registration for it, the watched name is bound to what the watch's block
/// evaluates to right after the assignment.
pub proof fn lemma_watch_consistency(name: Seq<char>, v: Value, env: usize, s: State, fuel: nat)
    requires
        resolve(s.envs, env as int, name) is Some,
        watch_at(assign_in(s.envs, env as int, name, v), resolve(s.envs, env as int, name).unwrap(), name) is Some,
    ensures
        ({
            let s1 = with_envs(s, assign_in(s.envs, env as int, name, v));
            let wt = watch_at(s1.envs, resolve(s.envs, env as int, name).unwrap(), name).unwrap();
            let (s2, r) = eval_block(wt.expressions.block, wt.env, None, s1, fuel);
            let out = assign_identifier(name, v, env, s, fuel);
            r matches Ok(bv) ==> {
                &&& out.1 == Ok::<Value, Seq<char>>(v)
                &&& (wt.env < s2.envs.len() ==> lookup(out.0.envs, wt.env as int, wt.expressions.name@) == Some(bv))
            }
        }),
{
    let s1 = with_envs(s, assign_in(s.envs, env as int, name, v));
    let wt = watch_at(s1.envs, resolve(s.envs, env as int, name).unwrap(), name).unwrap();
    let rerun = rerun_watch_block(wt, s1, fuel);
    if let Ok(bv) = rerun.1 {
        if wt.env < rerun.0.envs.len() {
            lemma_define_then_lookup(rerun.0.envs, wt.env as int, watched_name(wt), bv);
        }
    }
}

} // verus!
