use vstd::prelude::*;
use crate::interpreter::environment::EnvV;
use crate::interpreter::object::{BuiltInFunction, Object, Value};
use crate::interpreter::runtime::{Runtime, State};

verus! {

/// The state a program starts from: one root environment, index 0, that
/// binds `print`.
pub open spec fn builtin_state() -> State {
    State {
        envs: seq![EnvV {
            values: seq![("print"@, Value::BuiltIn("print"@))],
            watch: Seq::empty(),
            parent: None,
            children: Seq::empty(),
        }],
        arrays: Seq::empty(),
        output: Seq::empty(),
    }
}

pub fn get_builtin_environment() -> (r: Runtime)
    ensures
        r@ == builtin_state(),
{
    let mut rt = Runtime::new();
    let root = rt.new_environment(None);
    let print = Object::BuiltInFunction(BuiltInFunction { name: String::from_str("print") });
    rt.define_var(root, String::from_str("print"), print);
    proof {
        let s = builtin_state();
        assert(rt@.envs[0].values =~= s.envs[0].values);
        assert(rt@.envs[0].watch =~= s.envs[0].watch);
        assert(rt@.envs[0].children =~= s.envs[0].children);
        assert(rt@.envs =~= s.envs);
    }
    rt
}

} // verus!
