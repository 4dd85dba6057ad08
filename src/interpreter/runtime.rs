use vstd::prelude::*;
use crate::interpreter::environment::{
    Environment, EnvV, Watch, define_in, envs_view, new_env_in, set_watch_in, watch_at,
};
use std::rc::Rc;
use crate::ast::WatchDeclaration;
use crate::interpreter::evaluator::{Error, res_view};
use crate::interpreter::object::{
    Array, ArrayElement, ArrayV, MapEntry, Object, Slot, Value, entries_view, find_key, lookup_key,
    put_key, lemma_find_key_bounds, slots_view,
};
use crate::text::{decimal, push_number, push_str};

verus! {

/// Everything a program can reach while it runs: the environment arena, the
/// array store, and the lines printed so far.
pub struct Runtime {
    pub envs: Vec<Environment>,
    pub arrays: Vec<Array>,
    pub output: Vec<String>,
}

/// The mathematical contents of a `Runtime`.
pub struct State {
    pub envs: Seq<EnvV>,
    pub arrays: Seq<ArrayV>,
    pub output: Seq<Seq<char>>,
}

pub open spec fn arrays_view(v: Seq<Array>) -> Seq<ArrayV> {
    Seq::new(v.len(), |i: int| v[i]@)
}

pub open spec fn output_view(v: Seq<String>) -> Seq<Seq<char>> {
    Seq::new(v.len(), |i: int| v[i]@)
}

/// Reads slot `n` of array `a`, resolving a key slot through the map.
pub open spec fn element_at(arrays: Seq<ArrayV>, a: usize, n: i32) -> Result<Value, Seq<char>> {
    if a >= arrays.len() {
        Err("not an array"@)
    } else if n < 0 || n >= arrays[a as int].elements.len() {
        Err("index out of bounds"@)
    } else {
        match arrays[a as int].elements[n as int] {
            Slot::Val(v) => Ok(v),
            Slot::Key(k) => match lookup_key(arrays[a as int].map, k) {
                Some(v) => Ok(v),
                None => Err("key not found"@),
            },
        }
    }
}

/// Reads the map entry `k` of array `a`.
pub open spec fn element_by_key(arrays: Seq<ArrayV>, a: usize, k: Seq<char>) -> Result<Value, Seq<char>> {
    if a >= arrays.len() {
        Err("not an array"@)
    } else {
        match lookup_key(arrays[a as int].map, k) {
            Some(v) => Ok(v),
            None => Err("key not found"@),
        }
    }
}

/// Replaces slot `n` of array `a` by the value `v`.
pub open spec fn set_element(arrays: Seq<ArrayV>, a: usize, n: i32, v: Value) -> Result<Seq<ArrayV>, Seq<char>> {
    if a >= arrays.len() {
        Err("not an array"@)
    } else if n < 0 || n >= arrays[a as int].elements.len() {
        Err("index out of range: "@ + decimal(n as int))
    } else {
        Ok(arrays.update(a as int, ArrayV {
            elements: arrays[a as int].elements.update(n as int, Slot::Val(v)),
            ..arrays[a as int]
        }))
    }
}

/// Inserts or overwrites the map entry `k` of array `a`.
pub open spec fn put_element(arrays: Seq<ArrayV>, a: usize, k: Seq<char>, v: Value) -> Seq<ArrayV> {
    if a >= arrays.len() {
        arrays
    } else {
        arrays.update(a as int, ArrayV { map: put_key(arrays[a as int].map, k, v), ..arrays[a as int] })
    }
}

/// The printed form of a value. An array already being printed further out
/// (a cycle) prints as `[...]`.
pub open spec fn render(arrays: Seq<ArrayV>, v: Value, path: Seq<usize>) -> Seq<char>
    decreases arrays.len() - path.len(), 0int, 0int,
{
    match v {
        Value::Number(n) => decimal(n as int),
        Value::Boolean(b) => if b { "true"@ } else { "false"@ },
        Value::Str(s) => s,
        Value::Array(a) => if a < arrays.len() && !path.contains(a) && path.len() < arrays.len() {
            "["@ + render_slots(arrays, a, 0, path.push(a)) + "]"@
        } else {
            "[...]"@
        },
        Value::Function(_, _) => "function"@,
        Value::BuiltIn(_) => "builtin function"@,
        Value::Null => "null"@,
        Value::Void => "void"@,
        Value::NoValue => "none"@,
        Value::Return(_) => "return"@,
        Value::BlockReturn(_) => "block return"@,
    }
}

/// The slots of array `a` from `i` on, each followed by a comma; a key slot
/// as `key:value`.
pub open spec fn render_slots(arrays: Seq<ArrayV>, a: usize, i: int, path: Seq<usize>) -> Seq<char>
    decreases arrays.len() - path.len(), 1int, arrays[a as int].elements.len() - i,
{
    if a >= arrays.len() || path.len() > arrays.len() || i < 0 || i >= arrays[a as int].elements.len() {
        Seq::empty()
    } else {
        let here = match arrays[a as int].elements[i] {
            Slot::Val(v) => render(arrays, v, path) + ","@,
            Slot::Key(k) => {
                let v = match lookup_key(arrays[a as int].map, k) {
                    Some(v) => v,
                    None => Value::NoValue,
                };
                k + ":"@ + render(arrays, v, path) + ","@
            },
        };
        here + render_slots(arrays, a, i + 1, path)
    }
}

/// Index of the map entry with key `k`.
pub fn find_entry(map: &Vec<MapEntry>, k: &String) -> (r: Option<usize>)
    ensures
        r matches Some(i) ==> find_key(entries_view(map@), k@, 0) == Some(i as int),
        r is None ==> find_key(entries_view(map@), k@, 0) is None,
{
    let mut i: usize = 0;
    while i < map.len()
        invariant
            i <= map@.len(),
            find_key(entries_view(map@), k@, 0) == find_key(entries_view(map@), k@, i as int),
        decreases map@.len() - i,
    {
        if map[i].key.eq(k) {
            return Some(i);
        }
        i = i + 1;
    }
    None
}

/// Inserts or overwrites the entry `k` of a map.
pub fn put_entry(map: &mut Vec<MapEntry>, k: String, v: Object)
    ensures
        entries_view(final(map)@) == put_key(entries_view(old(map)@), k@, v@),
{
    let ghost kv = k@;
    let ghost vv = v@;
    proof { lemma_find_key_bounds(entries_view(map@), kv, 0); }
    match find_entry(map, &k) {
        Some(i) => {
            map.set(i, MapEntry { key: k, value: v });
        },
        None => {
            map.push(MapEntry { key: k, value: v });
        },
    }
    assert(entries_view(map@) =~= put_key(entries_view(old(map)@), kv, vv));
}

fn path_contains(path: &Vec<usize>, a: usize) -> (r: bool)
    ensures
        r == path@.contains(a),
{
    let mut i: usize = 0;
    while i < path.len()
        invariant
            i <= path@.len(),
            forall|j: int| 0 <= j < i ==> path@[j] != a,
        decreases path@.len() - i,
    {
        if path[i] == a {
            return true;
        }
        i = i + 1;
    }
    false
}

/// The lines `name: value ` of the bindings of a scope from `i` on, in
/// order of name.
pub open spec fn dump_bindings(arrays: Seq<ArrayV>, vals: Seq<(Seq<char>, Value)>, i: int) -> Seq<char>
    decreases vals.len() - i,
{
    if i < 0 || i >= vals.len() {
        Seq::empty()
    } else {
        vals[i].0 + ": "@ + render(arrays, vals[i].1, Seq::empty()) + " \n"@ + dump_bindings(arrays, vals, i + 1)
    }
}

/// The textual dump of environment `i`: its bindings, then each child scope
/// nested in braces.
pub open spec fn dump_env(s: State, i: int) -> Seq<char>
    decreases s.envs.len() - i, 1int, 0int,
{
    if i < 0 || i >= s.envs.len() {
        Seq::empty()
    } else {
        dump_bindings(s.arrays, s.envs[i].values, 0) + dump_children(s, i, 0)
    }
}

pub open spec fn dump_children(s: State, i: int, k: int) -> Seq<char>
    decreases s.envs.len() - i, 0int, s.envs[i].children.len() - k,
{
    if i < 0 || i >= s.envs.len() || k < 0 || k >= s.envs[i].children.len() {
        Seq::empty()
    } else {
        let c = s.envs[i].children[k] as int;
        let here = if i < c < s.envs.len() {
            "{\n"@ + dump_env(s, c) + "}\n"@ + "\n"@
        } else {
            Seq::empty()
        };
        here + dump_children(s, i, k + 1)
    }
}

impl Environment {
    /// The dump of environment `env` and the scopes below it.
    pub fn to_string(rt: &Runtime, env: usize) -> (r: String)
        ensures
            r@ == dump_env(rt@, env as int),
    {
        let mut out = String::new();
        rt.dump_env_into(env, &mut out);
        assert(out@ =~= dump_env(rt@, env as int));
        out
    }
}

/// The builtin `print`: one argument, whose printed form becomes the next
/// line of output; its value is `Null`.
pub fn print(rt: &mut Runtime, name: &String, args: Vec<Object>) -> (r: Result<Object, Error>)
    ensures
        (final(rt)@, res_view(r)) == crate::interpreter::semantics::call_builtin(
            name@, Seq::new(args@.len(), |j: int| args@[j]@), old(rt)@),
{
    if !name.eq(&String::from_str("print")) {
        return Err(Error::new("unknown builtin"));
    }
    if args.len() != 1 {
        return Err(Error::new("wrong number of arguments"));
    }
    let line = rt.render(&args[0]);
    let ghost before = rt@.output;
    rt.output.push(line);
    assert(rt@.output =~= before.push(render(rt@.arrays, args@[0]@, Seq::empty())));
    assert(rt@.envs =~= old(rt)@.envs);
    assert(rt@.arrays =~= old(rt)@.arrays);
    Ok(Object::Null)
}

impl Runtime {
    pub open spec fn view(&self) -> State {
        State {
            envs: envs_view(self.envs@),
            arrays: arrays_view(self.arrays@),
            output: output_view(self.output@),
        }
    }

    /// A runtime with no environment, no array and no output.
    pub fn new() -> (r: Runtime)
        ensures
            r@ == (State { envs: Seq::empty(), arrays: Seq::empty(), output: Seq::empty() }),
    {
        let r = Runtime { envs: Vec::new(), arrays: Vec::new(), output: Vec::new() };
        assert(r@.envs =~= Seq::empty());
        assert(r@.arrays =~= Seq::empty());
        assert(r@.output =~= Seq::empty());
        r
    }

    /// Adds a fresh environment under `parent` and returns its index.
    pub fn new_environment(&mut self, parent: Option<usize>) -> (r: usize)
        requires
            old(self).envs@.len() < usize::MAX,
        ensures
            r == old(self)@.envs.len(),
            final(self)@ == (State { envs: new_env_in(old(self)@.envs, parent), ..old(self)@ }),
    {
        let id = self.envs.len();
        match parent {
            Some(p) => {
                if p < self.envs.len() {
                    self.envs[p].children.push(id);
                }
            },
            None => {},
        }
        let ghost mid = envs_view(self.envs@);
        self.envs.push(Environment::new(parent));
        proof {
            assert(envs_view(self.envs@) =~= mid.push(self.envs@[id as int]@));
            assert(envs_view(self.envs@) =~= new_env_in(old(self)@.envs, parent));
        }
        assert(self@.arrays =~= old(self)@.arrays);
        assert(self@.output =~= old(self)@.output);
        id
    }

    /// Binds `name` in environment `env` (nothing happens for an unknown `env`).
    pub fn define_var(&mut self, env: usize, name: String, v: Object)
        ensures
            final(self)@ == (State { envs: define_in(old(self)@.envs, env as int, name@, v@), ..old(self)@ }),
    {
        if env < self.envs.len() {
            let ghost want = define_in(old(self)@.envs, env as int, name@, v@);
            self.envs[env].define(name, v);
            assert(envs_view(self.envs@) =~= want);
        }
        assert(self@.envs =~= define_in(old(self)@.envs, env as int, name@, v@));
        assert(self@.arrays =~= old(self)@.arrays);
        assert(self@.output =~= old(self)@.output);
    }

    /// Registers in environment `env` that the watch `w` read `name`.
    pub fn set_watch_at(&mut self, env: usize, name: String, expressions: Rc<WatchDeclaration>, home: usize)
        ensures
            final(self)@ == (State {
                envs: set_watch_in(old(self)@.envs, env as int, name@, Watch { expressions, env: home }),
                ..old(self)@
            }),
    {
        let ghost want = set_watch_in(old(self)@.envs, env as int, name@, Watch { expressions, env: home });
        if env < self.envs.len() {
            self.envs[env].set_watch(expressions, home, name);
            assert(envs_view(self.envs@) =~= want);
        }
        assert(self@.envs =~= want);
        assert(self@.arrays =~= old(self)@.arrays);
        assert(self@.output =~= old(self)@.output);
    }

    /// The watch registered for `name` in environment `env`.
    pub fn watch_of(&self, env: usize, name: &String) -> (r: Option<Watch>)
        ensures
            r == watch_at(self@.envs, env as int, name@),
    {
        if env >= self.envs.len() {
            return None;
        }
        let node = &self.envs[env];
        assert(self@.envs[env as int] == node@);
        proof { crate::interpreter::object::lemma_find_key_bounds(node@.watch, name@, 0); }
        match node.find_watch(name) {
            Some(k) => Some(node.watch[k].watch.clone()),
            None => None,
        }
    }

    /// Stores a new array and returns its handle.
    pub fn alloc_array(&mut self, a: Array) -> (r: usize)
        ensures
            r == old(self)@.arrays.len(),
            final(self)@ == (State { arrays: old(self)@.arrays.push(a@), ..old(self)@ }),
    {
        let id = self.arrays.len();
        let ghost av = a@;
        self.arrays.push(a);
        assert(self@.arrays =~= old(self)@.arrays.push(av));
        assert(self@.envs =~= old(self)@.envs);
        assert(self@.output =~= old(self)@.output);
        id
    }

    pub fn element_at(&self, a: usize, n: i32) -> (r: Result<Object, Error>)
        ensures
            res_view(r) == element_at(self@.arrays, a, n),
    {
        if a >= self.arrays.len() {
            return Err(Error::new("not an array"));
        }
        let arr = &self.arrays[a];
        assert(self@.arrays[a as int] == arr@);
        if n < 0 || n as usize >= arr.elements.len() {
            return Err(Error::new("index out of bounds"));
        }
        match &arr.elements[n as usize] {
            ArrayElement::Object(o) => Ok(o.clone()),
            ArrayElement::Key(k) => {
                proof { lemma_find_key_bounds(entries_view(arr.map@), k@, 0); }
                match find_entry(&arr.map, k) {
                    Some(i) => Ok(arr.map[i].value.clone()),
                    None => Err(Error::new("key not found")),
                }
            },
        }
    }

    pub fn element_by_key(&self, a: usize, k: &String) -> (r: Result<Object, Error>)
        ensures
            res_view(r) == element_by_key(self@.arrays, a, k@),
    {
        if a >= self.arrays.len() {
            return Err(Error::new("not an array"));
        }
        let arr = &self.arrays[a];
        assert(self@.arrays[a as int] == arr@);
        proof { lemma_find_key_bounds(entries_view(arr.map@), k@, 0); }
        match find_entry(&arr.map, k) {
            Some(i) => Ok(arr.map[i].value.clone()),
            None => Err(Error::new("key not found")),
        }
    }

    pub fn set_element(&mut self, a: usize, n: i32, v: Object) -> (r: Result<(), Error>)
        ensures
            match set_element(old(self)@.arrays, a, n, v@) {
                Ok(arrays) => r is Ok && final(self)@ == (State { arrays, ..old(self)@ }),
                Err(m) => r matches Err(e) && e.message@ == m && final(self)@ == old(self)@,
            },
    {
        if a >= self.arrays.len() {
            return Err(Error::new("not an array"));
        }
        if n < 0 || n as usize >= self.arrays[a].elements.len() {
            let mut message = String::from_str("index out of range: ");
            push_number(&mut message, n);
            return Err(Error { message, child: None });
        }
        let ghost vv = v@;
        self.arrays[a].elements.set(n as usize, ArrayElement::Object(v));
        proof {
            let want = old(self)@.arrays.update(a as int, ArrayV {
                elements: old(self)@.arrays[a as int].elements.update(n as int, Slot::Val(vv)),
                ..old(self)@.arrays[a as int]
            });
            assert(slots_view(self.arrays@[a as int].elements@) =~= want[a as int].elements);
            assert(self@.arrays =~= want);
        }
        assert(self@.envs =~= old(self)@.envs);
        assert(self@.output =~= old(self)@.output);
        Ok(())
    }

    pub fn put_element(&mut self, a: usize, k: String, v: Object)
        ensures
            final(self)@ == (State { arrays: put_element(old(self)@.arrays, a, k@, v@), ..old(self)@ }),
    {
        if a < self.arrays.len() {
            let ghost want = put_element(old(self)@.arrays, a, k@, v@);
            put_entry(&mut self.arrays[a].map, k, v);
            assert(slots_view(self.arrays@[a as int].elements@) =~= want[a as int].elements);
            assert(self@.arrays =~= want);
        }
        assert(self@.envs =~= old(self)@.envs);
        assert(self@.output =~= old(self)@.output);
    }

    fn render_into(&self, v: &Object, path: &Vec<usize>, out: &mut String)
        ensures
            final(out)@ == old(out)@ + render(self@.arrays, v@, path@),
        decreases self@.arrays.len() - path@.len(), 0int, 0int,
    {
        match v {
            Object::Number(n) => push_number(out, *n),
            Object::Boolean(b) => if *b { push_str(out, "true") } else { push_str(out, "false") },
            Object::StringLiteral(s) => push_str(out, s.as_str()),
            Object::Array(a) => {
                let a = *a;
                if a < self.arrays.len() && !path_contains(path, a) && path.len() < self.arrays.len() {
                    let mut inner = path.clone();
                    inner.push(a);
                    assert(inner@ =~= path@.push(a));
                    push_str(out, "[");
                    self.render_slots_into(a, 0, &inner, out);
                    push_str(out, "]");
                    assert(final(out)@ =~= old(out)@ + render(self@.arrays, v@, path@));
                } else {
                    push_str(out, "[...]");
                }
            },
            Object::Function(_) => push_str(out, "function"),
            Object::BuiltInFunction(_) => push_str(out, "builtin function"),
            Object::Null => push_str(out, "null"),
            Object::Void => push_str(out, "void"),
            Object::NoValue => push_str(out, "none"),
            Object::Return(_) => push_str(out, "return"),
            Object::BlockReturn(_) => push_str(out, "block return"),
        }
    }

    fn render_slots_into(&self, a: usize, i: usize, path: &Vec<usize>, out: &mut String)
        requires
            a < self@.arrays.len(),
            path@.len() <= self@.arrays.len(),
        ensures
            final(out)@ == old(out)@ + render_slots(self@.arrays, a, i as int, path@),
        decreases self@.arrays.len() - path@.len(), 1int, self@.arrays[a as int].elements.len() - i,
    {
        let arr = &self.arrays[a];
        assert(self@.arrays[a as int] == arr@);
        if i >= arr.elements.len() {
            assert(old(out)@ + render_slots(self@.arrays, a, i as int, path@) =~= old(out)@);
            return;
        }
        match &arr.elements[i] {
            ArrayElement::Object(o) => {
                self.render_into(o, path, out);
                push_str(out, ",");
            },
            ArrayElement::Key(k) => {
                push_str(out, k.as_str());
                push_str(out, ":");
                proof { lemma_find_key_bounds(entries_view(arr.map@), k@, 0); }
                match find_entry(&arr.map, k) {
                    Some(j) => self.render_into(&arr.map[j].value, path, out),
                    None => self.render_into(&Object::NoValue, path, out),
                }
                push_str(out, ",");
            },
        }
        let ghost mid = final(out)@;
        self.render_slots_into(a, i + 1, path, out);
        assert(final(out)@ =~= old(out)@ + render_slots(self@.arrays, a, i as int, path@));
    }

    fn dump_bindings_into(&self, env: usize, i: usize, out: &mut String)
        requires
            env < self@.envs.len(),
        ensures
            final(out)@ == old(out)@ + dump_bindings(self@.arrays, self@.envs[env as int].values, i as int),
        decreases self@.envs[env as int].values.len() - i,
    {
        let node = &self.envs[env];
        assert(self@.envs[env as int] == node@);
        if i >= node.values.len() {
            assert(final(out)@ =~= old(out)@ + dump_bindings(self@.arrays, self@.envs[env as int].values, i as int));
            return;
        }
        push_str(out, node.values[i].name.as_str());
        push_str(out, ": ");
        let text = self.render(&node.values[i].value);
        push_str(out, text.as_str());
        push_str(out, " \n");
        self.dump_bindings_into(env, i + 1, out);
        assert(final(out)@ =~= old(out)@ + dump_bindings(self@.arrays, self@.envs[env as int].values, i as int));
    }

    fn dump_env_into(&self, env: usize, out: &mut String)
        ensures
            final(out)@ == old(out)@ + dump_env(self@, env as int),
        decreases self@.envs.len() - env, 1int, 0int,
    {
        if env >= self.envs.len() {
            assert(final(out)@ =~= old(out)@ + dump_env(self@, env as int));
            return;
        }
        self.dump_bindings_into(env, 0, out);
        self.dump_children_into(env, 0, out);
        assert(final(out)@ =~= old(out)@ + dump_env(self@, env as int));
    }

    fn dump_children_into(&self, env: usize, k: usize, out: &mut String)
        requires
            env < self@.envs.len(),
        ensures
            final(out)@ == old(out)@ + dump_children(self@, env as int, k as int),
        decreases self@.envs.len() - env, 0int, self@.envs[env as int].children.len() - k,
    {
        let node = &self.envs[env];
        assert(self@.envs[env as int] == node@);
        if k >= node.children.len() {
            assert(final(out)@ =~= old(out)@ + dump_children(self@, env as int, k as int));
            return;
        }
        let c = node.children[k];
        if env < c && c < self.envs.len() {
            push_str(out, "{\n");
            self.dump_env_into(c, out);
            push_str(out, "}\n");
            push_str(out, "\n");
        }
        self.dump_children_into(env, k + 1, out);
        assert(final(out)@ =~= old(out)@ + dump_children(self@, env as int, k as int));
    }

    /// The printed form of a value.
    pub fn render(&self, v: &Object) -> (r: String)
        ensures
            r@ == render(self@.arrays, v@, Seq::empty()),
    {
        let mut out = String::new();
        let path: Vec<usize> = Vec::new();
        assert(path@ =~= Seq::<usize>::empty());
        self.render_into(v, &path, &mut out);
        assert(out@ =~= render(self@.arrays, v@, Seq::empty()));
        out
    }
}

} // verus!
