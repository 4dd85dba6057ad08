use vstd::prelude::*;
use std::rc::Rc;
use crate::ast::WatchDeclaration;
use crate::interpreter::object::{Object, Value, find_key, lookup_key, put_key, lemma_find_key_bounds};

verus! {

/// One scope. Environments live in the runtime's arena and refer to each
/// other by index; a parent always has a smaller index than its children.
pub struct Environment {
    /// The bindings of this scope, sorted by name, names distinct.
    pub values: Vec<Binding>,
    /// Watch registrations, keyed by the name that was read.
    pub watch: Vec<WatchEntry>,
    pub parent: Option<usize>,
    pub children: Vec<usize>,
}

pub struct Binding {
    pub name: String,
    pub value: Object,
}

pub struct WatchEntry {
    pub name: String,
    pub watch: Watch,
}

/// A watch registration: the declaration to evaluate again and the
/// environment it was declared in.
pub struct Watch {
    pub expressions: Rc<WatchDeclaration>,
    pub env: usize,
}

impl Clone for Watch {
    fn clone(&self) -> (r: Self)
        ensures
            r == *self,
    {
        Watch { expressions: Rc::clone(&self.expressions), env: self.env }
    }
}

/// The mathematical contents of a scope.
pub struct EnvV {
    pub values: Seq<(Seq<char>, Value)>,
    pub watch: Seq<(Seq<char>, Watch)>,
    pub parent: Option<usize>,
    pub children: Seq<usize>,
}

impl Environment {
    pub open spec fn view(&self) -> EnvV {
        EnvV {
            values: Seq::new(self.values@.len(), |i: int| (self.values@[i].name@, self.values@[i].value@)),
            watch: Seq::new(self.watch@.len(), |i: int| (self.watch@[i].name@, self.watch@[i].watch)),
            parent: self.parent,
            children: self.children@,
        }
    }
}

pub open spec fn envs_view(v: Seq<Environment>) -> Seq<EnvV> {
    Seq::new(v.len(), |i: int| v[i]@)
}

/// Lexicographic order on character sequences, by code point.
pub open spec fn str_lt(a: Seq<char>, b: Seq<char>) -> bool
    decreases a.len(),
{
    if a.len() == 0 {
        b.len() > 0
    } else if b.len() == 0 {
        false
    } else if a[0] != b[0] {
        (a[0] as u32) < (b[0] as u32)
    } else {
        str_lt(a.drop_first(), b.drop_first())
    }
}

/// The first index from `j` on whose key is greater than `k`.
pub open spec fn first_greater<V>(s: Seq<(Seq<char>, V)>, k: Seq<char>, j: int) -> int
    decreases s.len() - j,
{
    if j < 0 || j >= s.len() {
        s.len() as int
    } else if str_lt(k, s[j].0) {
        j
    } else {
        first_greater(s, k, j + 1)
    }
}

/// Binds `k` in a sorted list: overwrites its entry, or inserts one before
/// the first greater key.
pub open spec fn define_entry(s: Seq<(Seq<char>, Value)>, k: Seq<char>, v: Value) -> Seq<(Seq<char>, Value)> {
    match find_key(s, k, 0) {
        Some(i) => s.update(i, (k, v)),
        None => s.insert(first_greater(s, k, 0), (k, v)),
    }
}

/// What `k` names as seen from environment `i`: innermost scope first.
pub open spec fn lookup(envs: Seq<EnvV>, i: int, k: Seq<char>) -> Option<Value>
    decreases i,
{
    if i < 0 || i >= envs.len() {
        None
    } else {
        match lookup_key(envs[i].values, k) {
            Some(v) => Some(v),
            None => match envs[i].parent {
                Some(p) => if 0 <= p < i { lookup(envs, p as int, k) } else { None },
                None => None,
            },
        }
    }
}

/// The nearest environment from `i` outwards that binds `k`.
pub open spec fn resolve(envs: Seq<EnvV>, i: int, k: Seq<char>) -> Option<int>
    decreases i,
{
    if i < 0 || i >= envs.len() {
        None
    } else {
        match find_key(envs[i].values, k, 0) {
            Some(_) => Some(i),
            None => match envs[i].parent {
                Some(p) => if 0 <= p < i { resolve(envs, p as int, k) } else { None },
                None => None,
            },
        }
    }
}

pub open spec fn define_in(envs: Seq<EnvV>, i: int, k: Seq<char>, v: Value) -> Seq<EnvV> {
    if 0 <= i < envs.len() {
        envs.update(i, EnvV { values: define_entry(envs[i].values, k, v), ..envs[i] })
    } else {
        envs
    }
}

/// Updates the nearest binding of `k`; without one nothing changes.
pub open spec fn assign_in(envs: Seq<EnvV>, i: int, k: Seq<char>, v: Value) -> Seq<EnvV> {
    match resolve(envs, i, k) {
        Some(j) => define_in(envs, j, k, v),
        None => envs,
    }
}

pub open spec fn set_watch_in(envs: Seq<EnvV>, i: int, k: Seq<char>, w: Watch) -> Seq<EnvV> {
    if 0 <= i < envs.len() {
        envs.update(i, EnvV { watch: put_key(envs[i].watch, k, w), ..envs[i] })
    } else {
        envs
    }
}

pub open spec fn watch_at(envs: Seq<EnvV>, i: int, k: Seq<char>) -> Option<Watch> {
    if 0 <= i < envs.len() {
        lookup_key(envs[i].watch, k)
    } else {
        None
    }
}

/// A fresh scope under `parent`, which records it among its children.
pub open spec fn new_env_in(envs: Seq<EnvV>, parent: Option<usize>) -> Seq<EnvV> {
    let id = envs.len() as usize;
    let fresh = EnvV { values: Seq::empty(), watch: Seq::empty(), parent, children: Seq::empty() };
    let envs2 = match parent {
        Some(p) => if p < envs.len() {
            envs.update(p as int, EnvV { children: envs[p as int].children.push(id), ..envs[p as int] })
        } else {
            envs
        },
        None => envs,
    };
    envs2.push(fresh)
}

/// Compares two strings by code point.
pub fn str_less(a: &String, b: &String) -> (r: bool)
    ensures
        r == str_lt(a@, b@),
{
    let sa = a.as_str();
    let sb = b.as_str();
    let la = sa.unicode_len();
    let lb = sb.unicode_len();
    let mut i: usize = 0;
    assert(a@.subrange(0, la as int) =~= a@);
    assert(b@.subrange(0, lb as int) =~= b@);
    while i < la && i < lb
        invariant
            sa@ == a@,
            sb@ == b@,
            la == a@.len(),
            lb == b@.len(),
            i <= la,
            i <= lb,
            a@.subrange(0, i as int) == b@.subrange(0, i as int),
            str_lt(a@, b@) == str_lt(a@.subrange(i as int, la as int), b@.subrange(i as int, lb as int)),
        decreases la - i,
    {
        let ca = sa.get_char(i);
        let cb = sb.get_char(i);
        if ca != cb {
            proof {
                let x = a@.subrange(i as int, la as int);
                let y = b@.subrange(i as int, lb as int);
                assert(x[0] == ca && y[0] == cb);
            }
            return (ca as u32) < (cb as u32);
        }
        proof {
            let x = a@.subrange(i as int, la as int);
            let y = b@.subrange(i as int, lb as int);
            assert(x.drop_first() =~= a@.subrange(i + 1, la as int));
            assert(y.drop_first() =~= b@.subrange(i + 1, lb as int));
            assert(a@.subrange(0, i + 1) =~= a@.subrange(0, i as int).push(ca));
            assert(b@.subrange(0, i + 1) =~= b@.subrange(0, i as int).push(cb));
        }
        i = i + 1;
    }
    proof {
        assert(a@.subrange(i as int, la as int).len() == la - i);
    }
    i == la && i < lb
}

impl Environment {
    pub fn new(parent: Option<usize>) -> (r: Environment)
        ensures
            r@ == (EnvV { values: Seq::empty(), watch: Seq::empty(), parent, children: Seq::empty() }),
    {
        let r = Environment { values: Vec::new(), watch: Vec::new(), parent, children: Vec::new() };
        assert(r@.values =~= Seq::empty());
        assert(r@.watch =~= Seq::empty());
        r
    }

    /// Index of the binding of `name` in this scope.
    pub fn find(&self, name: &String) -> (r: Option<usize>)
        ensures
            r matches Some(i) ==> find_key(self@.values, name@, 0) == Some(i as int),
            r is None ==> find_key(self@.values, name@, 0) is None,
    {
        let mut i: usize = 0;
        while i < self.values.len()
            invariant
                i <= self.values@.len(),
                find_key(self@.values, name@, 0) == find_key(self@.values, name@, i as int),
            decreases self.values@.len() - i,
        {
            if self.values[i].name.eq(name) {
                return Some(i);
            }
            i = i + 1;
        }
        None
    }

    pub fn find_watch(&self, name: &String) -> (r: Option<usize>)
        ensures
            r matches Some(i) ==> find_key(self@.watch, name@, 0) == Some(i as int),
            r is None ==> find_key(self@.watch, name@, 0) is None,
    {
        let mut i: usize = 0;
        while i < self.watch.len()
            invariant
                i <= self.watch@.len(),
                find_key(self@.watch, name@, 0) == find_key(self@.watch, name@, i as int),
            decreases self.watch@.len() - i,
        {
            if self.watch[i].name.eq(name) {
                return Some(i);
            }
            i = i + 1;
        }
        None
    }

    /// Binds `name` in this scope only.
    pub fn define(&mut self, name: String, value: Object)
        ensures
            final(self)@ == (EnvV { values: define_entry(old(self)@.values, name@, value@), ..old(self)@ }),
    {
        let ghost k = name@;
        let ghost v = value@;
        proof { lemma_find_key_bounds(self@.values, k, 0); }
        match self.find(&name) {
            Some(i) => {
                self.values.set(i, Binding { name, value });
            },
            None => {
                let mut j: usize = 0;
                while j < self.values.len() && !str_less(&name, &self.values[j].name)
                    invariant
                        j <= self.values@.len(),
                        first_greater(self@.values, k, 0) == first_greater(self@.values, k, j as int),
                        name@ == k,
                    decreases self.values@.len() - j,
                {
                    j = j + 1;
                }
                self.values.insert(j, Binding { name, value });
            },
        }
        assert(self@.values =~= define_entry(old(self)@.values, k, v));
        assert(self@.watch =~= old(self)@.watch);
    }

    /// Registers `name` as read by the watch `w`.
    pub fn set_watch(&mut self, expressions: Rc<WatchDeclaration>, env: usize, name: String)
        ensures
            final(self)@ == (EnvV {
                watch: put_key(old(self)@.watch, name@, Watch { expressions, env }),
                ..old(self)@
            }),
    {
        let ghost k = name@;
        let ghost w = Watch { expressions, env };
        proof { lemma_find_key_bounds(self@.watch, k, 0); }
        match self.find_watch(&name) {
            Some(i) => {
                self.watch.set(i, WatchEntry { name, watch: Watch { expressions, env } });
            },
            None => {
                self.watch.push(WatchEntry { name, watch: Watch { expressions, env } });
            },
        }
        assert(self@.watch =~= put_key(old(self)@.watch, k, w));
        assert(self@.values =~= old(self)@.values);
    }

    /// What `name` is bound to, searching from environment `env` outwards.
    pub fn get(envs: &Vec<Environment>, env: usize, name: &String) -> (r: Option<Object>)
        ensures
            r matches Some(o) ==> lookup(envs_view(envs@), env as int, name@) == Some(o@),
            r is None ==> lookup(envs_view(envs@), env as int, name@) is None,
        decreases env,
    {
        if env >= envs.len() {
            return None;
        }
        let node = &envs[env];
        proof { lemma_find_key_bounds(node@.values, name@, 0); }
        assert(envs_view(envs@)[env as int] == node@);
        match node.find(name) {
            Some(i) => Some(node.values[i].value.clone()),
            None => match node.parent {
                Some(p) => if p < env {
                    Environment::get(envs, p, name)
                } else {
                    None
                },
                None => None,
            },
        }
    }

    /// The environment that an assignment to `name` from `env` updates.
    pub fn resolve(envs: &Vec<Environment>, env: usize, name: &String) -> (r: Option<usize>)
        ensures
            r matches Some(j) ==> resolve(envs_view(envs@), env as int, name@) == Some(j as int),
            r is None ==> resolve(envs_view(envs@), env as int, name@) is None,
        decreases env,
    {
        if env >= envs.len() {
            return None;
        }
        let node = &envs[env];
        assert(envs_view(envs@)[env as int] == node@);
        match node.find(name) {
            Some(_) => Some(env),
            None => match node.parent {
                Some(p) => if p < env {
                    Environment::resolve(envs, p, name)
                } else {
                    None
                },
                None => None,
            },
        }
    }

    /// Updates the nearest binding of `name`; returns the environment that
    /// holds it, or `None` (and changes nothing) where no scope binds it.
    pub fn assign(envs: &mut Vec<Environment>, env: usize, name: &String, value: Object) -> (r: Option<usize>)
        ensures
            r matches Some(j) ==> resolve(envs_view(old(envs)@), env as int, name@) == Some(j as int),
            r is None ==> resolve(envs_view(old(envs)@), env as int, name@) is None,
            envs_view(final(envs)@) == assign_in(envs_view(old(envs)@), env as int, name@, value@),
    {
        let target = Environment::resolve(envs, env, name);
        match target {
            Some(j) => {
                proof { resolve_in_range(envs_view(envs@), env as int, name@); }
                envs[j].define(name.clone(), value);
                assert(envs_view(envs@) =~= define_in(envs_view(old(envs)@), j as int, name@, value@));
            },
            None => {},
        }
        target
    }
}

pub proof fn resolve_in_range(envs: Seq<EnvV>, i: int, k: Seq<char>)
    ensures
        resolve(envs, i, k) matches Some(j) ==> 0 <= j < envs.len() && j <= i,
    decreases i,
{
    if 0 <= i < envs.len() {
        if find_key(envs[i].values, k, 0) is None {
            match envs[i].parent {
                Some(p) => if 0 <= p < i { resolve_in_range(envs, p as int, k); },
                None => {},
            }
        }
    }
}

} // verus!
