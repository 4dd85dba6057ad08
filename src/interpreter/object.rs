use vstd::prelude::*;
use std::rc::Rc;
use crate::ast::FunctionLiteral;

verus! {

/// A runtime value. Arrays live in the runtime's array store and are shared
/// by handle; functions share their literal and refer to the environment
/// they captured by handle.
#[derive(Debug, PartialEq)]
pub enum Object {
    Number(i32),
    Boolean(bool),
    Function(Function),
    BuiltInFunction(BuiltInFunction),
    StringLiteral(String),
    Array(usize),
    Return(Box<Return>),
    BlockReturn(Box<BlockReturn>),
    NoValue,
    Null,
    Void,
}

#[derive(Debug, PartialEq)]
pub struct Function {
    pub literal: Rc<FunctionLiteral>,
    pub env: usize,
}

#[derive(Debug, PartialEq)]
pub struct BuiltInFunction {
    pub name: String,
}

/// An ordered list of slots beside a string-keyed map; a `Key` slot stands
/// for the map entry of that key.
#[derive(Debug, PartialEq)]
pub struct Array {
    pub elements: Vec<ArrayElement>,
    pub map: Vec<MapEntry>,
}

#[derive(Debug, PartialEq)]
pub enum ArrayElement {
    Object(Object),
    Key(String),
}

#[derive(Debug, PartialEq)]
pub struct MapEntry {
    pub key: String,
    pub value: Object,
}

#[derive(Debug, PartialEq)]
pub struct BlockReturn {
    pub value: Object,
}

#[derive(Debug, PartialEq)]
pub struct Return {
    pub value: Object,
}

/// The mathematical value of an `Object`.
pub enum Value {
    Number(i32),
    Boolean(bool),
    Function(Rc<FunctionLiteral>, usize),
    BuiltIn(Seq<char>),
    Str(Seq<char>),
    Array(usize),
    Return(Box<Value>),
    BlockReturn(Box<Value>),
    NoValue,
    Null,
    Void,
}

pub enum Slot {
    Val(Value),
    Key(Seq<char>),
}

/// The mathematical contents of an array: its slots and its map as a list of
/// entries with distinct keys.
pub struct ArrayV {
    pub elements: Seq<Slot>,
    pub map: Seq<(Seq<char>, Value)>,
}

impl Object {
    pub open spec fn view(&self) -> Value
        decreases self,
    {
        match self {
            Object::Number(n) => Value::Number(*n),
            Object::Boolean(b) => Value::Boolean(*b),
            Object::Function(f) => Value::Function(f.literal, f.env),
            Object::BuiltInFunction(b) => Value::BuiltIn(b.name@),
            Object::StringLiteral(s) => Value::Str(s@),
            Object::Array(a) => Value::Array(*a),
            Object::Return(r) => Value::Return(Box::new(r.value.view())),
            Object::BlockReturn(r) => Value::BlockReturn(Box::new(r.value.view())),
            Object::NoValue => Value::NoValue,
            Object::Null => Value::Null,
            Object::Void => Value::Void,
        }
    }
}

impl ArrayElement {
    pub open spec fn view(&self) -> Slot {
        match self {
            ArrayElement::Object(o) => Slot::Val(o@),
            ArrayElement::Key(k) => Slot::Key(k@),
        }
    }
}

pub open spec fn slots_view(v: Seq<ArrayElement>) -> Seq<Slot> {
    Seq::new(v.len(), |i: int| v[i]@)
}

pub open spec fn entries_view(v: Seq<MapEntry>) -> Seq<(Seq<char>, Value)> {
    Seq::new(v.len(), |i: int| (v[i].key@, v[i].value@))
}

impl Array {
    pub open spec fn view(&self) -> ArrayV {
        ArrayV { elements: slots_view(self.elements@), map: entries_view(self.map@) }
    }
}

/// Index of the first entry of `s` with key `k`, searching from `i`.
pub open spec fn find_key<V>(s: Seq<(Seq<char>, V)>, k: Seq<char>, i: int) -> Option<int>
    decreases s.len() - i,
{
    if i < 0 || i >= s.len() {
        None
    } else if s[i].0 == k {
        Some(i)
    } else {
        find_key(s, k, i + 1)
    }
}

pub open spec fn lookup_key<V>(s: Seq<(Seq<char>, V)>, k: Seq<char>) -> Option<V> {
    match find_key(s, k, 0) {
        Some(i) => Some(s[i].1),
        None => None,
    }
}

/// Overwrites the entry of `k`, or adds one at the end.
pub open spec fn put_key<V>(s: Seq<(Seq<char>, V)>, k: Seq<char>, v: V) -> Seq<(Seq<char>, V)> {
    match find_key(s, k, 0) {
        Some(i) => s.update(i, (k, v)),
        None => s.push((k, v)),
    }
}

pub proof fn lemma_find_key_bounds<V>(s: Seq<(Seq<char>, V)>, k: Seq<char>, i: int)
    ensures
        find_key(s, k, i) matches Some(j) ==> i <= j < s.len() && s[j].0 == k,
        find_key(s, k, i) is None ==> forall|j: int| 0 <= i <= j < s.len() ==> s[j].0 != k,
    decreases s.len() - i,
{
    if 0 <= i < s.len() && s[i].0 != k {
        lemma_find_key_bounds(s, k, i + 1);
    }
}

/// `Boolean(false)`, `Null`, `Void`, `NoValue` and `Number(0)`.
pub open spec fn falsey(v: Value) -> bool {
    match v {
        Value::Boolean(b) => !b,
        Value::Null | Value::Void | Value::NoValue => true,
        Value::Number(n) => n == 0,
        _ => false,
    }
}

/// Same variant and same payload, for numbers, booleans, strings and the
/// three empty values; every other pairing is unequal.
pub open spec fn equal_values(a: Value, b: Value) -> bool {
    match (a, b) {
        (Value::Number(x), Value::Number(y)) => x == y,
        (Value::Boolean(x), Value::Boolean(y)) => x == y,
        (Value::Str(x), Value::Str(y)) => x == y,
        (Value::Null, Value::Null) => true,
        (Value::Void, Value::Void) => true,
        (Value::NoValue, Value::NoValue) => true,
        _ => false,
    }
}

pub open spec fn is_marker(v: Value) -> bool {
    v is Return || v is BlockReturn
}

pub open spec fn unwrap_return_value(v: Value) -> Value {
    match v {
        Value::Return(b) => *b,
        _ => v,
    }
}

pub open spec fn unwrap_block_return_value(v: Value) -> Value {
    match v {
        Value::BlockReturn(b) => *b,
        _ => v,
    }
}

impl Clone for Object {
    fn clone(&self) -> (r: Self)
        ensures
            r == *self,
        decreases self,
    {
        match self {
            Object::Number(n) => Object::Number(*n),
            Object::Boolean(b) => Object::Boolean(*b),
            Object::Function(f) => Object::Function(Function { literal: Rc::clone(&f.literal), env: f.env }),
            Object::BuiltInFunction(b) => Object::BuiltInFunction(BuiltInFunction { name: b.name.clone() }),
            Object::StringLiteral(s) => Object::StringLiteral(s.clone()),
            Object::Array(a) => Object::Array(*a),
            Object::Return(r) => Object::Return(Box::new(Return { value: r.value.clone() })),
            Object::BlockReturn(r) => Object::BlockReturn(Box::new(BlockReturn { value: r.value.clone() })),
            Object::NoValue => Object::NoValue,
            Object::Null => Object::Null,
            Object::Void => Object::Void,
        }
    }
}

impl Clone for ArrayElement {
    fn clone(&self) -> (r: Self)
        ensures
            r == *self,
    {
        match self {
            ArrayElement::Object(o) => ArrayElement::Object(o.clone()),
            ArrayElement::Key(k) => ArrayElement::Key(k.clone()),
        }
    }
}

impl Object {
    pub fn is_number(&self) -> (r: bool)
        ensures
            r == (self@ is Number),
    {
        match self {
            Object::Number(_) => true,
            _ => false,
        }
    }

    pub fn unwrap_number(&self) -> (r: i32)
        requires
            self@ is Number,
        ensures
            self@ == Value::Number(r),
    {
        match self {
            Object::Number(value) => *value,
            _ => 0,
        }
    }

    pub fn is_falsey(&self) -> (r: bool)
        ensures
            r == falsey(self@),
    {
        match self {
            Object::Boolean(value) => !*value,
            Object::Null => true,
            Object::Void => true,
            Object::NoValue => true,
            Object::Number(value) => *value == 0,
            _ => false,
        }
    }

    pub fn is_return(&self) -> (r: bool)
        ensures
            r == (self@ is Return),
    {
        match self {
            Object::Return(_) => true,
            _ => false,
        }
    }

    pub fn is_return_like(&self) -> (r: bool)
        ensures
            r == is_marker(self@),
    {
        match self {
            Object::Return(_) => true,
            Object::BlockReturn(_) => true,
            _ => false,
        }
    }

    pub fn is_none(&self) -> (r: bool)
        ensures
            r == (self@ is NoValue),
    {
        match self {
            Object::NoValue => true,
            _ => false,
        }
    }

    pub fn unwrap_block_return(&self) -> (r: Object)
        ensures
            r@ == unwrap_block_return_value(self@),
    {
        match self {
            Object::BlockReturn(block_return) => block_return.value.clone(),
            _ => self.clone(),
        }
    }

    pub fn unwrap_return(&self) -> (r: Object)
        ensures
            r@ == unwrap_return_value(self@),
    {
        match self {
            Object::Return(return_value) => return_value.value.clone(),
            _ => self.clone(),
        }
    }

    pub fn is_equal_to(&self, other: &Object) -> (r: bool)
        ensures
            r == equal_values(self@, other@),
    {
        match (self, other) {
            (Object::Number(left), Object::Number(right)) => *left == *right,
            (Object::Boolean(left), Object::Boolean(right)) => *left == *right,
            (Object::StringLiteral(left), Object::StringLiteral(right)) => left.eq(right),
            (Object::Null, Object::Null) => true,
            (Object::Void, Object::Void) => true,
            (Object::NoValue, Object::NoValue) => true,
            _ => false,
        }
    }
}

} // verus!
