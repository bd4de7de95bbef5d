//! The interpreter's canonical values: the closed union of everything that
//! can cross the boundary.

use vstd::prelude::*;
use crate::bigint::{bytes_equal, copy_bytes, BigInt};

verus! {

/// Mathematical model of a canonical value.
pub enum ValueView {
    NoneValue,
    Bool(bool),
    Int(int),
    BigInt(int),
    Float(u64),
    Str(Seq<char>),
    Bytes(Seq<u8>),
    Ellipsis,
    List(Seq<ValueView>),
    Tuple(Seq<ValueView>),
    Dict(Seq<(ValueView, ValueView)>),
    SetValue(Seq<ValueView>),
    FrozenSet(Seq<ValueView>),
    Path(Seq<char>),
    NamedTuple { name: Seq<char>, field_names: Seq<Seq<char>>, values: Seq<ValueView> },
    Dataclass {
        name: Seq<char>,
        field_names: Seq<Seq<char>>,
        attrs: Seq<(Seq<char>, ValueView)>,
        frozen: bool,
    },
    Exception { exc_type: Seq<char>, arg: Option<Seq<char>> },
    Type(Seq<char>),
    BuiltinFunction(Seq<char>),
    Repr(Seq<char>),
    Cycle(u64, Seq<char>),
}

/// A canonical value.
#[derive(Debug, PartialEq, Eq)]
pub enum Value {
    /// The absence of a value.
    NoneValue,
    /// A boolean.
    Bool(bool),
    /// A 64-bit signed integer.
    Int(i64),
    /// An arbitrary-precision integer.
    BigInt(BigInt),
    /// A 64-bit float, by its bits.
    Float(u64),
    /// A text.
    Str(String),
    /// A byte string.
    Bytes(Vec<u8>),
    /// The ellipsis marker.
    Ellipsis,
    /// An ordered list.
    List(Vec<Value>),
    /// A fixed tuple.
    Tuple(Vec<Value>),
    /// A dictionary; the order of insertion is significant.
    Dict(Vec<(Value, Value)>),
    /// A set.
    SetValue(Vec<Value>),
    /// A frozen set.
    FrozenSet(Vec<Value>),
    /// A filesystem path.
    Path(String),
    /// A named tuple: a type name, the field names in order, and one value
    /// for each position.
    NamedTuple { name: String, field_names: Vec<String>, values: Vec<Value> },
    /// A data-class record: a type name, the declared field names in order,
    /// the attributes by name, and whether the record is frozen.
    Dataclass { name: String, field_names: Vec<String>, attrs: Vec<(String, Value)>, frozen: bool },
    /// An exception: the name of its type and the message, if it has one.
    Exception { exc_type: String, arg: Option<String> },
    /// A reference to a type, by the type's name.
    Type(String),
    /// A reference to a builtin function, by the function's name.
    BuiltinFunction(String),
    /// The display string of a value that has no faithful form of its own.
    Repr(String),
    /// The place where a value refers back to itself: the identity of the
    /// value referred to, and a description.
    Cycle(u64, String),
}

/// The model of a sequence of names.
pub open spec fn names_view(names: Seq<String>) -> Seq<Seq<char>> {
    Seq::new(names.len(), |i: int| names[i]@)
}

/// The model of an optional text.
pub open spec fn opt_str_view(s: Option<String>) -> Option<Seq<char>> {
    match s {
        Some(s) => Some(s@),
        None => None,
    }
}

/// The model of a sequence of values.
pub open spec fn values_view(items: Seq<Value>) -> Seq<ValueView>
    decreases items, 0nat,
{
    Seq::new(
        items.len(),
        |i: int|
            if 0 <= i < items.len() {
                value_view(items[i])
            } else {
                ValueView::NoneValue
            },
    )
}

/// The model of a sequence of key-value pairs.
pub open spec fn pairs_view(pairs: Seq<(Value, Value)>) -> Seq<(ValueView, ValueView)>
    decreases pairs, 0nat,
{
    Seq::new(
        pairs.len(),
        |i: int|
            if 0 <= i < pairs.len() {
                (value_view(pairs[i].0), value_view(pairs[i].1))
            } else {
                (ValueView::NoneValue, ValueView::NoneValue)
            },
    )
}

/// The model of a sequence of named values.
pub open spec fn named_view(attrs: Seq<(String, Value)>) -> Seq<(Seq<char>, ValueView)>
    decreases attrs, 0nat,
{
    Seq::new(
        attrs.len(),
        |i: int|
            if 0 <= i < attrs.len() {
                (attrs[i].0@, value_view(attrs[i].1))
            } else {
                (Seq::empty(), ValueView::NoneValue)
            },
    )
}

/// The model of a value.
pub open spec fn value_view(v: Value) -> ValueView
    decreases v, 1nat,
{
    match v {
        Value::NoneValue => ValueView::NoneValue,
        Value::Bool(b) => ValueView::Bool(b),
        Value::Int(i) => ValueView::Int(i as int),
        Value::BigInt(b) => ValueView::BigInt(b@),
        Value::Float(bits) => ValueView::Float(bits),
        Value::Str(s) => ValueView::Str(s@),
        Value::Bytes(b) => ValueView::Bytes(b@),
        Value::Ellipsis => ValueView::Ellipsis,
        Value::List(items) => ValueView::List(values_view(items@)),
        Value::Tuple(items) => ValueView::Tuple(values_view(items@)),
        Value::Dict(pairs) => ValueView::Dict(pairs_view(pairs@)),
        Value::SetValue(items) => ValueView::SetValue(values_view(items@)),
        Value::FrozenSet(items) => ValueView::FrozenSet(values_view(items@)),
        Value::Path(p) => ValueView::Path(p@),
        Value::NamedTuple { name, field_names, values } => ValueView::NamedTuple {
            name: name@,
            field_names: names_view(field_names@),
            values: values_view(values@),
        },
        Value::Dataclass { name, field_names, attrs, frozen } => ValueView::Dataclass {
            name: name@,
            field_names: names_view(field_names@),
            attrs: named_view(attrs@),
            frozen,
        },
        Value::Exception { exc_type, arg } => ValueView::Exception {
            exc_type: exc_type@,
            arg: opt_str_view(arg),
        },
        Value::Type(name) => ValueView::Type(name@),
        Value::BuiltinFunction(name) => ValueView::BuiltinFunction(name@),
        Value::Repr(s) => ValueView::Repr(s@),
        Value::Cycle(id, description) => ValueView::Cycle(id, description@),
    }
}

impl View for Value {
    type V = ValueView;

    open spec fn view(&self) -> ValueView {
        value_view(*self)
    }
}

/// A copy of an optional text.
pub fn duplicate_opt_text(s: &Option<String>) -> (r: Option<String>)
    ensures
        opt_str_view(r) == opt_str_view(*s),
{
    match s {
        Some(text) => Some(text.clone()),
        None => None,
    }
}

/// A copy of a sequence of names.
pub fn duplicate_names(names: &Vec<String>) -> (r: Vec<String>)
    ensures
        names_view(r@) == names_view(names@),
{
    let mut out: Vec<String> = Vec::new();
    let mut i: usize = 0;
    while i < names.len()
        invariant
            i <= names.len(),
            out.len() == i,
            forall|j: int| 0 <= j < i ==> (#[trigger] out@[j])@ == names@[j]@,
        decreases names.len() - i,
    {
        out.push(names[i].clone());
        i = i + 1;
    }
    assert(names_view(out@) =~= names_view(names@));
    out
}

/// A copy of a sequence of values.
pub fn duplicate_values(items: &Vec<Value>) -> (r: Vec<Value>)
    ensures
        values_view(r@) == values_view(items@),
    decreases items,
{
    let mut out: Vec<Value> = Vec::new();
    let mut i: usize = 0;
    while i < items.len()
        invariant
            i <= items.len(),
            out.len() == i,
            forall|j: int| 0 <= j < i ==> value_view(#[trigger] out@[j]) == value_view(items@[j]),
        decreases items.len() - i,
    {
        let copy = items[i].duplicate();
        out.push(copy);
        i = i + 1;
    }
    assert(values_view(out@) =~= values_view(items@));
    out
}

/// A copy of a sequence of key-value pairs.
pub fn duplicate_pairs(pairs: &Vec<(Value, Value)>) -> (r: Vec<(Value, Value)>)
    ensures
        pairs_view(r@) == pairs_view(pairs@),
    decreases pairs,
{
    let mut out: Vec<(Value, Value)> = Vec::new();
    let mut i: usize = 0;
    while i < pairs.len()
        invariant
            i <= pairs.len(),
            out.len() == i,
            forall|j: int|
                0 <= j < i ==> value_view((#[trigger] out@[j]).0) == value_view(pairs@[j].0)
                    && value_view(out@[j].1) == value_view(pairs@[j].1),
        decreases pairs.len() - i,
    {
        let key = pairs[i].0.duplicate();
        let value = pairs[i].1.duplicate();
        out.push((key, value));
        i = i + 1;
    }
    assert(pairs_view(out@) =~= pairs_view(pairs@));
    out
}

/// A copy of a sequence of named values.
pub fn duplicate_named(attrs: &Vec<(String, Value)>) -> (r: Vec<(String, Value)>)
    ensures
        named_view(r@) == named_view(attrs@),
    decreases attrs,
{
    let mut out: Vec<(String, Value)> = Vec::new();
    let mut i: usize = 0;
    while i < attrs.len()
        invariant
            i <= attrs.len(),
            out.len() == i,
            forall|j: int|
                0 <= j < i ==> (#[trigger] out@[j]).0@ == attrs@[j].0@ && value_view(out@[j].1)
                    == value_view(attrs@[j].1),
        decreases attrs.len() - i,
    {
        let name = attrs[i].0.clone();
        let value = attrs[i].1.duplicate();
        out.push((name, value));
        i = i + 1;
    }
    assert(named_view(out@) =~= named_view(attrs@));
    out
}

impl Value {
    /// A copy of the value.
    pub fn duplicate(&self) -> (r: Value)
        ensures
            r@ == self@,
        decreases self,
    {
        match self {
            Value::NoneValue => Value::NoneValue,
            Value::Bool(b) => Value::Bool(*b),
            Value::Int(i) => Value::Int(*i),
            Value::BigInt(b) => Value::BigInt(b.duplicate()),
            Value::Float(bits) => Value::Float(*bits),
            Value::Str(s) => Value::Str(s.clone()),
            Value::Bytes(b) => Value::Bytes(copy_bytes(b)),
            Value::Ellipsis => Value::Ellipsis,
            Value::List(items) => Value::List(duplicate_values(items)),
            Value::Tuple(items) => Value::Tuple(duplicate_values(items)),
            Value::Dict(pairs) => Value::Dict(duplicate_pairs(pairs)),
            Value::SetValue(items) => Value::SetValue(duplicate_values(items)),
            Value::FrozenSet(items) => Value::FrozenSet(duplicate_values(items)),
            Value::Path(p) => Value::Path(p.clone()),
            Value::NamedTuple { name, field_names, values } => Value::NamedTuple {
                name: name.clone(),
                field_names: duplicate_names(field_names),
                values: duplicate_values(values),
            },
            Value::Dataclass { name, field_names, attrs, frozen } => Value::Dataclass {
                name: name.clone(),
                field_names: duplicate_names(field_names),
                attrs: duplicate_named(attrs),
                frozen: *frozen,
            },
            Value::Exception { exc_type, arg } => Value::Exception {
                exc_type: exc_type.clone(),
                arg: duplicate_opt_text(arg),
            },
            Value::Type(name) => Value::Type(name.clone()),
            Value::BuiltinFunction(name) => Value::BuiltinFunction(name.clone()),
            Value::Repr(s) => Value::Repr(s.clone()),
            Value::Cycle(id, description) => Value::Cycle(*id, description.clone()),
        }
    }
}

/// Whether two optional texts are the same.
pub fn same_opt_text(a: &Option<String>, b: &Option<String>) -> (r: bool)
    ensures
        r == (opt_str_view(*a) == opt_str_view(*b)),
{
    match (a, b) {
        (Some(x), Some(y)) => *x == *y,
        (None, None) => true,
        _ => false,
    }
}

/// Whether two sequences of names hold the same names in the same order.
pub fn same_names(a: &Vec<String>, b: &Vec<String>) -> (r: bool)
    ensures
        r == (names_view(a@) == names_view(b@)),
{
    if a.len() != b.len() {
        assert(names_view(a@).len() != names_view(b@).len());
        return false;
    }
    let mut i: usize = 0;
    while i < a.len()
        invariant
            a.len() == b.len(),
            i <= a.len(),
            forall|j: int| 0 <= j < i ==> (#[trigger] a@[j])@ == b@[j]@,
        decreases a.len() - i,
    {
        if a[i] != b[i] {
            assert(names_view(a@)[i as int] != names_view(b@)[i as int]);
            return false;
        }
        i = i + 1;
    }
    assert(names_view(a@) =~= names_view(b@));
    true
}

/// Whether two sequences of values hold the same values in the same order.
pub fn same_values(a: &Vec<Value>, b: &Vec<Value>) -> (r: bool)
    ensures
        r == (values_view(a@) == values_view(b@)),
    decreases a,
{
    if a.len() != b.len() {
        assert(values_view(a@).len() != values_view(b@).len());
        return false;
    }
    let mut i: usize = 0;
    while i < a.len()
        invariant
            a.len() == b.len(),
            i <= a.len(),
            forall|j: int| 0 <= j < i ==> value_view(#[trigger] a@[j]) == value_view(b@[j]),
        decreases a.len() - i,
    {
        if !a[i].same(&b[i]) {
            assert(values_view(a@)[i as int] != values_view(b@)[i as int]);
            return false;
        }
        i = i + 1;
    }
    assert(values_view(a@) =~= values_view(b@));
    true
}

/// Whether two sequences of pairs hold the same pairs in the same order.
pub fn same_pairs(a: &Vec<(Value, Value)>, b: &Vec<(Value, Value)>) -> (r: bool)
    ensures
        r == (pairs_view(a@) == pairs_view(b@)),
    decreases a,
{
    if a.len() != b.len() {
        assert(pairs_view(a@).len() != pairs_view(b@).len());
        return false;
    }
    let mut i: usize = 0;
    while i < a.len()
        invariant
            a.len() == b.len(),
            i <= a.len(),
            forall|j: int|
                0 <= j < i ==> value_view((#[trigger] a@[j]).0) == value_view(b@[j].0)
                    && value_view(a@[j].1) == value_view(b@[j].1),
        decreases a.len() - i,
    {
        if !(a[i].0.same(&b[i].0) && a[i].1.same(&b[i].1)) {
            assert(pairs_view(a@)[i as int] != pairs_view(b@)[i as int]);
            return false;
        }
        i = i + 1;
    }
    assert(pairs_view(a@) =~= pairs_view(b@));
    true
}

/// Whether two sequences of named values hold the same names and values in
/// the same order.
pub fn same_named(a: &Vec<(String, Value)>, b: &Vec<(String, Value)>) -> (r: bool)
    ensures
        r == (named_view(a@) == named_view(b@)),
    decreases a,
{
    if a.len() != b.len() {
        assert(named_view(a@).len() != named_view(b@).len());
        return false;
    }
    let mut i: usize = 0;
    while i < a.len()
        invariant
            a.len() == b.len(),
            i <= a.len(),
            forall|j: int|
                0 <= j < i ==> (#[trigger] a@[j]).0@ == b@[j].0@ && value_view(a@[j].1)
                    == value_view(b@[j].1),
        decreases a.len() - i,
    {
        if !(a[i].0 == b[i].0 && a[i].1.same(&b[i].1)) {
            assert(named_view(a@)[i as int] != named_view(b@)[i as int]);
            return false;
        }
        i = i + 1;
    }
    assert(named_view(a@) =~= named_view(b@));
    true
}

impl Value {
    /// Whether two values are the same canonical value.
    pub fn same(&self, other: &Value) -> (r: bool)
        ensures
            r == (self@ == other@),
        decreases self,
    {
        match (self, other) {
            (Value::NoneValue, Value::NoneValue) => true,
            (Value::Bool(a), Value::Bool(b)) => *a == *b,
            (Value::Int(a), Value::Int(b)) => *a == *b,
            (Value::BigInt(a), Value::BigInt(b)) => a.same(b),
            (Value::Float(a), Value::Float(b)) => *a == *b,
            (Value::Str(a), Value::Str(b)) => *a == *b,
            (Value::Bytes(a), Value::Bytes(b)) => bytes_equal(a, b),
            (Value::Ellipsis, Value::Ellipsis) => true,
            (Value::List(a), Value::List(b)) => same_values(a, b),
            (Value::Tuple(a), Value::Tuple(b)) => same_values(a, b),
            (Value::Dict(a), Value::Dict(b)) => same_pairs(a, b),
            (Value::SetValue(a), Value::SetValue(b)) => same_values(a, b),
            (Value::FrozenSet(a), Value::FrozenSet(b)) => same_values(a, b),
            (Value::Path(a), Value::Path(b)) => *a == *b,
            (
                Value::NamedTuple { name: n1, field_names: f1, values: v1 },
                Value::NamedTuple { name: n2, field_names: f2, values: v2 },
            ) => *n1 == *n2 && same_names(f1, f2) && same_values(v1, v2),
            (
                Value::Dataclass { name: n1, field_names: f1, attrs: a1, frozen: z1 },
                Value::Dataclass { name: n2, field_names: f2, attrs: a2, frozen: z2 },
            ) => *n1 == *n2 && same_names(f1, f2) && same_named(a1, a2) && *z1 == *z2,
            (
                Value::Exception { exc_type: t1, arg: a1 },
                Value::Exception { exc_type: t2, arg: a2 },
            ) => *t1 == *t2 && same_opt_text(a1, a2),
            (Value::Type(a), Value::Type(b)) => *a == *b,
            (Value::BuiltinFunction(a), Value::BuiltinFunction(b)) => *a == *b,
            (Value::Repr(a), Value::Repr(b)) => *a == *b,
            (Value::Cycle(i1, d1), Value::Cycle(i2, d2)) => *i1 == *i2 && *d1 == *d2,
            _ => false,
        }
    }
}

} // verus!
