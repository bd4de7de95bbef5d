//! Encoding: from a canonical value to the host's representation.
//!
//! Encoding is total. A value that has no host form of its own becomes a
//! tagged wrapper: a tuple that starts with an atom, or a mapping with a
//! `__struct__` entry.

use vstd::prelude::*;
use vstd::string::StrSliceExecFns;
use vstd::utf8::encode_utf8;
use crate::assoc::assoc_put_all;
use crate::bigint::{copy_bytes, magnitude_spec, sign_spec, BigInt, Sign};
use crate::term::{entries_view, map_put, map_put_spec, term_view, terms_view, Term, TermView};
use crate::text::{snake_case, snake_case_spec};
use crate::value::{
    named_view,
    opt_str_view,
    names_view,
    pairs_view,
    value_view,
    values_view,
    Value,
    ValueView,
};

verus! {

/// The longest name, in characters, that the host accepts for an atom.
pub const MAX_ATOM_CHARS: usize = 255;

/// The atom with the given name.
pub open spec fn atom_spec(name: &str) -> TermView {
    TermView::Atom(name@)
}

/// The host's form of a text: the binary of its UTF-8 bytes.
pub open spec fn text_spec(s: Seq<char>) -> TermView {
    TermView::Binary(encode_utf8(s))
}

/// The host's form of an optional text: the binary, or the atom `nil`.
pub open spec fn opt_text_spec(s: Option<Seq<char>>) -> TermView {
    match s {
        Some(s) => text_spec(s),
        None => atom_spec("nil"),
    }
}

/// The host's form of a boolean: the atom `true` or the atom `false`.
pub open spec fn bool_spec(b: bool) -> TermView {
    if b {
        atom_spec("true")
    } else {
        atom_spec("false")
    }
}

/// A two-element tagged wrapper.
pub open spec fn tagged_spec(tag: &str, payload: TermView) -> TermView {
    TermView::Tuple(seq![atom_spec(tag), payload])
}

/// The number that stands for a sign in a big-integer triple.
pub open spec fn sign_number(sign: Sign) -> int {
    match sign {
        Sign::Minus => -1,
        Sign::NoSign => 0,
        Sign::Plus => 1,
    }
}

/// The form of an arbitrary-precision integer for a host that has no
/// integers of its own beyond a fixed width: the triple of the tag
/// `__bigint__`, the sign as `-1`, `0` or `1`, and the big-endian bytes of
/// the magnitude.
pub open spec fn bigint_triple_spec(n: int) -> TermView {
    TermView::Tuple(
        seq![
            atom_spec("__bigint__"),
            TermView::Integer(sign_number(sign_spec(n))),
            TermView::Binary(magnitude_spec(n)),
        ],
    )
}

/// The mapping that results from binding the first `n` of `pairs`, one after
/// the other, starting from the empty mapping.
pub open spec fn put_all(pairs: Seq<(TermView, TermView)>, n: nat) -> Seq<(TermView, TermView)> {
    assoc_put_all(pairs, n)
}

/// The placeholder that a set-like structure holds for each member.
pub open spec fn placeholder_spec() -> TermView {
    TermView::List(Seq::empty())
}

/// Each member paired with the placeholder.
pub open spec fn member_pairs(members: Seq<TermView>) -> Seq<(TermView, TermView)> {
    Seq::new(members.len(), |i: int| (members[i], placeholder_spec()))
}

/// The set-like structure with the given members: a mapping tagged
/// `Elixir.MapSet` whose `map` entry binds each member to the placeholder.
pub open spec fn mapset_spec(members: Seq<TermView>) -> TermView {
    TermView::Mapping(
        seq![
            (atom_spec("__struct__"), atom_spec("Elixir.MapSet")),
            (
                atom_spec("map"),
                TermView::Mapping(put_all(member_pairs(members), members.len())),
            ),
        ],
    )
}

/// The index of the last of `attrs` that has the given name, or `-1`.
pub open spec fn last_named(attrs: Seq<(Seq<char>, ValueView)>, name: Seq<char>) -> int
    decreases attrs.len(),
{
    if attrs.len() == 0 {
        -1
    } else if attrs.last().0 == name {
        attrs.len() - 1
    } else {
        last_named(attrs.drop_last(), name)
    }
}

/// The host's form of each of a sequence of values.
pub open spec fn encode_all(items: Seq<ValueView>) -> Seq<TermView>
    decreases items, 0nat,
{
    Seq::new(
        items.len(),
        |i: int|
            if 0 <= i < items.len() {
                encode_spec(items[i])
            } else {
                TermView::Resource
            },
    )
}

/// The host's form of each key and each value of a sequence of pairs.
pub open spec fn encode_pairs(pairs: Seq<(ValueView, ValueView)>) -> Seq<(TermView, TermView)>
    decreases pairs, 0nat,
{
    Seq::new(
        pairs.len(),
        |i: int|
            if 0 <= i < pairs.len() {
                (encode_spec(pairs[i].0), encode_spec(pairs[i].1))
            } else {
                (TermView::Resource, TermView::Resource)
            },
    )
}

/// The fields of a named tuple as the host gets them: one pair of name and
/// value for each position that has both.
pub open spec fn encode_fields(names: Seq<Seq<char>>, values: Seq<ValueView>) -> Seq<TermView>
    decreases values, 0nat,
{
    Seq::new(
        if names.len() <= values.len() {
            names.len()
        } else {
            values.len()
        },
        |i: int|
            if 0 <= i < values.len() {
                TermView::Tuple(seq![text_spec(names[i]), encode_spec(values[i])])
            } else {
                TermView::Resource
            },
    )
}

/// The fields of a data-class record as the host gets them: for each of the
/// first `n` declared names that has an attribute, in declared order, the
/// name bound to the attribute's value. Of two attributes with one name the
/// later counts.
pub open spec fn encode_attrs(
    names: Seq<Seq<char>>,
    attrs: Seq<(Seq<char>, ValueView)>,
    n: nat,
) -> Seq<(TermView, TermView)>
    decreases attrs, n,
{
    if n == 0 {
        Seq::empty()
    } else {
        let before = encode_attrs(names, attrs, (n - 1) as nat);
        let at = last_named(attrs, names[n - 1]);
        if 0 <= at < attrs.len() {
            map_put_spec(before, text_spec(names[n - 1]), encode_spec(attrs[at].1))
        } else {
            before
        }
    }
}

/// The host's form of a canonical value.
pub open spec fn encode_spec(v: ValueView) -> TermView
    decreases v, 1nat,
{
    match v {
        ValueView::NoneValue => atom_spec("nil"),
        ValueView::Bool(b) => bool_spec(b),
        ValueView::Int(i) => TermView::Integer(i),
        ValueView::BigInt(i) => TermView::Integer(i),
        ValueView::Float(bits) => TermView::Float(bits),
        ValueView::Str(s) => text_spec(s),
        ValueView::Bytes(b) => tagged_spec("bytes", TermView::Binary(b)),
        ValueView::Ellipsis => atom_spec("ellipsis"),
        ValueView::List(items) => TermView::List(encode_all(items)),
        ValueView::Tuple(items) => TermView::Tuple(encode_all(items)),
        ValueView::Dict(pairs) => TermView::Mapping(put_all(encode_pairs(pairs), pairs.len())),
        ValueView::SetValue(items) => mapset_spec(encode_all(items)),
        ValueView::FrozenSet(items) => mapset_spec(encode_all(items)),
        ValueView::Path(p) => tagged_spec("path", text_spec(p)),
        ValueView::NamedTuple { name, field_names, values } => TermView::Tuple(
            seq![
                atom_spec("named_tuple"),
                text_spec(name),
                TermView::List(encode_fields(field_names, values)),
            ],
        ),
        ValueView::Dataclass { name, field_names, attrs, frozen } => TermView::Mapping(
            seq![
                (atom_spec("__struct__"), atom_spec("Elixir.ExMonty.Dataclass")),
                (atom_spec("name"), text_spec(name)),
                (
                    atom_spec("fields"),
                    TermView::Mapping(encode_attrs(field_names, attrs, field_names.len())),
                ),
                (atom_spec("frozen"), bool_spec(frozen)),
            ],
        ),
        ValueView::Exception { exc_type, arg } => TermView::Mapping(
            seq![
                (atom_spec("__struct__"), atom_spec("Elixir.ExMonty.Exception")),
                (atom_spec("type"), TermView::Atom(snake_case_spec(exc_type))),
                (atom_spec("message"), opt_text_spec(arg)),
                (atom_spec("traceback"), TermView::List(Seq::empty())),
            ],
        ),
        ValueView::Type(name) => if snake_case_spec(name).len() <= MAX_ATOM_CHARS {
            TermView::Atom(snake_case_spec(name))
        } else {
            atom_spec("unknown_type")
        },
        ValueView::BuiltinFunction(_) => atom_spec("builtin_function"),
        ValueView::Repr(s) => tagged_spec("repr", text_spec(s)),
        ValueView::Cycle(_, description) => tagged_spec("cycle", text_spec(description)),
    }
}

/// The host's form of an optional text.
pub fn encode_opt_text(s: &Option<String>) -> (r: Term)
    ensures
        r@ == opt_text_spec(opt_str_view(*s)),
{
    match s {
        Some(text) => Term::text(text.as_str()),
        None => Term::atom("nil"),
    }
}

/// The host's form of a boolean.
fn encode_bool(b: bool) -> (r: Term)
    ensures
        r@ == bool_spec(b),
{
    if b {
        Term::atom("true")
    } else {
        Term::atom("false")
    }
}

/// Encodes an arbitrary-precision integer as a tagged triple of sign and
/// magnitude, for a host that has no integers of its own beyond a fixed
/// width.
pub fn encode_bigint_triple(n: &BigInt) -> (r: Term)
    ensures
        r@ == bigint_triple_spec(n@),
{
    let (sign, magnitude) = n.to_bytes_be();
    let number: i64 = match sign {
        Sign::Minus => -1,
        Sign::NoSign => 0,
        Sign::Plus => 1,
    };
    let mut elements: Vec<Term> = Vec::new();
    elements.push(Term::atom("__bigint__"));
    elements.push(Term::Integer(number));
    elements.push(Term::Binary(magnitude));
    assert(terms_view(elements@) =~= seq![
        atom_spec("__bigint__"),
        TermView::Integer(sign_number(sign_spec(n@))),
        TermView::Binary(magnitude_spec(n@)),
    ]);
    Term::Tuple(elements)
}

/// A two-element tagged wrapper.
fn tagged(tag: &str, payload: Term) -> (r: Term)
    ensures
        r@ == tagged_spec(tag, payload@),
{
    let mut elements: Vec<Term> = Vec::new();
    elements.push(Term::atom(tag));
    elements.push(payload);
    assert(terms_view(elements@) =~= seq![atom_spec(tag), payload@]);
    Term::Tuple(elements)
}

/// Builds the set-like structure that the host knows as a `MapSet`: each
/// member is bound to an empty placeholder, so a member that occurs twice is
/// held once.
pub fn encode_mapset(members: &Vec<Term>) -> (r: Term)
    ensures
        r@ == mapset_spec(terms_view(members@)),
{
    let mut inner: Vec<(Term, Term)> = Vec::new();
    let ghost pairs = member_pairs(terms_view(members@));
    let mut i: usize = 0;
    assert(entries_view(inner@) =~= put_all(pairs, 0));
    while i < members.len()
        invariant
            i <= members.len(),
            pairs == member_pairs(terms_view(members@)),
            entries_view(inner@) == put_all(pairs, i as nat),
        decreases members.len() - i,
    {
        map_put(&mut inner, members[i].duplicate(), Term::empty_list());
        i = i + 1;
    }
    let mut outer: Vec<(Term, Term)> = Vec::new();
    outer.push((Term::atom("__struct__"), Term::atom("Elixir.MapSet")));
    outer.push((Term::atom("map"), Term::Mapping(inner)));
    assert(entries_view(outer@) =~= seq![
        (atom_spec("__struct__"), atom_spec("Elixir.MapSet")),
        (atom_spec("map"), TermView::Mapping(put_all(pairs, members.len() as nat))),
    ]);
    Term::Mapping(outer)
}

/// The index of the last attribute with the given name.
fn find_last_named(attrs: &Vec<(String, Value)>, name: &String) -> (r: Option<usize>)
    ensures
        match r {
            Some(i) => i < attrs.len() && i == last_named(named_view(attrs@), name@),
            None => last_named(named_view(attrs@), name@) == -1,
        },
{
    let ghost all = named_view(attrs@);
    let mut j: usize = attrs.len();
    assert(all.take(j as int) =~= all);
    while j > 0
        invariant
            j <= attrs.len(),
            all == named_view(attrs@),
            last_named(all, name@) == last_named(all.take(j as int), name@),
        decreases j,
    {
        assert(all.take(j as int).drop_last() =~= all.take(j as int - 1));
        assert(all.take(j as int).last() == all[j as int - 1]);
        if attrs[j - 1].0 == *name {
            return Some(j - 1);
        }
        j = j - 1;
    }
    None
}

/// The host's form of each of a sequence of values.
pub fn encode_items(items: &Vec<Value>) -> (r: Vec<Term>)
    ensures
        terms_view(r@) == encode_all(values_view(items@)),
    decreases items,
{
    let mut out: Vec<Term> = Vec::new();
    let mut i: usize = 0;
    while i < items.len()
        invariant
            i <= items.len(),
            out.len() == i,
            forall|j: int| 0 <= j < i ==> term_view(#[trigger] out@[j]) == encode_spec(value_view(items@[j])),
        decreases items.len() - i,
    {
        let term = encode_monty_object(&items[i]);
        out.push(term);
        i = i + 1;
    }
    assert(terms_view(out@) =~= encode_all(values_view(items@)));
    out
}

/// The entries of the mapping that a dictionary becomes: each key bound to
/// its value, in the order of insertion. A key that occurs twice keeps its
/// first place and its last value.
pub fn encode_dict_entries(pairs: &Vec<(Value, Value)>) -> (r: Vec<(Term, Term)>)
    ensures
        entries_view(r@) == put_all(encode_pairs(pairs_view(pairs@)), pairs.len() as nat),
    decreases pairs,
{
    let mut out: Vec<(Term, Term)> = Vec::new();
    let ghost encoded = encode_pairs(pairs_view(pairs@));
    let mut i: usize = 0;
    assert(entries_view(out@) =~= put_all(encoded, 0));
    while i < pairs.len()
        invariant
            i <= pairs.len(),
            encoded == encode_pairs(pairs_view(pairs@)),
            entries_view(out@) == put_all(encoded, i as nat),
        decreases pairs.len() - i,
    {
        let key = encode_monty_object(&pairs[i].0);
        let value = encode_monty_object(&pairs[i].1);
        map_put(&mut out, key, value);
        i = i + 1;
    }
    out
}

/// The fields of a named tuple as the host gets them.
fn encode_tuple_fields(names: &Vec<String>, values: &Vec<Value>) -> (r: Vec<Term>)
    ensures
        terms_view(r@) == encode_fields(names_view(names@), values_view(values@)),
    decreases values,
{
    let count = if names.len() <= values.len() {
        names.len()
    } else {
        values.len()
    };
    let mut out: Vec<Term> = Vec::new();
    let mut i: usize = 0;
    while i < count
        invariant
            i <= count,
            count <= names.len(),
            count <= values.len(),
            out.len() == i,
            forall|j: int|
                0 <= j < i ==> term_view(#[trigger] out@[j]) == TermView::Tuple(
                    seq![text_spec(names@[j]@), encode_spec(value_view(values@[j]))],
                ),
        decreases count - i,
    {
        let mut pair: Vec<Term> = Vec::new();
        pair.push(Term::text(names[i].as_str()));
        pair.push(encode_monty_object(&values[i]));
        assert(terms_view(pair@) =~= seq![
            text_spec(names@[i as int]@),
            encode_spec(value_view(values@[i as int])),
        ]);
        out.push(Term::Tuple(pair));
        i = i + 1;
    }
    assert(terms_view(out@) =~= encode_fields(names_view(names@), values_view(values@)));
    out
}

/// The fields of a data-class record as the host gets them.
fn encode_record_fields(names: &Vec<String>, attrs: &Vec<(String, Value)>) -> (r: Vec<(Term, Term)>)
    ensures
        entries_view(r@) == encode_attrs(
            names_view(names@),
            named_view(attrs@),
            names.len() as nat,
        ),
    decreases attrs,
{
    let mut out: Vec<(Term, Term)> = Vec::new();
    let mut i: usize = 0;
    assert(entries_view(out@) =~= Seq::<(TermView, TermView)>::empty());
    while i < names.len()
        invariant
            i <= names.len(),
            entries_view(out@) == encode_attrs(names_view(names@), named_view(attrs@), i as nat),
        decreases names.len() - i,
    {
        match find_last_named(attrs, &names[i]) {
            Some(at) => {
                let value = encode_monty_object(&attrs[at].1);
                map_put(&mut out, Term::text(names[i].as_str()), value);
            },
            None => {},
        }
        i = i + 1;
    }
    out
}

/// Encodes a canonical value for the host. Every value has an encoding.
pub fn encode_monty_object(obj: &Value) -> (r: Term)
    ensures
        r@ == encode_spec(obj@),
    decreases obj,
{
    match obj {
        Value::NoneValue => Term::atom("nil"),
        Value::Bool(b) => encode_bool(*b),
        Value::Int(i) => Term::Integer(*i),
        Value::BigInt(b) => match b.to_i64() {
            Some(small) => Term::Integer(small),
            None => Term::BigInteger(b.duplicate()),
        },
        Value::Float(bits) => Term::Float(*bits),
        Value::Str(s) => Term::text(s.as_str()),
        Value::Bytes(b) => tagged("bytes", Term::Binary(copy_bytes(b))),
        Value::Ellipsis => Term::atom("ellipsis"),
        Value::List(items) => Term::List(encode_items(items)),
        Value::Tuple(items) => Term::Tuple(encode_items(items)),
        Value::Dict(pairs) => Term::Mapping(encode_dict_entries(pairs)),
        Value::SetValue(items) => {
            let members = encode_items(items);
            encode_mapset(&members)
        },
        Value::FrozenSet(items) => {
            let members = encode_items(items);
            encode_mapset(&members)
        },
        Value::Path(p) => tagged("path", Term::text(p.as_str())),
        Value::NamedTuple { name, field_names, values } => {
            let mut elements: Vec<Term> = Vec::new();
            elements.push(Term::atom("named_tuple"));
            elements.push(Term::text(name.as_str()));
            elements.push(Term::List(encode_tuple_fields(field_names, values)));
            assert(terms_view(elements@) =~= seq![
                atom_spec("named_tuple"),
                text_spec(name@),
                TermView::List(encode_fields(names_view(field_names@), values_view(values@))),
            ]);
            Term::Tuple(elements)
        },
        Value::Dataclass { name, field_names, attrs, frozen } => {
            let mut entries: Vec<(Term, Term)> = Vec::new();
            entries.push((Term::atom("__struct__"), Term::atom("Elixir.ExMonty.Dataclass")));
            entries.push((Term::atom("name"), Term::text(name.as_str())));
            entries.push(
                (Term::atom("fields"), Term::Mapping(encode_record_fields(field_names, attrs))),
            );
            entries.push((Term::atom("frozen"), encode_bool(*frozen)));
            assert(entries_view(entries@) =~= seq![
                (atom_spec("__struct__"), atom_spec("Elixir.ExMonty.Dataclass")),
                (atom_spec("name"), text_spec(name@)),
                (
                    atom_spec("fields"),
                    TermView::Mapping(
                        encode_attrs(
                            names_view(field_names@),
                            named_view(attrs@),
                            field_names@.len(),
                        ),
                    ),
                ),
                (atom_spec("frozen"), bool_spec(*frozen)),
            ]);
            Term::Mapping(entries)
        },
        Value::Exception { exc_type, arg } => {
            let mut entries: Vec<(Term, Term)> = Vec::new();
            entries.push((Term::atom("__struct__"), Term::atom("Elixir.ExMonty.Exception")));
            entries.push((Term::atom("type"), Term::Atom(snake_case(exc_type.as_str()))));
            entries.push((Term::atom("message"), encode_opt_text(arg)));
            entries.push((Term::atom("traceback"), Term::empty_list()));
            assert(entries_view(entries@) =~= seq![
                (atom_spec("__struct__"), atom_spec("Elixir.ExMonty.Exception")),
                (atom_spec("type"), TermView::Atom(snake_case_spec(exc_type@))),
                (atom_spec("message"), opt_text_spec(opt_str_view(*arg))),
                (atom_spec("traceback"), TermView::List(Seq::empty())),
            ]);
            Term::Mapping(entries)
        },
        Value::Type(name) => {
            let snake = snake_case(name.as_str());
            if snake.as_str().unicode_len() <= MAX_ATOM_CHARS {
                Term::Atom(snake)
            } else {
                Term::atom("unknown_type")
            }
        },
        Value::BuiltinFunction(_) => Term::atom("builtin_function"),
        Value::Repr(s) => tagged("repr", Term::text(s.as_str())),
        Value::Cycle(_, description) => tagged("cycle", Term::text(description.as_str())),
    }
}

} // verus!
