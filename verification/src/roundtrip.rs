//! Decoding undoes encoding on every value that has a faithful host form.

use vstd::prelude::*;
use vstd::utf8::{encode_utf8, encode_utf8_decode_utf8, encode_utf8_valid_utf8};
use crate::assoc::{
    assoc_get,
    assoc_keys,
    distinct_keys,
    lemma_assoc_index_of_is,
    lemma_assoc_put_all_distinct,
};
use crate::bigint::{
    lemma_canonical_value_zero,
    lemma_sign_magnitude,
    magnitude_spec,
    sign_spec,
};
use crate::decode::{
    decode_all,
    decode_atom_spec,
    decode_binary_spec,
    decode_dataclass_spec,
    decode_exception_spec,
    decode_field_list,
    decode_field_spec,
    decode_keys,
    decode_mapping_spec,
    decode_mapset_spec,
    decode_monty_object,
    decode_named_entries,
    decode_named_tuple_spec,
    decode_pairs,
    decode_spec,
    decode_tuple_spec,
    flag_of_term,
    message_of_term,
    name_of_term,
    named_values,
    record_name,
    sign_of_spec,
    text_of_term,
    DecodeError,
};
use crate::encode::{
    atom_spec,
    bigint_triple_spec,
    bool_spec,
    encode_all,
    encode_attrs,
    encode_fields,
    encode_monty_object,
    encode_pairs,
    encode_spec,
    last_named,
    mapset_spec,
    member_pairs,
    opt_text_spec,
    put_all,
    sign_number,
    tagged_spec,
    text_spec,
};
use crate::interactive::{parse_exc_type, parse_exc_type_spec};
use crate::term::TermView;
use crate::text::{
    normalize_namedtuple_type_name,
    normalize_type_name_spec,
    snake_case,
    snake_case_spec,
};
use crate::value::{named_view, names_view, pairs_view, values_view, Value, ValueView};

verus! {

/// Whether no value occurs twice.
pub open spec fn distinct_values(items: Seq<ValueView>) -> bool {
    forall|i: int, j: int| 0 <= i < j < items.len() ==> items[i] != items[j]
}

/// Whether a value has a faithful host form, one that decoding brings back
/// to the same value.
///
/// Fixed-width integers are within 64 bits and arbitrary-precision integers
/// outside (the host has one kind of integer). Dictionary keys and set
/// members are pairwise distinct. A named tuple has one value for each field
/// and a type name in canonical form. A data-class record has one attribute
/// for each declared field, in declared order, under distinct names. An
/// exception has a type whose name is found again from its word-separated
/// form. Frozen sets, type and builtin-function references and cycle
/// markers have no faithful form.
pub open spec fn faithful(v: ValueView) -> bool
    decreases v, 1nat,
{
    match v {
        ValueView::NoneValue => true,
        ValueView::Bool(_) => true,
        ValueView::Int(i) => i64::MIN <= i <= i64::MAX,
        ValueView::BigInt(i) => i < i64::MIN || i > i64::MAX,
        ValueView::Float(_) => true,
        ValueView::Str(_) => true,
        ValueView::Bytes(_) => true,
        ValueView::Ellipsis => true,
        ValueView::List(items) => all_faithful_spec(items),
        ValueView::Tuple(items) => all_faithful_spec(items),
        ValueView::Dict(pairs) => distinct_keys(pairs) && all_pairs_faithful_spec(pairs),
        ValueView::SetValue(items) => distinct_values(items) && all_faithful_spec(items),
        ValueView::FrozenSet(_) => false,
        ValueView::Path(_) => true,
        ValueView::NamedTuple { name, field_names, values } => {
            &&& normalize_type_name_spec(name) == name
            &&& field_names.len() == values.len()
            &&& all_faithful_spec(values)
        },
        ValueView::Dataclass { name, field_names, attrs, frozen } => {
            &&& field_names == assoc_keys(attrs)
            &&& distinct_keys(attrs)
            &&& all_attrs_faithful_spec(attrs)
        },
        ValueView::Exception { exc_type, arg } => parse_exc_type_spec(snake_case_spec(exc_type))
            == exc_type,
        ValueView::Type(_) => false,
        ValueView::BuiltinFunction(_) => false,
        ValueView::Repr(_) => true,
        ValueView::Cycle(_, _) => false,
    }
}

/// Whether each of the values has a faithful host form.
pub open spec fn all_faithful_spec(items: Seq<ValueView>) -> bool
    decreases items, 0nat,
{
    forall|i: int| 0 <= i < items.len() ==> faithful(#[trigger] items[i])
}

/// Whether each key and each value has a faithful host form.
pub open spec fn all_pairs_faithful_spec(pairs: Seq<(ValueView, ValueView)>) -> bool
    decreases pairs, 0nat,
{
    forall|i: int|
        0 <= i < pairs.len() ==> faithful((#[trigger] pairs[i]).0) && faithful(pairs[i].1)
}

/// Whether each attribute has a faithful host form.
pub open spec fn all_attrs_faithful_spec(attrs: Seq<(Seq<char>, ValueView)>) -> bool
    decreases attrs, 0nat,
{
    forall|i: int| 0 <= i < attrs.len() ==> faithful((#[trigger] attrs[i]).1)
}

/// The atoms that stand for a value of their own.
pub open spec fn singleton_name(name: Seq<char>) -> bool {
    name == "nil"@ || name == "true"@ || name == "false"@ || name == "ellipsis"@
}

/// The atoms that mark a wrapper or a key of one.
pub open spec fn reserved_name(name: Seq<char>) -> bool {
    ||| name == "named_tuple"@
    ||| name == "bytes"@
    ||| name == "path"@
    ||| name == "repr"@
    ||| name == "__bigint__"@
    ||| name == "__struct__"@
}

/// No atom that stands for a value marks a wrapper.
proof fn lemma_singleton_not_reserved(name: Seq<char>)
    requires
        singleton_name(name),
    ensures
        !reserved_name(name),
{
    reveal_strlit("nil");
    reveal_strlit("true");
    reveal_strlit("false");
    reveal_strlit("ellipsis");
    reveal_strlit("named_tuple");
    reveal_strlit("bytes");
    reveal_strlit("path");
    reveal_strlit("repr");
    reveal_strlit("__bigint__");
    reveal_strlit("__struct__");
    assert("nil"@.len() == 3);
    assert("true"@.len() == 4 && "true"@[0] == 't');
    assert("false"@.len() == 5 && "false"@[0] == 'f');
    assert("ellipsis"@.len() == 8);
    assert("named_tuple"@.len() == 11);
    assert("bytes"@.len() == 5 && "bytes"@[0] == 'b');
    assert("path"@.len() == 4 && "path"@[0] == 'p');
    assert("repr"@.len() == 4 && "repr"@[0] == 'r');
    assert("__bigint__"@.len() == 10);
    assert("__struct__"@.len() == 10);
}

/// The four singleton atoms decode to the four singleton values.
proof fn lemma_decode_singletons()
    ensures
        decode_atom_spec("nil"@) == ValueView::NoneValue,
        decode_atom_spec("true"@) == ValueView::Bool(true),
        decode_atom_spec("false"@) == ValueView::Bool(false),
        decode_atom_spec("ellipsis"@) == ValueView::Ellipsis,
{
    reveal_strlit("nil");
    reveal_strlit("true");
    reveal_strlit("false");
    reveal_strlit("ellipsis");
    assert("nil"@.len() == 3);
    assert("true"@.len() == 4);
    assert("false"@.len() == 5);
    assert("ellipsis"@.len() == 8);
}

/// A text comes back from its host form.
proof fn lemma_text_roundtrip(s: Seq<char>)
    ensures
        text_of_term(text_spec(s)) == Some(s),
        name_of_term(text_spec(s)) == Some(s),
        decode_binary_spec(encode_utf8(s)) == ValueView::Str(s),
{
    encode_utf8_valid_utf8(s);
    encode_utf8_decode_utf8(s);
}

/// Two texts with one host form are one text.
proof fn lemma_text_injective(a: Seq<char>, b: Seq<char>)
    requires
        text_spec(a) == text_spec(b),
    ensures
        a == b,
{
    lemma_text_roundtrip(a);
    lemma_text_roundtrip(b);
}

/// Where a faithful value encodes to an atom, the atom is a singleton.
proof fn lemma_encoded_atom(v: ValueView)
    requires
        faithful(v),
    ensures
        encode_spec(v) matches TermView::Atom(name) ==> singleton_name(name),
{
}

/// The keys of the wrappers differ from one another.
proof fn lemma_keys_differ()
    ensures
        "__struct__"@ != "map"@,
        "__struct__"@ != "name"@,
        "__struct__"@ != "fields"@,
        "__struct__"@ != "frozen"@,
        "name"@ != "fields"@,
        "name"@ != "frozen"@,
        "fields"@ != "frozen"@,
        "Elixir.MapSet"@ != "Elixir.ExMonty.Dataclass"@,
        "true"@ != "false"@,
{
    reveal_strlit("__struct__");
    reveal_strlit("map");
    reveal_strlit("name");
    reveal_strlit("fields");
    reveal_strlit("frozen");
    reveal_strlit("Elixir.MapSet");
    reveal_strlit("Elixir.ExMonty.Dataclass");
    reveal_strlit("true");
    reveal_strlit("false");
    assert("__struct__"@.len() == 10);
    assert("map"@.len() == 3);
    assert("name"@.len() == 4);
    assert("fields"@.len() == 6 && "fields"@[1] == 'i');
    assert("frozen"@.len() == 6 && "frozen"@[1] == 'r');
    assert("Elixir.MapSet"@.len() == 13);
    assert("Elixir.ExMonty.Dataclass"@.len() == 24);
    assert("true"@.len() == 4);
    assert("false"@.len() == 5);
}

/// A list of faithful values comes back from its host form, given that each
/// of the values does.
proof fn lemma_decode_all(items: Seq<ValueView>)
    requires
        forall|i: int|
            0 <= i < items.len() ==> decode_spec(encode_spec(#[trigger] items[i])) == Some(items[i]),
    ensures
        decode_all(encode_all(items)) == Some(items),
{
    let encoded = encode_all(items);
    assert forall|i: int| 0 <= i < encoded.len() implies decode_spec(#[trigger] encoded[i]) is Some by {
        assert(encoded[i] == encode_spec(items[i]));
    }
    assert(decode_all(encoded)->0 =~= items) by {
        assert forall|i: int| 0 <= i < items.len() implies decode_all(encoded)->0[i] == items[i] by {
            assert(encoded[i] == encode_spec(items[i]));
        }
    }
}

/// Values that come back from their host forms have distinct host forms
/// where they are distinct.
proof fn lemma_encoded_distinct(items: Seq<ValueView>)
    requires
        distinct_values(items),
        forall|i: int|
            0 <= i < items.len() ==> decode_spec(encode_spec(#[trigger] items[i])) == Some(items[i]),
    ensures
        distinct_keys(member_pairs(encode_all(items))),
{
    let pairs = member_pairs(encode_all(items));
    assert forall|i: int, j: int| 0 <= i < j < pairs.len() implies (#[trigger] pairs[i]).0 != (
    #[trigger] pairs[j]).0 by {
        assert(pairs[i].0 == encode_spec(items[i]));
        assert(pairs[j].0 == encode_spec(items[j]));
        assert(items[i] != items[j]);
    }
}

/// A tuple of faithful values comes back from its host form.
proof fn lemma_tuple(items: Seq<ValueView>)
    requires
        forall|i: int| 0 <= i < items.len() ==> faithful(#[trigger] items[i]),
        forall|i: int|
            0 <= i < items.len() ==> decode_spec(encode_spec(#[trigger] items[i])) == Some(items[i]),
    ensures
        decode_tuple_spec(encode_all(items)) == Some(ValueView::Tuple(items)),
{
    let encoded = encode_all(items);
    lemma_decode_all(items);
    if items.len() > 0 {
        assert(faithful(items[0]));
        assert(encoded[0] == encode_spec(items[0]));
        lemma_encoded_atom(items[0]);
        if encoded[0] is Atom {
            lemma_singleton_not_reserved(encoded[0]->Atom_0);
        }
    }
}

/// A dictionary with distinct faithful keys comes back from its host form.
proof fn lemma_dict(pairs: Seq<(ValueView, ValueView)>)
    requires
        distinct_keys(pairs),
        forall|i: int|
            0 <= i < pairs.len() ==> faithful((#[trigger] pairs[i]).0) && faithful(pairs[i].1),
        forall|i: int|
            0 <= i < pairs.len() ==> decode_spec(encode_spec((#[trigger] pairs[i]).0)) == Some(
                pairs[i].0,
            ) && decode_spec(encode_spec(pairs[i].1)) == Some(pairs[i].1),
    ensures
        decode_mapping_spec(put_all(encode_pairs(pairs), pairs.len())) == Some(
            ValueView::Dict(pairs),
        ),
{
    let encoded = encode_pairs(pairs);
    assert forall|i: int, j: int| 0 <= i < j < encoded.len() implies (#[trigger] encoded[i]).0 != (
    #[trigger] encoded[j]).0 by {
        assert(encoded[i].0 == encode_spec(pairs[i].0));
        assert(encoded[j].0 == encode_spec(pairs[j].0));
        assert(pairs[i].0 != pairs[j].0);
    }
    lemma_assoc_put_all_distinct(encoded, encoded.len());
    assert(encoded.take(encoded.len() as int) =~= encoded);
    let key = atom_spec("__struct__");
    assert forall|j: int| 0 <= j < encoded.len() implies (#[trigger] encoded[j]).0 != key by {
        assert(encoded[j].0 == encode_spec(pairs[j].0));
        lemma_encoded_atom(pairs[j].0);
        if encoded[j].0 is Atom {
            lemma_singleton_not_reserved(encoded[j].0->Atom_0);
        }
    }
    lemma_assoc_index_of_is(encoded, key, encoded.len() as int);
    assert(assoc_get(encoded, key) is None);
    assert forall|i: int| 0 <= i < encoded.len() implies decode_spec((#[trigger] encoded[i]).0) is Some
        && decode_spec(encoded[i].1) is Some by {
        assert(encoded[i].0 == encode_spec(pairs[i].0));
        assert(encoded[i].1 == encode_spec(pairs[i].1));
    }
    assert(decode_pairs(encoded)->0 =~= pairs) by {
        assert forall|i: int| 0 <= i < pairs.len() implies decode_pairs(encoded)->0[i] == pairs[i] by {
            assert(encoded[i].0 == encode_spec(pairs[i].0));
            assert(encoded[i].1 == encode_spec(pairs[i].1));
        }
    }
}

/// A set of distinct faithful values comes back from its host form.
proof fn lemma_set(items: Seq<ValueView>)
    requires
        distinct_values(items),
        forall|i: int|
            0 <= i < items.len() ==> decode_spec(encode_spec(#[trigger] items[i])) == Some(items[i]),
    ensures
        decode_spec(mapset_spec(encode_all(items))) == Some(ValueView::SetValue(items)),
{
    lemma_keys_differ();
    let members = encode_all(items);
    let pairs = member_pairs(members);
    let inner = put_all(pairs, members.len());
    let entries = seq![
        (atom_spec("__struct__"), atom_spec("Elixir.MapSet")),
        (atom_spec("map"), TermView::Mapping(inner)),
    ];
    assert(mapset_spec(members) == TermView::Mapping(entries));
    lemma_encoded_distinct(items);
    lemma_assoc_put_all_distinct(pairs, pairs.len());
    assert(pairs.take(pairs.len() as int) =~= pairs);
    assert(inner == pairs);
    lemma_assoc_index_of_is(entries, atom_spec("__struct__"), 0);
    lemma_assoc_index_of_is(entries, atom_spec("map"), 1);
    assert forall|i: int| 0 <= i < pairs.len() implies decode_spec((#[trigger] pairs[i]).0) is Some by {
        assert(pairs[i].0 == encode_spec(items[i]));
    }
    assert(decode_keys(pairs)->0 =~= items) by {
        assert forall|i: int| 0 <= i < items.len() implies decode_keys(pairs)->0[i] == items[i] by {
            assert(pairs[i].0 == encode_spec(items[i]));
        }
    }
    assert(decode_mapset_spec(entries) == Some(ValueView::SetValue(items)));
    assert(decode_mapping_spec(entries) == Some(ValueView::SetValue(items)));
}

/// A named tuple with a value for each field and a canonical type name
/// comes back from its host form.
proof fn lemma_named_tuple(name: Seq<char>, field_names: Seq<Seq<char>>, values: Seq<ValueView>)
    requires
        normalize_type_name_spec(name) == name,
        field_names.len() == values.len(),
        forall|i: int|
            0 <= i < values.len() ==> decode_spec(encode_spec(#[trigger] values[i])) == Some(
                values[i],
            ),
    ensures
        decode_named_tuple_spec(text_spec(name), TermView::List(encode_fields(field_names, values)))
            == Some(ValueView::NamedTuple { name, field_names, values }),
{
    lemma_text_roundtrip(name);
    let fields = encode_fields(field_names, values);
    assert forall|i: int| 0 <= i < fields.len() implies decode_field_spec(#[trigger] fields[i]) == Some(
        (field_names[i], values[i]),
    ) by {
        lemma_text_roundtrip(field_names[i]);
        let elements = seq![text_spec(field_names[i]), encode_spec(values[i])];
        assert(fields[i] == TermView::Tuple(elements));
        assert(elements.len() == 2);
        assert(elements[0] == text_spec(field_names[i]));
        assert(elements[1] == encode_spec(values[i]));
    }
    let decoded = decode_field_list(fields)->0;
    assert(decode_field_list(fields) is Some);
    assert(assoc_keys(decoded) =~= field_names);
    assert(named_values(decoded) =~= values);
}

/// The fields of a data-class record whose attributes are its declared
/// fields, under distinct names: each name bound to its value, in order.
proof fn lemma_encode_attrs(attrs: Seq<(Seq<char>, ValueView)>, n: nat)
    requires
        distinct_keys(attrs),
        n <= attrs.len(),
    ensures
        encode_attrs(assoc_keys(attrs), attrs, n) == Seq::new(
            n,
            |i: int| (text_spec(attrs[i].0), encode_spec(attrs[i].1)),
        ),
    decreases n,
{
    let names = assoc_keys(attrs);
    let expected = Seq::new(n, |i: int| (text_spec(attrs[i].0), encode_spec(attrs[i].1)));
    if n == 0 {
        assert(encode_attrs(names, attrs, n) =~= expected);
    } else {
        lemma_encode_attrs(attrs, (n - 1) as nat);
        let before = encode_attrs(names, attrs, (n - 1) as nat);
        lemma_last_named(attrs, attrs.len() as int, n - 1);
        assert(attrs.take(attrs.len() as int) =~= attrs);
        let key = text_spec(names[n - 1]);
        assert forall|j: int| 0 <= j < before.len() implies (#[trigger] before[j]).0 != key by {
            if before[j].0 == key {
                lemma_text_injective(attrs[j].0, attrs[n - 1].0);
                assert(attrs[j].0 != attrs[n - 1].0);
            }
        }
        lemma_assoc_index_of_is(before, key, before.len() as int);
        assert(encode_attrs(names, attrs, n) =~= expected);
    }
}

/// Among attributes with distinct names, the last one with the name of the
/// attribute at `i` is that attribute.
proof fn lemma_last_named(attrs: Seq<(Seq<char>, ValueView)>, upto: int, i: int)
    requires
        distinct_keys(attrs),
        0 <= i < upto <= attrs.len(),
    ensures
        last_named(attrs.take(upto), attrs[i].0) == i,
    decreases upto,
{
    let prefix = attrs.take(upto);
    assert(prefix.last() == attrs[upto - 1]);
    if upto - 1 == i {
    } else {
        assert(attrs[i].0 != attrs[upto - 1].0);
        assert(prefix.drop_last() =~= attrs.take(upto - 1));
        lemma_last_named(attrs, upto - 1, i);
    }
}

/// A data-class record whose attributes are its declared fields, under
/// distinct names, comes back from its host form.
proof fn lemma_dataclass(
    name: Seq<char>,
    attrs: Seq<(Seq<char>, ValueView)>,
    frozen: bool,
)
    requires
        distinct_keys(attrs),
        forall|i: int|
            0 <= i < attrs.len() ==> decode_spec(encode_spec((#[trigger] attrs[i]).1)) == Some(
                attrs[i].1,
            ),
    ensures
        decode_spec(
            encode_spec(
                ValueView::Dataclass { name, field_names: assoc_keys(attrs), attrs, frozen },
            ),
        ) == Some(ValueView::Dataclass { name, field_names: assoc_keys(attrs), attrs, frozen }),
{
    lemma_keys_differ();
    lemma_text_roundtrip(name);
    let names = assoc_keys(attrs);
    let inner = encode_attrs(names, attrs, names.len());
    lemma_encode_attrs(attrs, attrs.len());
    let entries = seq![
        (atom_spec("__struct__"), atom_spec("Elixir.ExMonty.Dataclass")),
        (atom_spec("name"), text_spec(name)),
        (atom_spec("fields"), TermView::Mapping(inner)),
        (atom_spec("frozen"), bool_spec(frozen)),
    ];
    assert(encode_spec(ValueView::Dataclass { name, field_names: names, attrs, frozen })
        == TermView::Mapping(entries));
    lemma_assoc_index_of_is(entries, atom_spec("__struct__"), 0);
    lemma_assoc_index_of_is(entries, atom_spec("name"), 1);
    lemma_assoc_index_of_is(entries, atom_spec("fields"), 2);
    lemma_assoc_index_of_is(entries, atom_spec("frozen"), 3);
    assert(record_name(entries, "name") == Some(name));
    assert(flag_of_term(assoc_get(entries, atom_spec("frozen"))) == Some(frozen));
    assert forall|i: int| 0 <= i < inner.len() implies name_of_term((#[trigger] inner[i]).0) is Some
        && decode_spec(inner[i].1) is Some by {
        lemma_text_roundtrip(attrs[i].0);
    }
    let decoded = decode_named_entries(inner)->0;
    assert(decoded =~= attrs) by {
        assert forall|i: int| 0 <= i < attrs.len() implies decoded[i] == attrs[i] by {
            lemma_text_roundtrip(attrs[i].0);
        }
    }
    lemma_assoc_put_all_distinct(attrs, attrs.len());
    assert(attrs.take(attrs.len() as int) =~= attrs);
    assert(decode_dataclass_spec(entries) == Some(
        ValueView::Dataclass { name, field_names: names, attrs, frozen },
    ));
    assert(decode_mapping_spec(entries) == decode_dataclass_spec(entries));
}

/// The keys and the tag of an exception record differ from one another and
/// from the tags of the other records.
proof fn lemma_exception_keys_differ()
    ensures
        "__struct__"@ != "type"@,
        "__struct__"@ != "message"@,
        "type"@ != "message"@,
        "Elixir.ExMonty.Exception"@ != "Elixir.MapSet"@,
        "Elixir.ExMonty.Exception"@ != "Elixir.ExMonty.Dataclass"@,
{
    reveal_strlit("__struct__");
    reveal_strlit("type");
    reveal_strlit("message");
    reveal_strlit("Elixir.MapSet");
    reveal_strlit("Elixir.ExMonty.Dataclass");
    reveal_strlit("Elixir.ExMonty.Exception");
    assert("__struct__"@.len() == 10);
    assert("type"@.len() == 4);
    assert("message"@.len() == 7);
    assert("Elixir.MapSet"@.len() == 13);
    assert("Elixir.ExMonty.Dataclass"@.len() == 24 && "Elixir.ExMonty.Dataclass"@[15] == 'D');
    assert("Elixir.ExMonty.Exception"@.len() == 24 && "Elixir.ExMonty.Exception"@[15] == 'E');
}

/// An exception whose type is found again from its word-separated form
/// comes back from its host form.
proof fn lemma_exception(exc_type: Seq<char>, arg: Option<Seq<char>>)
    requires
        parse_exc_type_spec(snake_case_spec(exc_type)) == exc_type,
    ensures
        decode_spec(encode_spec(ValueView::Exception { exc_type, arg })) == Some(
            ValueView::Exception { exc_type, arg },
        ),
{
    lemma_exception_keys_differ();
    let entries = seq![
        (atom_spec("__struct__"), atom_spec("Elixir.ExMonty.Exception")),
        (atom_spec("type"), TermView::Atom(snake_case_spec(exc_type))),
        (atom_spec("message"), opt_text_spec(arg)),
        (atom_spec("traceback"), TermView::List(Seq::empty())),
    ];
    assert(encode_spec(ValueView::Exception { exc_type, arg }) == TermView::Mapping(entries));
    lemma_assoc_index_of_is(entries, atom_spec("__struct__"), 0);
    lemma_assoc_index_of_is(entries, atom_spec("type"), 1);
    lemma_assoc_index_of_is(entries, atom_spec("message"), 2);
    match arg {
        Some(text) => {
            lemma_text_roundtrip(text);
        },
        None => {},
    }
    assert(message_of_term(opt_text_spec(arg)) == Some(arg));
    assert(decode_exception_spec(entries) == Some(ValueView::Exception { exc_type, arg }));
    assert(decode_mapping_spec(entries) == decode_exception_spec(entries));
}

/// Decoding undoes encoding: a value that has a faithful host form comes
/// back from it unchanged.
pub proof fn lemma_decode_encode(v: ValueView)
    requires
        faithful(v),
    ensures
        decode_spec(encode_spec(v)) == Some(v),
    decreases v,
{
    match v {
        ValueView::NoneValue => {
            lemma_decode_singletons();
        },
        ValueView::Bool(b) => {
            lemma_decode_singletons();
        },
        ValueView::Int(i) => {},
        ValueView::BigInt(i) => {},
        ValueView::Float(_) => {},
        ValueView::Str(s) => {
            lemma_text_roundtrip(s);
        },
        ValueView::Bytes(b) => {
            lemma_tagged("bytes", TermView::Binary(b));
        },
        ValueView::Ellipsis => {
            lemma_decode_singletons();
        },
        ValueView::List(items) => {
            assert forall|i: int| 0 <= i < items.len() implies decode_spec(
                encode_spec(#[trigger] items[i]),
            ) == Some(items[i]) by {
                lemma_decode_encode(items[i]);
            }
            lemma_decode_all(items);
        },
        ValueView::Tuple(items) => {
            assert forall|i: int| 0 <= i < items.len() implies decode_spec(
                encode_spec(#[trigger] items[i]),
            ) == Some(items[i]) by {
                lemma_decode_encode(items[i]);
            }
            lemma_tuple(items);
        },
        ValueView::Dict(pairs) => {
            assert forall|i: int| 0 <= i < pairs.len() implies decode_spec(
                encode_spec((#[trigger] pairs[i]).0),
            ) == Some(pairs[i].0) && decode_spec(encode_spec(pairs[i].1)) == Some(pairs[i].1) by {
                lemma_decode_encode(pairs[i].0);
                lemma_decode_encode(pairs[i].1);
            }
            lemma_dict(pairs);
        },
        ValueView::SetValue(items) => {
            assert forall|i: int| 0 <= i < items.len() implies decode_spec(
                encode_spec(#[trigger] items[i]),
            ) == Some(items[i]) by {
                lemma_decode_encode(items[i]);
            }
            lemma_set(items);
        },
        ValueView::FrozenSet(_) => {},
        ValueView::Path(p) => {
            lemma_text_roundtrip(p);
            lemma_tagged("path", text_spec(p));
        },
        ValueView::NamedTuple { name, field_names, values } => {
            assert forall|i: int| 0 <= i < values.len() implies decode_spec(
                encode_spec(#[trigger] values[i]),
            ) == Some(values[i]) by {
                lemma_decode_encode(values[i]);
            }
            lemma_named_tuple(name, field_names, values);
            let elements = seq![
                atom_spec("named_tuple"),
                text_spec(name),
                TermView::List(encode_fields(field_names, values)),
            ];
            assert(encode_spec(v) == TermView::Tuple(elements));
            assert(elements.len() == 3 && elements[0] == atom_spec("named_tuple"));
            assert(elements[1] == text_spec(name));
            assert(elements[2] == TermView::List(encode_fields(field_names, values)));
        },
        ValueView::Dataclass { name, field_names, attrs, frozen } => {
            assert forall|i: int| 0 <= i < attrs.len() implies decode_spec(
                encode_spec((#[trigger] attrs[i]).1),
            ) == Some(attrs[i].1) by {
                lemma_decode_encode(attrs[i].1);
            }
            lemma_dataclass(name, attrs, frozen);
        },
        ValueView::Exception { exc_type, arg } => {
            lemma_exception(exc_type, arg);
        },
        ValueView::Type(_) => {},
        ValueView::BuiltinFunction(_) => {},
        ValueView::Repr(s) => {
            lemma_text_roundtrip(s);
            lemma_tagged("repr", text_spec(s));
        },
        ValueView::Cycle(_, _) => {},
    }
}

/// How a two-element wrapper with one of the tags `bytes`, `path` and
/// `repr` decodes.
proof fn lemma_tagged(tag: &str, payload: TermView)
    requires
        tag@ == "bytes"@ || tag@ == "path"@ || tag@ == "repr"@,
    ensures
        decode_spec(tagged_spec(tag, payload)) == decode_tuple_spec(seq![atom_spec(tag), payload]),
        tag@ == "bytes"@ ==> (payload matches TermView::Binary(b) ==> decode_tuple_spec(
            seq![atom_spec(tag), payload],
        ) == Some(ValueView::Bytes(b))),
        tag@ == "path"@ ==> decode_tuple_spec(seq![atom_spec(tag), payload]) == (match text_of_term(
            payload,
        ) {
            Some(p) => Some(ValueView::Path(p)),
            None => None,
        }),
        tag@ == "repr"@ ==> decode_tuple_spec(seq![atom_spec(tag), payload]) == (match text_of_term(
            payload,
        ) {
            Some(p) => Some(ValueView::Repr(p)),
            None => None,
        }),
{
    reveal_strlit("bytes");
    reveal_strlit("path");
    reveal_strlit("repr");
    assert("bytes"@.len() == 5);
    assert("path"@.len() == 4 && "path"@[0] == 'p');
    assert("repr"@.len() == 4 && "repr"@[0] == 'r');
    let elements = seq![atom_spec(tag), payload];
    assert(elements.len() == 2);
    assert(elements[0] == atom_spec(tag));
    assert(elements[1] == payload);
}

/// A frozen set comes back from its host form as the set of the same
/// members: the host has one kind of set.
pub proof fn lemma_decode_encode_frozen_set(items: Seq<ValueView>)
    requires
        faithful(ValueView::SetValue(items)),
    ensures
        decode_spec(encode_spec(ValueView::FrozenSet(items))) == Some(ValueView::SetValue(items)),
{
    lemma_decode_encode(ValueView::SetValue(items));
}

/// An arbitrary-precision integer comes back from its tagged triple, of
/// whatever size it is.
pub proof fn lemma_decode_bigint_triple(n: int)
    ensures
        decode_spec(bigint_triple_spec(n)) == Some(ValueView::BigInt(n)),
{
    reveal_strlit("__bigint__");
    reveal_strlit("named_tuple");
    assert("__bigint__"@.len() == 10);
    assert("named_tuple"@.len() == 11);
    lemma_sign_magnitude(n);
    let elements = seq![
        atom_spec("__bigint__"),
        TermView::Integer(sign_number(sign_spec(n))),
        TermView::Binary(magnitude_spec(n)),
    ];
    assert(elements.len() == 3);
    assert(elements[0] == atom_spec("__bigint__"));
    assert(elements[1] == TermView::Integer(sign_number(sign_spec(n))));
    assert(elements[2] == TermView::Binary(magnitude_spec(n)));
    assert(sign_of_spec(sign_number(sign_spec(n))) == Some(sign_spec(n)));
    lemma_canonical_value_zero(sign_spec(n), magnitude_spec(n));
}

/// Whether `order` lists positions of a sequence of the given length, each
/// at most once.
pub open spec fn is_order(order: Seq<int>, len: nat) -> bool {
    &&& forall|i: int| 0 <= i < order.len() ==> 0 <= #[trigger] order[i] < len
    &&& forall|i: int, j: int| 0 <= i < j < order.len() ==> order[i] != order[j]
}

/// The elements of a sequence at the positions that `order` lists, in that
/// order.
pub open spec fn in_order<A>(items: Seq<A>, order: Seq<int>) -> Seq<A> {
    Seq::new(order.len(), |i: int| items[order[i]])
}

/// A set comes back in whatever order the host walks it. Where the host
/// holds the members of a set of faithful values in the order that `order`
/// gives, the decoded set holds the members in that order: the same
/// members, whatever the order.
pub proof fn lemma_set_in_host_order(items: Seq<ValueView>, order: Seq<int>)
    requires
        faithful(ValueView::SetValue(items)),
        is_order(order, items.len()),
    ensures
        decode_spec(
            TermView::Mapping(
                seq![
                    (atom_spec("__struct__"), atom_spec("Elixir.MapSet")),
                    (
                        atom_spec("map"),
                        TermView::Mapping(member_pairs(in_order(encode_all(items), order))),
                    ),
                ],
            ),
        ) == Some(ValueView::SetValue(in_order(items, order))),
{
    lemma_keys_differ();
    let members = in_order(encode_all(items), order);
    let pairs = member_pairs(members);
    let entries = seq![
        (atom_spec("__struct__"), atom_spec("Elixir.MapSet")),
        (atom_spec("map"), TermView::Mapping(pairs)),
    ];
    lemma_assoc_index_of_is(entries, atom_spec("__struct__"), 0);
    lemma_assoc_index_of_is(entries, atom_spec("map"), 1);
    assert forall|i: int| 0 <= i < pairs.len() implies decode_spec((#[trigger] pairs[i]).0) == Some(
        items[order[i]],
    ) by {
        assert(pairs[i].0 == encode_spec(items[order[i]]));
        assert(faithful(items[order[i]]));
        lemma_decode_encode(items[order[i]]);
    }
    assert(decode_keys(pairs)->0 =~= in_order(items, order));
    assert(decode_mapset_spec(entries) == Some(ValueView::SetValue(in_order(items, order))));
    assert(decode_mapping_spec(entries) == decode_mapset_spec(entries));
}

/// A dictionary comes back in whatever order the host walks it. Where the
/// host holds the entries of a dictionary of faithful values in the order
/// that `order` gives, the decoded dictionary holds the pairs in that
/// order.
pub proof fn lemma_dict_in_host_order(pairs: Seq<(ValueView, ValueView)>, order: Seq<int>)
    requires
        faithful(ValueView::Dict(pairs)),
        is_order(order, pairs.len()),
    ensures
        decode_spec(TermView::Mapping(in_order(encode_pairs(pairs), order))) == Some(
            ValueView::Dict(in_order(pairs, order)),
        ),
{
    let entries = in_order(encode_pairs(pairs), order);
    let key = atom_spec("__struct__");
    assert forall|i: int| 0 <= i < entries.len() implies decode_spec((#[trigger] entries[i]).0)
        == Some(pairs[order[i]].0) && decode_spec(entries[i].1) == Some(pairs[order[i]].1)
        && entries[i].0 != key by {
        let pair = pairs[order[i]];
        assert(entries[i] == (encode_spec(pair.0), encode_spec(pair.1)));
        assert(faithful(pair.0) && faithful(pair.1));
        lemma_decode_encode(pair.0);
        lemma_decode_encode(pair.1);
        lemma_encoded_atom(pair.0);
        if entries[i].0 is Atom {
            lemma_singleton_not_reserved(entries[i].0->Atom_0);
        }
    }
    lemma_assoc_index_of_is(entries, key, entries.len() as int);
    assert(decode_pairs(entries)->0 =~= in_order(pairs, order));
}

/// Whether no value occurs twice.
fn values_distinct(items: &Vec<Value>) -> (r: bool)
    ensures
        r == distinct_values(values_view(items@)),
{
    let ghost view = values_view(items@);
    let mut j: usize = 0;
    while j < items.len()
        invariant
            j <= items.len(),
            view == values_view(items@),
            forall|a: int, b: int| 0 <= a < b < j ==> view[a] != view[b],
        decreases items.len() - j,
    {
        let mut i: usize = 0;
        while i < j
            invariant
                i <= j,
                j < items.len(),
                view == values_view(items@),
                forall|a: int| 0 <= a < i ==> view[a] != view[j as int],
            decreases j - i,
        {
            if items[i].same(&items[j]) {
                assert(view[i as int] == view[j as int]);
                return false;
            }
            i = i + 1;
        }
        j = j + 1;
    }
    true
}

/// Whether no key occurs twice.
fn keys_distinct(pairs: &Vec<(Value, Value)>) -> (r: bool)
    ensures
        r == distinct_keys(pairs_view(pairs@)),
{
    let ghost view = pairs_view(pairs@);
    let mut j: usize = 0;
    while j < pairs.len()
        invariant
            j <= pairs.len(),
            view == pairs_view(pairs@),
            forall|a: int, b: int| 0 <= a < b < j ==> (#[trigger] view[a]).0 != (#[trigger] view[b]).0,
        decreases pairs.len() - j,
    {
        let mut i: usize = 0;
        while i < j
            invariant
                i <= j,
                j < pairs.len(),
                view == pairs_view(pairs@),
                forall|a: int| 0 <= a < i ==> (#[trigger] view[a]).0 != view[j as int].0,
            decreases j - i,
        {
            if pairs[i].0.same(&pairs[j].0) {
                assert(view[i as int].0 == view[j as int].0);
                return false;
            }
            i = i + 1;
        }
        j = j + 1;
    }
    true
}

/// Whether no name occurs twice.
fn names_distinct(attrs: &Vec<(String, Value)>) -> (r: bool)
    ensures
        r == distinct_keys(named_view(attrs@)),
{
    let ghost view = named_view(attrs@);
    let mut j: usize = 0;
    while j < attrs.len()
        invariant
            j <= attrs.len(),
            view == named_view(attrs@),
            forall|a: int, b: int| 0 <= a < b < j ==> (#[trigger] view[a]).0 != (#[trigger] view[b]).0,
        decreases attrs.len() - j,
    {
        let mut i: usize = 0;
        while i < j
            invariant
                i <= j,
                j < attrs.len(),
                view == named_view(attrs@),
                forall|a: int| 0 <= a < i ==> (#[trigger] view[a]).0 != view[j as int].0,
            decreases j - i,
        {
            if attrs[i].0 == attrs[j].0 {
                assert(view[i as int].0 == view[j as int].0);
                return false;
            }
            i = i + 1;
        }
        j = j + 1;
    }
    true
}

/// Whether the declared field names are the names of the attributes, in
/// order.
fn names_are_keys(field_names: &Vec<String>, attrs: &Vec<(String, Value)>) -> (r: bool)
    ensures
        r == (names_view(field_names@) == assoc_keys(named_view(attrs@))),
{
    if field_names.len() != attrs.len() {
        assert(names_view(field_names@).len() != assoc_keys(named_view(attrs@)).len());
        return false;
    }
    let mut i: usize = 0;
    while i < attrs.len()
        invariant
            field_names.len() == attrs.len(),
            i <= attrs.len(),
            forall|j: int| 0 <= j < i ==> (#[trigger] field_names@[j])@ == attrs@[j].0@,
        decreases attrs.len() - i,
    {
        if field_names[i] != attrs[i].0 {
            assert(names_view(field_names@)[i as int] != assoc_keys(named_view(attrs@))[i as int]);
            return false;
        }
        i = i + 1;
    }
    assert(names_view(field_names@) =~= assoc_keys(named_view(attrs@)));
    true
}

/// Whether each of the values has a faithful host form.
fn all_faithful(items: &Vec<Value>) -> (r: bool)
    ensures
        r == all_faithful_spec(values_view(items@)),
    decreases items, 0nat,
{
    let mut i: usize = 0;
    while i < items.len()
        invariant
            i <= items.len(),
            forall|j: int| 0 <= j < i ==> faithful(#[trigger] values_view(items@)[j]),
        decreases items.len() - i,
    {
        if !is_faithful(&items[i]) {
            assert(!faithful(values_view(items@)[i as int]));
            return false;
        }
        i = i + 1;
    }
    true
}

/// Whether each key and each value has a faithful host form.
fn all_pairs_faithful(pairs: &Vec<(Value, Value)>) -> (r: bool)
    ensures
        r == all_pairs_faithful_spec(pairs_view(pairs@)),
    decreases pairs, 0nat,
{
    let mut i: usize = 0;
    while i < pairs.len()
        invariant
            i <= pairs.len(),
            forall|j: int|
                0 <= j < i ==> faithful((#[trigger] pairs_view(pairs@)[j]).0) && faithful(
                    pairs_view(pairs@)[j].1,
                ),
        decreases pairs.len() - i,
    {
        if !(is_faithful(&pairs[i].0) && is_faithful(&pairs[i].1)) {
            assert(!(faithful(pairs_view(pairs@)[i as int].0) && faithful(
                pairs_view(pairs@)[i as int].1,
            )));
            return false;
        }
        i = i + 1;
    }
    true
}

/// Whether each attribute has a faithful host form.
fn all_attrs_faithful(attrs: &Vec<(String, Value)>) -> (r: bool)
    ensures
        r == all_attrs_faithful_spec(named_view(attrs@)),
    decreases attrs, 0nat,
{
    let mut i: usize = 0;
    while i < attrs.len()
        invariant
            i <= attrs.len(),
            forall|j: int| 0 <= j < i ==> faithful((#[trigger] named_view(attrs@)[j]).1),
        decreases attrs.len() - i,
    {
        if !is_faithful(&attrs[i].1) {
            assert(!faithful(named_view(attrs@)[i as int].1));
            return false;
        }
        i = i + 1;
    }
    true
}

/// Whether a value has a faithful host form: whether decoding brings its
/// encoding back to the same value.
pub fn is_faithful(obj: &Value) -> (r: bool)
    ensures
        r == faithful(obj@),
    decreases obj, 1nat,
{
    match obj {
        Value::NoneValue => true,
        Value::Bool(_) => true,
        Value::Int(_) => true,
        Value::BigInt(n) => n.to_i64().is_none(),
        Value::Float(_) => true,
        Value::Str(_) => true,
        Value::Bytes(_) => true,
        Value::Ellipsis => true,
        Value::List(items) => all_faithful(items),
        Value::Tuple(items) => all_faithful(items),
        Value::Dict(pairs) => keys_distinct(pairs) && all_pairs_faithful(pairs),
        Value::SetValue(items) => values_distinct(items) && all_faithful(items),
        Value::FrozenSet(_) => false,
        Value::Path(_) => true,
        Value::NamedTuple { name, field_names, values } => {
            assert(values_view(values@).len() == values.len());
            assert(names_view(field_names@).len() == field_names.len());
            let normal = normalize_namedtuple_type_name(name.as_str());
            normal == *name && field_names.len() == values.len() && all_faithful(values)
        },
        Value::Dataclass { name, field_names, attrs, frozen } => {
            names_are_keys(field_names, attrs) && names_distinct(attrs) && all_attrs_faithful(attrs)
        },
        Value::Exception { exc_type, arg } => {
            let snake = snake_case(exc_type.as_str());
            parse_exc_type(snake.as_str()) == *exc_type
        },
        Value::Type(_) => false,
        Value::BuiltinFunction(_) => false,
        Value::Repr(_) => true,
        Value::Cycle(_, _) => false,
    }
}

/// Encodes a value and decodes the encoding. A value that has a faithful
/// host form comes back as it went.
pub fn roundtrip(obj: &Value) -> (r: Result<Value, DecodeError>)
    ensures
        match r {
            Ok(back) => decode_spec(encode_spec(obj@)) == Some(back@),
            Err(_) => decode_spec(encode_spec(obj@)) is None,
        },
        faithful(obj@) ==> r is Ok && r->Ok_0@ == obj@,
{
    proof {
        if faithful(obj@) {
            lemma_decode_encode(obj@);
        }
    }
    decode_monty_object(&encode_monty_object(obj))
}

} // verus!
