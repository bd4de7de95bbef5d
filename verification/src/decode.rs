//! Decoding: from the host's representation to a canonical value.
//!
//! A term either has a canonical value or it has none; no partial value is
//! ever returned.

use vstd::prelude::*;
use vstd::utf8::{decode_utf8, valid_utf8};
use crate::assoc::{
    assoc_get,
    assoc_has,
    assoc_index_of,
    assoc_keys,
    assoc_put,
    assoc_put_all,
    distinct_keys,
    lemma_assoc_index_of,
    lemma_assoc_index_of_is,
    lemma_assoc_put_all_distinct,
    lemma_assoc_put_all_keys_distinct,
};
use crate::bigint::{be_value, copy_bytes, signed_value, BigInt, Sign};
use crate::encode::atom_spec;
use crate::interactive::{parse_exc_type, parse_exc_type_spec};
use crate::names::{sort_names, sorted_names};
use crate::term::{
    entries_view,
    map_find,
    map_get,
    map_index_of,
    str_equal,
    term_view,
    terms_view,
    Term,
    TermView,
};
use crate::text::{normalize_namedtuple_type_name, normalize_type_name_spec};
use crate::value::{
    opt_str_view,
    named_view,
    names_view,
    pairs_view,
    value_view,
    values_view,
    Value,
    ValueView,
};

verus! {

/// The one way in which decoding fails: the term has no canonical value.
#[derive(Debug, Clone, Copy, PartialEq, Eq, Structural)]
pub struct DecodeError;

/// The name that a term gives: the name of an atom, or the text of a binary
/// that holds UTF-8.
pub open spec fn name_of_term(t: TermView) -> Option<Seq<char>> {
    match t {
        TermView::Atom(name) => Some(name),
        TermView::Binary(bytes) => if valid_utf8(bytes) {
            Some(decode_utf8(bytes))
        } else {
            None
        },
        _ => None,
    }
}

/// The text that a term holds: that of a binary that holds UTF-8.
pub open spec fn text_of_term(t: TermView) -> Option<Seq<char>> {
    match t {
        TermView::Binary(bytes) => if valid_utf8(bytes) {
            Some(decode_utf8(bytes))
        } else {
            None
        },
        _ => None,
    }
}

/// The value of an atom: `nil`, `true`, `false` and `ellipsis` are the four
/// singletons, any other atom is the text of its name.
pub open spec fn decode_atom_spec(name: Seq<char>) -> ValueView {
    if name == "nil"@ {
        ValueView::NoneValue
    } else if name == "true"@ {
        ValueView::Bool(true)
    } else if name == "false"@ {
        ValueView::Bool(false)
    } else if name == "ellipsis"@ {
        ValueView::Ellipsis
    } else {
        ValueView::Str(name)
    }
}

/// The value of a host integer: fixed-width where it fits 64 bits.
pub open spec fn decode_integer_spec(n: int) -> ValueView {
    if i64::MIN <= n <= i64::MAX {
        ValueView::Int(n)
    } else {
        ValueView::BigInt(n)
    }
}

/// The value of a binary: a text where the bytes are UTF-8, a byte string
/// otherwise.
pub open spec fn decode_binary_spec(bytes: Seq<u8>) -> ValueView {
    if valid_utf8(bytes) {
        ValueView::Str(decode_utf8(bytes))
    } else {
        ValueView::Bytes(bytes)
    }
}

/// The sign that the number in a big-integer triple stands for: `-1`, `0`
/// or `1`. No other number is a sign.
pub open spec fn sign_of_spec(n: int) -> Option<Sign> {
    if n == -1 {
        Some(Sign::Minus)
    } else if n == 0 {
        Some(Sign::NoSign)
    } else if n == 1 {
        Some(Sign::Plus)
    } else {
        None
    }
}

/// The value of the triple `{__bigint__, sign, bytes}`: the sign is `-1`,
/// `0` or `1`, the bytes are the big-endian magnitude, and the sign is `0`
/// exactly where the magnitude is zero. Any other triple is malformed.
pub open spec fn decode_bigint_spec(sign: TermView, bytes: TermView) -> Option<ValueView> {
    match (sign, bytes) {
        (TermView::Integer(n), TermView::Binary(b)) => match sign_of_spec(n) {
            Some(s) => if (s == Sign::NoSign) == (be_value(b) == 0) {
                Some(ValueView::BigInt(signed_value(s, b)))
            } else {
                None
            },
            None => None,
        },
        _ => None,
    }
}

/// The canonical order of the fields of the file-status record.
pub open spec fn stat_field_order() -> Seq<Seq<char>> {
    seq![
        "st_mode"@,
        "st_ino"@,
        "st_dev"@,
        "st_nlink"@,
        "st_uid"@,
        "st_gid"@,
        "st_size"@,
        "st_atime"@,
        "st_mtime"@,
        "st_ctime"@,
    ]
}

/// The value that `by_name` holds for each of `names`.
pub open spec fn values_by_name(
    by_name: Seq<(Seq<char>, ValueView)>,
    names: Seq<Seq<char>>,
) -> Seq<ValueView> {
    Seq::new(
        names.len(),
        |i: int|
            match assoc_get(by_name, names[i]) {
                Some(v) => v,
                None => ValueView::NoneValue,
            },
    )
}

/// Whether `by_name` has a value for each of `names`.
pub open spec fn has_all_names(by_name: Seq<(Seq<char>, ValueView)>, names: Seq<Seq<char>>) -> bool {
    forall|i: int| 0 <= i < names.len() ==> assoc_has(by_name, #[trigger] names[i])
}

/// The order of the fields of a named tuple that came as a mapping.
///
/// The file-status record (`StatResult`) has its canonical order and must
/// come with exactly its ten fields. Any other type gets its fields in
/// lexicographic order of their names.
pub open spec fn order_fields_spec(tuple_type: Seq<char>, by_name: Seq<(Seq<char>, ValueView)>) -> Option<
    (Seq<Seq<char>>, Seq<ValueView>),
> {
    if tuple_type == "StatResult"@ {
        if has_all_names(by_name, stat_field_order()) && by_name.len() == stat_field_order().len() {
            Some((stat_field_order(), values_by_name(by_name, stat_field_order())))
        } else {
            None
        }
    } else {
        let names = sorted_names(assoc_keys(by_name));
        Some((names, values_by_name(by_name, names)))
    }
}

/// The values of the pairs, in order.
pub open spec fn named_values(m: Seq<(Seq<char>, ValueView)>) -> Seq<ValueView> {
    Seq::new(m.len(), |i: int| m[i].1)
}

/// The canonical value of each of a sequence of terms, if each has one.
pub open spec fn decode_all(items: Seq<TermView>) -> Option<Seq<ValueView>>
    decreases items, 0nat,
{
    if forall|i: int| 0 <= i < items.len() ==> decode_spec(#[trigger] items[i]) is Some {
        Some(
            Seq::new(
                items.len(),
                |i: int|
                    if 0 <= i < items.len() {
                        decode_spec(items[i])->0
                    } else {
                        ValueView::NoneValue
                    },
            ),
        )
    } else {
        None
    }
}

/// The canonical value of each key of a mapping, if each has one.
pub open spec fn decode_keys(entries: Seq<(TermView, TermView)>) -> Option<Seq<ValueView>>
    decreases entries, 0nat,
{
    if forall|i: int| 0 <= i < entries.len() ==> decode_spec((#[trigger] entries[i]).0) is Some {
        Some(
            Seq::new(
                entries.len(),
                |i: int|
                    if 0 <= i < entries.len() {
                        decode_spec(entries[i].0)->0
                    } else {
                        ValueView::NoneValue
                    },
            ),
        )
    } else {
        None
    }
}

/// The canonical value of each key and each value of a mapping, if each has
/// one.
pub open spec fn decode_pairs(entries: Seq<(TermView, TermView)>) -> Option<
    Seq<(ValueView, ValueView)>,
>
    decreases entries, 0nat,
{
    if forall|i: int|
        0 <= i < entries.len() ==> decode_spec((#[trigger] entries[i]).0) is Some && decode_spec(
            entries[i].1,
        ) is Some {
        Some(
            Seq::new(
                entries.len(),
                |i: int|
                    if 0 <= i < entries.len() {
                        (decode_spec(entries[i].0)->0, decode_spec(entries[i].1)->0)
                    } else {
                        (ValueView::NoneValue, ValueView::NoneValue)
                    },
            ),
        )
    } else {
        None
    }
}

/// A field of a named tuple that came as a pair `{name, value}`.
pub open spec fn decode_field_spec(item: TermView) -> Option<(Seq<char>, ValueView)>
    decreases item, 0nat,
{
    match item {
        TermView::Tuple(elements) => if elements.len() == 2 {
            match (name_of_term(elements[0]), decode_spec(elements[1])) {
                (Some(name), Some(value)) => Some((name, value)),
                _ => None,
            }
        } else {
            None
        },
        _ => None,
    }
}

/// The fields of a named tuple that came as a list of pairs, if each is
/// well formed.
pub open spec fn decode_field_list(items: Seq<TermView>) -> Option<Seq<(Seq<char>, ValueView)>>
    decreases items, 1nat,
{
    if forall|i: int| 0 <= i < items.len() ==> decode_field_spec(#[trigger] items[i]) is Some {
        Some(
            Seq::new(
                items.len(),
                |i: int|
                    if 0 <= i < items.len() {
                        decode_field_spec(items[i])->0
                    } else {
                        (Seq::empty(), ValueView::NoneValue)
                    },
            ),
        )
    } else {
        None
    }
}

/// The entries of a mapping from names to values, if each key gives a name
/// and each value has a canonical value.
pub open spec fn decode_named_entries(entries: Seq<(TermView, TermView)>) -> Option<
    Seq<(Seq<char>, ValueView)>,
>
    decreases entries, 0nat,
{
    if forall|i: int|
        0 <= i < entries.len() ==> name_of_term((#[trigger] entries[i]).0) is Some && decode_spec(
            entries[i].1,
        ) is Some {
        Some(
            Seq::new(
                entries.len(),
                |i: int|
                    if 0 <= i < entries.len() {
                        (name_of_term(entries[i].0)->0, decode_spec(entries[i].1)->0)
                    } else {
                        (Seq::empty(), ValueView::NoneValue)
                    },
            ),
        )
    } else {
        None
    }
}

/// The named tuple that the wrapper `{named_tuple, type, fields}` stands
/// for. The fields come as a list of pairs, whose order is kept, or as a
/// mapping, whose order is resolved by `order_fields_spec`.
pub open spec fn decode_named_tuple_spec(type_term: TermView, fields: TermView) -> Option<ValueView>
    decreases fields, 2nat,
{
    match name_of_term(type_term) {
        None => None,
        Some(raw) => {
            let name = normalize_type_name_spec(raw);
            match fields {
                TermView::List(items) => match decode_field_list(items) {
                    Some(decoded) => Some(
                        ValueView::NamedTuple {
                            name,
                            field_names: assoc_keys(decoded),
                            values: named_values(decoded),
                        },
                    ),
                    None => None,
                },
                TermView::Mapping(entries) => match decode_named_entries(entries) {
                    Some(decoded) => match order_fields_spec(
                        name,
                        assoc_put_all(decoded, decoded.len()),
                    ) {
                        Some((field_names, values)) => Some(
                            ValueView::NamedTuple { name, field_names, values },
                        ),
                        None => None,
                    },
                    None => None,
                },
                _ => None,
            }
        },
    }
}

/// The members of the set-like structure whose entries are given.
pub open spec fn decode_mapset_spec(entries: Seq<(TermView, TermView)>) -> Option<ValueView>
    decreases entries, 1nat,
{
    let at = map_index_of(entries, atom_spec("map"));
    if 0 <= at < entries.len() {
        match entries[at].1 {
            TermView::Mapping(inner) => match decode_keys(inner) {
                Some(members) => Some(ValueView::SetValue(members)),
                None => None,
            },
            _ => None,
        }
    } else {
        None
    }
}

/// The flag that a term holds: the atom `true` or the atom `false`.
pub open spec fn flag_of_term(t: Option<TermView>) -> Option<bool> {
    if t == Some(atom_spec("true")) {
        Some(true)
    } else if t == Some(atom_spec("false")) {
        Some(false)
    } else {
        None
    }
}

/// The name under the given key of a record.
pub open spec fn record_name(entries: Seq<(TermView, TermView)>, key: &str) -> Option<Seq<char>> {
    match assoc_get(entries, atom_spec(key)) {
        Some(t) => name_of_term(t),
        None => None,
    }
}

/// The data-class record whose entries are given: its `name`, its `fields`
/// (a mapping from names to values, taken in the order in which the host
/// walks it) and its `frozen` flag. A record that lacks one of the three is
/// malformed.
pub open spec fn decode_dataclass_spec(entries: Seq<(TermView, TermView)>) -> Option<ValueView>
    decreases entries, 1nat,
{
    let at = map_index_of(entries, atom_spec("fields"));
    if 0 <= at < entries.len() {
        match entries[at].1 {
            TermView::Mapping(inner) => match (
                record_name(entries, "name"),
                decode_named_entries(inner),
                flag_of_term(assoc_get(entries, atom_spec("frozen"))),
            ) {
                (Some(name), Some(decoded), Some(frozen)) => {
                    let attrs = assoc_put_all(decoded, decoded.len());
                    Some(
                        ValueView::Dataclass {
                            name,
                            field_names: assoc_keys(attrs),
                            attrs,
                            frozen,
                        },
                    )
                },
                _ => None,
            },
            _ => None,
        }
    } else {
        None
    }
}

/// Whether a two-element tuple is the wrapper with the given tag.
pub open spec fn is_tagged(elements: Seq<TermView>, tag: &str) -> bool {
    elements.len() == 2 && elements[0] == atom_spec(tag)
}

/// The canonical value of a tuple.
pub open spec fn decode_tuple_spec(elements: Seq<TermView>) -> Option<ValueView>
    decreases elements, 3nat,
{
    if elements.len() == 3 && elements[0] == atom_spec("named_tuple") {
        decode_named_tuple_spec(elements[1], elements[2])
    } else if is_tagged(elements, "bytes") {
        match elements[1] {
            TermView::Binary(bytes) => Some(ValueView::Bytes(bytes)),
            _ => None,
        }
    } else if is_tagged(elements, "path") {
        match text_of_term(elements[1]) {
            Some(path) => Some(ValueView::Path(path)),
            None => None,
        }
    } else if is_tagged(elements, "repr") {
        match text_of_term(elements[1]) {
            Some(repr) => Some(ValueView::Repr(repr)),
            None => None,
        }
    } else if elements.len() == 3 && elements[0] == atom_spec("__bigint__") {
        decode_bigint_spec(elements[1], elements[2])
    } else {
        match decode_all(elements) {
            Some(items) => Some(ValueView::Tuple(items)),
            None => None,
        }
    }
}

/// The message of an exception record: the atom `nil` where the exception
/// has none, else a text.
pub open spec fn message_of_term(t: TermView) -> Option<Option<Seq<char>>> {
    if t == atom_spec("nil") {
        Some(None)
    } else {
        match text_of_term(t) {
            Some(text) => Some(Some(text)),
            None => None,
        }
    }
}

/// The exception whose record has the given entries: its `type`, an atom
/// in either naming convention, and its `message`. A record that lacks one
/// of the two, or holds it in another form, is malformed. The traceback is
/// not part of the value.
pub open spec fn decode_exception_spec(entries: Seq<(TermView, TermView)>) -> Option<ValueView> {
    match (assoc_get(entries, atom_spec("type")), assoc_get(entries, atom_spec("message"))) {
        (Some(TermView::Atom(tag)), Some(message)) => match message_of_term(message) {
            Some(arg) => Some(ValueView::Exception { exc_type: parse_exc_type_spec(tag), arg }),
            None => None,
        },
        _ => None,
    }
}

/// The canonical value of a mapping.
pub open spec fn decode_mapping_spec(entries: Seq<(TermView, TermView)>) -> Option<ValueView>
    decreases entries, 2nat,
{
    let tag = assoc_get(entries, atom_spec("__struct__"));
    if tag == Some(atom_spec("Elixir.MapSet")) {
        decode_mapset_spec(entries)
    } else if tag == Some(atom_spec("Elixir.ExMonty.Dataclass")) {
        decode_dataclass_spec(entries)
    } else if tag == Some(atom_spec("Elixir.ExMonty.Exception")) {
        decode_exception_spec(entries)
    } else {
        match decode_pairs(entries) {
            Some(pairs) => Some(ValueView::Dict(pairs)),
            None => None,
        }
    }
}

/// The canonical value of a term, or `None` where it has none.
pub open spec fn decode_spec(t: TermView) -> Option<ValueView>
    decreases t, 0nat,
{
    match t {
        TermView::Atom(name) => Some(decode_atom_spec(name)),
        TermView::Integer(n) => Some(decode_integer_spec(n)),
        TermView::Float(bits) => Some(ValueView::Float(bits)),
        TermView::Binary(bytes) => Some(decode_binary_spec(bytes)),
        TermView::Tuple(elements) => decode_tuple_spec(elements),
        TermView::List(items) => match decode_all(items) {
            Some(values) => Some(ValueView::List(values)),
            None => None,
        },
        TermView::Mapping(entries) => decode_mapping_spec(entries),
        TermView::Resource => None,
    }
}

/// Calls `String::from_utf8`. Trusted: the call succeeds exactly on valid
/// UTF-8, and the text is then the one that the bytes encode.
#[verifier::external_body]
pub(crate) fn string_from_utf8(bytes: Vec<u8>) -> (r: Option<String>)
    ensures
        match r {
            Some(s) => valid_utf8(bytes@) && s@ == decode_utf8(bytes@),
            None => !valid_utf8(bytes@),
        },
{
    String::from_utf8(bytes).ok()
}

/// The text that a term holds.
pub fn term_text(t: &Term) -> (r: Option<String>)
    ensures
        opt_str_view(r) == text_of_term(t@),
{
    match t {
        Term::Binary(bytes) => string_from_utf8(copy_bytes(bytes)),
        _ => None,
    }
}

/// The name that a term gives.
pub fn term_name(t: &Term) -> (r: Option<String>)
    ensures
        opt_str_view(r) == name_of_term(t@),
{
    match t {
        Term::Atom(name) => Some(name.clone()),
        Term::Binary(bytes) => string_from_utf8(copy_bytes(bytes)),
        _ => None,
    }
}

/// The integer that a term holds, where it fits 64 bits.
pub fn term_i64(t: &Term) -> (r: Option<i64>)
    ensures
        match r {
            Some(v) => t@ == TermView::Integer(v as int),
            None => !(t@ matches TermView::Integer(n) && i64::MIN <= n <= i64::MAX),
        },
{
    match t {
        Term::Integer(i) => Some(*i),
        Term::BigInteger(b) => b.to_i64(),
        _ => None,
    }
}

/// The canonical order of the fields of the file-status record.
pub fn stat_result_field_order() -> (r: Vec<String>)
    ensures
        names_view(r@) == stat_field_order(),
{
    let mut order: Vec<String> = Vec::new();
    order.push("st_mode".to_owned());
    order.push("st_ino".to_owned());
    order.push("st_dev".to_owned());
    order.push("st_nlink".to_owned());
    order.push("st_uid".to_owned());
    order.push("st_gid".to_owned());
    order.push("st_size".to_owned());
    order.push("st_atime".to_owned());
    order.push("st_mtime".to_owned());
    order.push("st_ctime".to_owned());
    assert(names_view(order@) =~= stat_field_order());
    order
}

/// The position of the first pair with the given name, or the number of
/// pairs where there is none.
pub fn named_find(list: &Vec<(String, Value)>, name: &String) -> (r: usize)
    ensures
        r == assoc_index_of(named_view(list@), name@),
        r <= list.len(),
{
    let mut i: usize = 0;
    while i < list.len()
        invariant
            i <= list.len(),
            forall|j: int| 0 <= j < i ==> (#[trigger] named_view(list@)[j]).0 != name@,
        decreases list.len() - i,
    {
        if list[i].0 == *name {
            proof {
                lemma_assoc_index_of_is(named_view(list@), name@, i as int);
            }
            return i;
        }
        i = i + 1;
    }
    proof {
        lemma_assoc_index_of_is(named_view(list@), name@, i as int);
    }
    i
}

/// Binds `name` to `value`: a pair with that name gets the new value in
/// place, a new name goes to the end.
pub fn named_put(list: &mut Vec<(String, Value)>, name: String, value: Value)
    ensures
        named_view(final(list)@) == assoc_put(named_view(old(list)@), name@, value@),
{
    let i = named_find(list, &name);
    if i < list.len() {
        list.set(i, (name, value));
        assert(named_view(list@) =~= assoc_put(named_view(old(list)@), name@, value@));
    } else {
        list.push((name, value));
        assert(named_view(list@) =~= assoc_put(named_view(old(list)@), name@, value@));
    }
}

/// The value that `by_name` holds for each of `names`; where it holds none,
/// the absent value.
fn collect_by_name(by_name: &Vec<(String, Value)>, names: &Vec<String>) -> (r: Vec<Value>)
    ensures
        values_view(r@) == values_by_name(named_view(by_name@), names_view(names@)),
{
    let mut values: Vec<Value> = Vec::new();
    let mut i: usize = 0;
    while i < names.len()
        invariant
            i <= names.len(),
            values.len() == i,
            forall|j: int|
                0 <= j < i ==> value_view(#[trigger] values@[j]) == values_by_name(
                    named_view(by_name@),
                    names_view(names@),
                )[j],
        decreases names.len() - i,
    {
        let at = named_find(by_name, &names[i]);
        proof {
            lemma_assoc_index_of(named_view(by_name@), names@[i as int]@);
        }
        if at < by_name.len() {
            values.push(by_name[at].1.duplicate());
        } else {
            values.push(Value::NoneValue);
        }
        i = i + 1;
    }
    assert(values_view(values@) =~= values_by_name(named_view(by_name@), names_view(names@)));
    values
}

/// Whether `by_name` has a value for each of `names`.
fn holds_all_names(by_name: &Vec<(String, Value)>, names: &Vec<String>) -> (r: bool)
    ensures
        r == has_all_names(named_view(by_name@), names_view(names@)),
{
    let mut i: usize = 0;
    while i < names.len()
        invariant
            i <= names.len(),
            forall|j: int|
                0 <= j < i ==> assoc_has(named_view(by_name@), #[trigger] names_view(names@)[j]),
        decreases names.len() - i,
    {
        let at = named_find(by_name, &names[i]);
        if at >= by_name.len() {
            assert(!assoc_has(named_view(by_name@), names_view(names@)[i as int]));
            return false;
        }
        i = i + 1;
    }
    true
}

/// Resolves the order of the fields of a named tuple whose fields came as a
/// mapping from names to values: no name occurs twice.
///
/// The file-status record (`StatResult`) gets its canonical order; it must
/// come with each of its ten fields and with ten fields in all. Any other
/// type gets its fields in lexicographic order of their names.
pub fn order_named_tuple_fields(tuple_type: &str, by_name: &Vec<(String, Value)>) -> (r: Result<
    (Vec<String>, Vec<Value>),
    DecodeError,
>)
    requires
        distinct_keys(named_view(by_name@)),
    ensures
        match r {
            Ok((names, values)) => order_fields_spec(tuple_type@, named_view(by_name@)) == Some(
                (names_view(names@), values_view(values@)),
            ),
            Err(_) => order_fields_spec(tuple_type@, named_view(by_name@)) is None,
        },
{
    if str_equal(tuple_type, "StatResult") {
        let order = stat_result_field_order();
        if !holds_all_names(by_name, &order) || by_name.len() != order.len() {
            return Err(DecodeError);
        }
        let values = collect_by_name(by_name, &order);
        Ok((order, values))
    } else {
        let mut keys: Vec<String> = Vec::new();
        let mut i: usize = 0;
        while i < by_name.len()
            invariant
                i <= by_name.len(),
                keys.len() == i,
                forall|j: int| 0 <= j < i ==> (#[trigger] keys@[j])@ == by_name@[j].0@,
            decreases by_name.len() - i,
        {
            keys.push(by_name[i].0.clone());
            i = i + 1;
        }
        assert(names_view(keys@) =~= assoc_keys(named_view(by_name@)));
        let names = sort_names(&keys);
        let values = collect_by_name(by_name, &names);
        Ok((names, values))
    }
}

/// The canonical value of each of a sequence of terms.
pub fn decode_items(items: &Vec<Term>) -> (r: Result<Vec<Value>, DecodeError>)
    ensures
        match r {
            Ok(values) => decode_all(terms_view(items@)) == Some(values_view(values@)),
            Err(_) => decode_all(terms_view(items@)) is None,
        },
    decreases items, 0nat,
{
    let mut out: Vec<Value> = Vec::new();
    let mut i: usize = 0;
    while i < items.len()
        invariant
            i <= items.len(),
            out.len() == i,
            forall|j: int|
                0 <= j < i ==> decode_spec(term_view(items@[j])) == Some(
                    value_view(#[trigger] out@[j]),
                ),
        decreases items.len() - i,
    {
        match decode_monty_object(&items[i]) {
            Ok(value) => {
                out.push(value);
            },
            Err(e) => {
                assert(decode_spec(terms_view(items@)[i as int]) is None);
                return Err(e);
            },
        }
        i = i + 1;
    }
    proof {
        let tv = terms_view(items@);
        assert forall|j: int| 0 <= j < tv.len() implies decode_spec(#[trigger] tv[j]) is Some by {
            assert(decode_spec(term_view(items@[j])) == Some(value_view(out@[j])));
        }
        assert(values_view(out@) =~= decode_all(tv)->0);
    }
    Ok(out)
}

/// The canonical value of each key of a mapping.
fn decode_entry_keys(entries: &Vec<(Term, Term)>) -> (r: Result<Vec<Value>, DecodeError>)
    ensures
        match r {
            Ok(values) => decode_keys(entries_view(entries@)) == Some(values_view(values@)),
            Err(_) => decode_keys(entries_view(entries@)) is None,
        },
    decreases entries, 0nat,
{
    let mut out: Vec<Value> = Vec::new();
    let mut i: usize = 0;
    while i < entries.len()
        invariant
            i <= entries.len(),
            out.len() == i,
            forall|j: int|
                0 <= j < i ==> decode_spec(term_view(entries@[j].0)) == Some(
                    value_view(#[trigger] out@[j]),
                ),
        decreases entries.len() - i,
    {
        match decode_monty_object(&entries[i].0) {
            Ok(value) => {
                out.push(value);
            },
            Err(e) => {
                assert(decode_spec(entries_view(entries@)[i as int].0) is None);
                return Err(e);
            },
        }
        i = i + 1;
    }
    proof {
        let ev = entries_view(entries@);
        assert forall|j: int| 0 <= j < ev.len() implies decode_spec((#[trigger] ev[j]).0) is Some by {
            assert(decode_spec(term_view(entries@[j].0)) == Some(value_view(out@[j])));
        }
        assert(values_view(out@) =~= decode_keys(ev)->0);
    }
    Ok(out)
}

/// The canonical value of each key and each value of a mapping.
fn decode_entry_pairs(entries: &Vec<(Term, Term)>) -> (r: Result<Vec<(Value, Value)>, DecodeError>)
    ensures
        match r {
            Ok(pairs) => decode_pairs(entries_view(entries@)) == Some(pairs_view(pairs@)),
            Err(_) => decode_pairs(entries_view(entries@)) is None,
        },
    decreases entries, 0nat,
{
    let mut out: Vec<(Value, Value)> = Vec::new();
    let mut i: usize = 0;
    while i < entries.len()
        invariant
            i <= entries.len(),
            out.len() == i,
            forall|j: int|
                0 <= j < i ==> decode_spec(term_view(entries@[j].0)) == Some(
                    value_view((#[trigger] out@[j]).0),
                ) && decode_spec(term_view(entries@[j].1)) == Some(value_view(out@[j].1)),
        decreases entries.len() - i,
    {
        let key = match decode_monty_object(&entries[i].0) {
            Ok(value) => value,
            Err(e) => {
                assert(decode_spec(entries_view(entries@)[i as int].0) is None);
                return Err(e);
            },
        };
        let value = match decode_monty_object(&entries[i].1) {
            Ok(value) => value,
            Err(e) => {
                assert(decode_spec(entries_view(entries@)[i as int].1) is None);
                return Err(e);
            },
        };
        out.push((key, value));
        i = i + 1;
    }
    proof {
        let ev = entries_view(entries@);
        assert forall|j: int| 0 <= j < ev.len() implies decode_spec((#[trigger] ev[j]).0) is Some
            && decode_spec(ev[j].1) is Some by {
            assert(decode_spec(term_view(entries@[j].0)) == Some(value_view(out@[j].0)));
        }
        assert(pairs_view(out@) =~= decode_pairs(ev)->0);
    }
    Ok(out)
}

/// A field of a named tuple that came as a pair `{name, value}`.
fn decode_field(item: &Term) -> (r: Result<(String, Value), DecodeError>)
    ensures
        match r {
            Ok(field) => decode_field_spec(item@) == Some((field.0@, field.1@)),
            Err(_) => decode_field_spec(item@) is None,
        },
    decreases item, 0nat,
{
    match item {
        Term::Tuple(elements) => {
            if elements.len() != 2 {
                return Err(DecodeError);
            }
            let name = match term_name(&elements[0]) {
                Some(name) => name,
                None => {
                    return Err(DecodeError);
                },
            };
            match decode_monty_object(&elements[1]) {
                Ok(value) => Ok((name, value)),
                Err(e) => Err(e),
            }
        },
        _ => Err(DecodeError),
    }
}

/// The fields of a named tuple that came as a list of pairs.
fn decode_fields(items: &Vec<Term>) -> (r: Result<Vec<(String, Value)>, DecodeError>)
    ensures
        match r {
            Ok(fields) => decode_field_list(terms_view(items@)) == Some(named_view(fields@)),
            Err(_) => decode_field_list(terms_view(items@)) is None,
        },
    decreases items, 1nat,
{
    let mut out: Vec<(String, Value)> = Vec::new();
    let mut i: usize = 0;
    while i < items.len()
        invariant
            i <= items.len(),
            out.len() == i,
            forall|j: int|
                0 <= j < i ==> decode_field_spec(term_view(items@[j])) == Some(
                    ((#[trigger] out@[j]).0@, value_view(out@[j].1)),
                ),
        decreases items.len() - i,
    {
        match decode_field(&items[i]) {
            Ok(field) => {
                out.push(field);
            },
            Err(e) => {
                assert(decode_field_spec(terms_view(items@)[i as int]) is None);
                return Err(e);
            },
        }
        i = i + 1;
    }
    proof {
        let tv = terms_view(items@);
        assert forall|j: int| 0 <= j < tv.len() implies decode_field_spec(#[trigger] tv[j]) is Some by {
            assert(decode_field_spec(term_view(items@[j])) == Some(
                (out@[j].0@, value_view(out@[j].1)),
            ));
        }
        assert(named_view(out@) =~= decode_field_list(tv)->0);
    }
    Ok(out)
}

/// The entries of a mapping from names to values, bound one after the other:
/// where two keys give one name, the name keeps its first place and its last
/// value.
fn decode_named(entries: &Vec<(Term, Term)>) -> (r: Result<Vec<(String, Value)>, DecodeError>)
    ensures
        match r {
            Ok(by_name) => decode_named_entries(entries_view(entries@)) matches Some(decoded)
                && named_view(by_name@) == assoc_put_all(decoded, decoded.len())
                && distinct_keys(named_view(by_name@)),
            Err(_) => decode_named_entries(entries_view(entries@)) is None,
        },
    decreases entries, 0nat,
{
    let ghost ev = entries_view(entries@);
    let ghost total = Seq::new(
        ev.len(),
        |i: int|
            if 0 <= i < ev.len() {
                (name_of_term(ev[i].0)->0, decode_spec(ev[i].1)->0)
            } else {
                (Seq::empty(), ValueView::NoneValue)
            },
    );
    let mut out: Vec<(String, Value)> = Vec::new();
    let mut i: usize = 0;
    assert(named_view(out@) =~= assoc_put_all(total, 0));
    while i < entries.len()
        invariant
            i <= entries.len(),
            ev == entries_view(entries@),
            total.len() == ev.len(),
            forall|j: int|
                0 <= j < ev.len() ==> #[trigger] total[j] == (
                    name_of_term(ev[j].0)->0,
                    decode_spec(ev[j].1)->0,
                ),
            forall|j: int|
                0 <= j < i ==> name_of_term((#[trigger] ev[j]).0) is Some && decode_spec(ev[j].1) is Some,
            named_view(out@) == assoc_put_all(total, i as nat),
        decreases entries.len() - i,
    {
        let name = match term_name(&entries[i].0) {
            Some(name) => name,
            None => {
                assert(name_of_term(ev[i as int].0) is None);
                return Err(DecodeError);
            },
        };
        let value = match decode_monty_object(&entries[i].1) {
            Ok(value) => value,
            Err(e) => {
                assert(decode_spec(ev[i as int].1) is None);
                return Err(e);
            },
        };
        assert(total[i as int] == (name@, value@));
        named_put(&mut out, name, value);
        i = i + 1;
    }
    assert(decode_named_entries(ev) == Some(total)) by {
        assert(decode_named_entries(ev)->0 =~= total);
    }
    proof {
        lemma_assoc_put_all_keys_distinct(total, total.len());
    }
    Ok(out)
}

/// The names of the pairs and their values, each in order.
fn split_named(fields: Vec<(String, Value)>) -> (r: (Vec<String>, Vec<Value>))
    ensures
        names_view(r.0@) == assoc_keys(named_view(fields@)),
        values_view(r.1@) == named_values(named_view(fields@)),
{
    let mut names: Vec<String> = Vec::new();
    let mut values: Vec<Value> = Vec::new();
    let mut i: usize = 0;
    while i < fields.len()
        invariant
            i <= fields.len(),
            names.len() == i,
            values.len() == i,
            forall|j: int| 0 <= j < i ==> (#[trigger] names@[j])@ == fields@[j].0@,
            forall|j: int| 0 <= j < i ==> value_view(#[trigger] values@[j]) == value_view(fields@[j].1),
        decreases fields.len() - i,
    {
        names.push(fields[i].0.clone());
        values.push(fields[i].1.duplicate());
        i = i + 1;
    }
    assert(names_view(names@) =~= assoc_keys(named_view(fields@)));
    assert(values_view(values@) =~= named_values(named_view(fields@)));
    (names, values)
}

/// Decodes the wrapper `{named_tuple, type, fields}`. The type is an atom
/// or a text and is brought to its canonical form. The fields are a list of
/// `{name, value}` pairs, whose order is kept, or a mapping from names to
/// values, whose order `order_named_tuple_fields` resolves.
pub fn decode_named_tuple(type_term: &Term, fields_term: &Term) -> (r: Result<Value, DecodeError>)
    ensures
        match r {
            Ok(value) => decode_named_tuple_spec(type_term@, fields_term@) == Some(value@),
            Err(_) => decode_named_tuple_spec(type_term@, fields_term@) is None,
        },
    decreases fields_term, 2nat,
{
    let raw = match term_name(type_term) {
        Some(raw) => raw,
        None => {
            return Err(DecodeError);
        },
    };
    let name = normalize_namedtuple_type_name(raw.as_str());
    match fields_term {
        Term::List(items) => match decode_fields(items) {
            Ok(fields) => {
                let (field_names, values) = split_named(fields);
                Ok(Value::NamedTuple { name, field_names, values })
            },
            Err(e) => Err(e),
        },
        Term::Mapping(entries) => match decode_named(entries) {
            Ok(by_name) => match order_named_tuple_fields(name.as_str(), &by_name) {
                Ok((field_names, values)) => Ok(Value::NamedTuple { name, field_names, values }),
                Err(e) => Err(e),
            },
            Err(e) => Err(e),
        },
        _ => Err(DecodeError),
    }
}

/// The sign that the number in a big-integer triple stands for.
fn sign_of(n: i64) -> (r: Option<Sign>)
    ensures
        r == sign_of_spec(n as int),
{
    if n == -1 {
        Some(Sign::Minus)
    } else if n == 0 {
        Some(Sign::NoSign)
    } else if n == 1 {
        Some(Sign::Plus)
    } else {
        None
    }
}

/// Decodes the triple `{__bigint__, sign, bytes}`.
fn decode_bigint(sign: &Term, bytes: &Term) -> (r: Result<Value, DecodeError>)
    ensures
        match r {
            Ok(value) => decode_bigint_spec(sign@, bytes@) == Some(value@),
            Err(_) => decode_bigint_spec(sign@, bytes@) is None,
        },
{
    let n = match term_i64(sign) {
        Some(n) => n,
        None => {
            return Err(DecodeError);
        },
    };
    let s = match sign_of(n) {
        Some(s) => s,
        None => {
            return Err(DecodeError);
        },
    };
    match bytes {
        Term::Binary(b) => {
            let magnitude = BigInt::from_bytes_be(Sign::Plus, b.as_slice());
            let zero = magnitude.is_zero();
            let no_sign = match s {
                Sign::NoSign => true,
                _ => false,
            };
            if no_sign == zero {
                Ok(Value::BigInt(BigInt::from_bytes_be(s, b.as_slice())))
            } else {
                Err(DecodeError)
            }
        },
        _ => Err(DecodeError),
    }
}

/// Decodes the set-like structure whose entries are given.
fn decode_mapset(entries: &Vec<(Term, Term)>) -> (r: Result<Value, DecodeError>)
    ensures
        match r {
            Ok(value) => decode_mapset_spec(entries_view(entries@)) == Some(value@),
            Err(_) => decode_mapset_spec(entries_view(entries@)) is None,
        },
    decreases entries, 1nat,
{
    let at = map_find(entries, &Term::atom("map"));
    proof {
        lemma_assoc_index_of(entries_view(entries@), atom_spec("map"));
    }
    if at >= entries.len() {
        return Err(DecodeError);
    }
    match &entries[at].1 {
        Term::Mapping(inner) => match decode_entry_keys(inner) {
            Ok(members) => Ok(Value::SetValue(members)),
            Err(e) => Err(e),
        },
        _ => Err(DecodeError),
    }
}

/// The term under the given atom key of a record.
fn record_get<'a>(entries: &'a Vec<(Term, Term)>, key: &str) -> (r: Option<&'a Term>)
    ensures
        match r {
            Some(t) => assoc_get(entries_view(entries@), atom_spec(key)) == Some(t@),
            None => assoc_get(entries_view(entries@), atom_spec(key)) is None,
        },
{
    map_get(entries, &Term::atom(key))
}

/// Decodes the data-class record whose entries are given.
fn decode_dataclass(entries: &Vec<(Term, Term)>) -> (r: Result<Value, DecodeError>)
    ensures
        match r {
            Ok(value) => decode_dataclass_spec(entries_view(entries@)) == Some(value@),
            Err(_) => decode_dataclass_spec(entries_view(entries@)) is None,
        },
    decreases entries, 1nat,
{
    let at = map_find(entries, &Term::atom("fields"));
    proof {
        lemma_assoc_index_of(entries_view(entries@), atom_spec("fields"));
    }
    if at >= entries.len() {
        return Err(DecodeError);
    }
    match &entries[at].1 {
        Term::Mapping(inner) => {
            let name = match record_get(entries, "name") {
                Some(t) => match term_name(t) {
                    Some(name) => name,
                    None => {
                        return Err(DecodeError);
                    },
                },
                None => {
                    return Err(DecodeError);
                },
            };
            let attrs = match decode_named(inner) {
                Ok(attrs) => attrs,
                Err(e) => {
                    return Err(e);
                },
            };
            let frozen = match record_get(entries, "frozen") {
                Some(t) => if t.is_atom_named("true") {
                    true
                } else if t.is_atom_named("false") {
                    false
                } else {
                    return Err(DecodeError);
                },
                None => {
                    return Err(DecodeError);
                },
            };
            let mut field_names: Vec<String> = Vec::new();
            let mut i: usize = 0;
            while i < attrs.len()
                invariant
                    i <= attrs.len(),
                    field_names.len() == i,
                    forall|j: int| 0 <= j < i ==> (#[trigger] field_names@[j])@ == attrs@[j].0@,
                decreases attrs.len() - i,
            {
                field_names.push(attrs[i].0.clone());
                i = i + 1;
            }
            assert(names_view(field_names@) =~= assoc_keys(named_view(attrs@)));
            Ok(Value::Dataclass { name, field_names, attrs, frozen })
        },
        _ => Err(DecodeError),
    }
}

/// Whether a tuple is the two-element wrapper with the given tag.
fn has_tag(elements: &Vec<Term>, tag: &str) -> (r: bool)
    ensures
        r == is_tagged(terms_view(elements@), tag),
{
    elements.len() == 2 && elements[0].is_atom_named(tag)
}

/// Decodes a tuple: one of the tagged wrappers, or a plain tuple.
fn decode_tuple(elements: &Vec<Term>) -> (r: Result<Value, DecodeError>)
    ensures
        match r {
            Ok(value) => decode_tuple_spec(terms_view(elements@)) == Some(value@),
            Err(_) => decode_tuple_spec(terms_view(elements@)) is None,
        },
    decreases elements, 3nat,
{
    if elements.len() == 3 && elements[0].is_atom_named("named_tuple") {
        decode_named_tuple(&elements[1], &elements[2])
    } else if has_tag(elements, "bytes") {
        match &elements[1] {
            Term::Binary(bytes) => Ok(Value::Bytes(copy_bytes(bytes))),
            _ => Err(DecodeError),
        }
    } else if has_tag(elements, "path") {
        match term_text(&elements[1]) {
            Some(path) => Ok(Value::Path(path)),
            None => Err(DecodeError),
        }
    } else if has_tag(elements, "repr") {
        match term_text(&elements[1]) {
            Some(repr) => Ok(Value::Repr(repr)),
            None => Err(DecodeError),
        }
    } else if elements.len() == 3 && elements[0].is_atom_named("__bigint__") {
        decode_bigint(&elements[1], &elements[2])
    } else {
        match decode_items(elements) {
            Ok(items) => Ok(Value::Tuple(items)),
            Err(e) => Err(e),
        }
    }
}

/// Decodes the exception record whose entries are given.
fn decode_exception(entries: &Vec<(Term, Term)>) -> (r: Result<Value, DecodeError>)
    ensures
        match r {
            Ok(value) => decode_exception_spec(entries_view(entries@)) == Some(value@),
            Err(_) => decode_exception_spec(entries_view(entries@)) is None,
        },
{
    let exc_type = match record_get(entries, "type") {
        Some(Term::Atom(tag)) => parse_exc_type(tag.as_str()),
        _ => {
            return Err(DecodeError);
        },
    };
    let arg = match record_get(entries, "message") {
        Some(message) => if message.is_atom_named("nil") {
            None
        } else {
            match term_text(message) {
                Some(text) => Some(text),
                None => {
                    return Err(DecodeError);
                },
            }
        },
        None => {
            return Err(DecodeError);
        },
    };
    Ok(Value::Exception { exc_type, arg })
}

/// Decodes a mapping: a set-like structure, a data-class record, an
/// exception record, or a dictionary.
fn decode_mapping(entries: &Vec<(Term, Term)>) -> (r: Result<Value, DecodeError>)
    ensures
        match r {
            Ok(value) => decode_mapping_spec(entries_view(entries@)) == Some(value@),
            Err(_) => decode_mapping_spec(entries_view(entries@)) is None,
        },
    decreases entries, 2nat,
{
    let tag = record_get(entries, "__struct__");
    let is_mapset = match tag {
        Some(t) => t.is_atom_named("Elixir.MapSet"),
        None => false,
    };
    let is_dataclass = match tag {
        Some(t) => t.is_atom_named("Elixir.ExMonty.Dataclass"),
        None => false,
    };
    let is_exception = match tag {
        Some(t) => t.is_atom_named("Elixir.ExMonty.Exception"),
        None => false,
    };
    if is_mapset {
        decode_mapset(entries)
    } else if is_dataclass {
        decode_dataclass(entries)
    } else if is_exception {
        decode_exception(entries)
    } else {
        match decode_entry_pairs(entries) {
            Ok(pairs) => Ok(Value::Dict(pairs)),
            Err(e) => Err(e),
        }
    }
}

/// Decodes a host term into the canonical value that it stands for, or
/// fails where it stands for none.
pub fn decode_monty_object(term: &Term) -> (r: Result<Value, DecodeError>)
    ensures
        match r {
            Ok(value) => decode_spec(term@) == Some(value@),
            Err(_) => decode_spec(term@) is None,
        },
    decreases term, 0nat,
{
    match term {
        Term::Atom(name) => {
            if str_equal(name.as_str(), "nil") {
                Ok(Value::NoneValue)
            } else if str_equal(name.as_str(), "true") {
                Ok(Value::Bool(true))
            } else if str_equal(name.as_str(), "false") {
                Ok(Value::Bool(false))
            } else if str_equal(name.as_str(), "ellipsis") {
                Ok(Value::Ellipsis)
            } else {
                Ok(Value::Str(name.clone()))
            }
        },
        Term::Integer(i) => Ok(Value::Int(*i)),
        Term::BigInteger(b) => match b.to_i64() {
            Some(small) => Ok(Value::Int(small)),
            None => Ok(Value::BigInt(b.duplicate())),
        },
        Term::Float(bits) => Ok(Value::Float(*bits)),
        Term::Binary(bytes) => match string_from_utf8(copy_bytes(bytes)) {
            Some(text) => Ok(Value::Str(text)),
            None => Ok(Value::Bytes(copy_bytes(bytes))),
        },
        Term::Tuple(elements) => decode_tuple(elements),
        Term::List(items) => match decode_items(items) {
            Ok(values) => Ok(Value::List(values)),
            Err(e) => Err(e),
        },
        Term::Mapping(entries) => decode_mapping(entries),
        Term::Resource => Err(DecodeError),
    }
}

/// The file-status record comes out in canonical order. Where the type of
/// a named tuple is the file-status record and its fields come as a mapping
/// whose keys give exactly the ten canonical names, in whatever order, the
/// decoded tuple has its fields in canonical order, each with the value
/// that came under its name.
pub proof fn lemma_stat_result_order(type_term: TermView, entries: Seq<(TermView, TermView)>)
    requires
        name_of_term(type_term) matches Some(raw) && normalize_type_name_spec(raw)
            == "StatResult"@,
        decode_named_entries(entries) matches Some(decoded) && distinct_keys(decoded)
            && decoded.len() == 10 && has_all_names(decoded, stat_field_order()),
    ensures
        decode_named_tuple_spec(type_term, TermView::Mapping(entries)) == Some(
            ValueView::NamedTuple {
                name: "StatResult"@,
                field_names: stat_field_order(),
                values: values_by_name(decode_named_entries(entries)->0, stat_field_order()),
            },
        ),
        forall|i: int|
            0 <= i < 10 ==> assoc_get(
                decode_named_entries(entries)->0,
                #[trigger] stat_field_order()[i],
            ) == Some(values_by_name(decode_named_entries(entries)->0, stat_field_order())[i]),
{
    let decoded = decode_named_entries(entries)->0;
    lemma_assoc_put_all_distinct(decoded, decoded.len());
    assert(decoded.take(decoded.len() as int) =~= decoded);
    assert forall|i: int| 0 <= i < 10 implies assoc_get(
        decoded,
        #[trigger] stat_field_order()[i],
    ) == Some(values_by_name(decoded, stat_field_order())[i]) by {
        assert(assoc_has(decoded, stat_field_order()[i]));
    }
}

/// The file-status record without one of its fields is rejected. Where the
/// type of a named tuple is the file-status record and its fields come as a
/// mapping that lacks one of the ten canonical names, decoding fails.
pub proof fn lemma_stat_result_incomplete(
    type_term: TermView,
    entries: Seq<(TermView, TermView)>,
    missing: int,
)
    requires
        name_of_term(type_term) matches Some(raw) && normalize_type_name_spec(raw)
            == "StatResult"@,
        0 <= missing < 10,
        decode_named_entries(entries) matches Some(decoded) && distinct_keys(decoded)
            && !assoc_has(decoded, stat_field_order()[missing]),
    ensures
        decode_named_tuple_spec(type_term, TermView::Mapping(entries)) is None,
{
    let decoded = decode_named_entries(entries)->0;
    lemma_assoc_put_all_distinct(decoded, decoded.len());
    assert(decoded.take(decoded.len() as int) =~= decoded);
}

} // verus!
