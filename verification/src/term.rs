//! The host's dynamic values, as far as the bridge reads and builds them.

use vstd::prelude::*;
use vstd::string::StrSliceExecFns;

use vstd::utf8::encode_utf8;
use crate::assoc::{assoc_get, assoc_index_of, assoc_put, lemma_assoc_index_of_is};
use crate::bigint::{bytes_equal, copy_bytes, BigInt};

verus! {

/// Mathematical model of a host term.
pub enum TermView {
    /// A named constant.
    Atom(Seq<char>),
    /// An integer of any size.
    Integer(int),
    /// A 64-bit float, by its bits.
    Float(u64),
    /// A byte string.
    Binary(Seq<u8>),
    /// A fixed-size tuple.
    Tuple(Seq<TermView>),
    /// A list.
    List(Seq<TermView>),
    /// A key-value mapping, in the order in which the host walks it.
    Mapping(Seq<(TermView, TermView)>),
    /// A handle that only the host can interpret.
    Resource,
}

/// A value of the host's dynamic representation.
///
/// A mapping holds its entries in the order in which the host walks them. A
/// lookup finds the first entry with the key; `map_put` never adds a key
/// twice.
#[derive(Debug, PartialEq, Eq)]
pub enum Term {
    /// A named constant.
    Atom(String),
    /// An integer that fits 64 bits.
    Integer(i64),
    /// An integer of any size.
    BigInteger(BigInt),
    /// A 64-bit float, by its bits.
    Float(u64),
    /// A byte string.
    Binary(Vec<u8>),
    /// A fixed-size tuple.
    Tuple(Vec<Term>),
    /// A list.
    List(Vec<Term>),
    /// A key-value mapping.
    Mapping(Vec<(Term, Term)>),
    /// A handle that only the host can interpret (a process, a reference, a
    /// function, a resource).
    Resource,
}

/// The model of a sequence of terms.
pub open spec fn terms_view(items: Seq<Term>) -> Seq<TermView>
    decreases items, 0nat,
{
    Seq::new(
        items.len(),
        |i: int|
            if 0 <= i < items.len() {
                term_view(items[i])
            } else {
                TermView::Resource
            },
    )
}

/// The model of the entries of a mapping.
pub open spec fn entries_view(entries: Seq<(Term, Term)>) -> Seq<(TermView, TermView)>
    decreases entries, 0nat,
{
    Seq::new(
        entries.len(),
        |i: int|
            if 0 <= i < entries.len() {
                (term_view(entries[i].0), term_view(entries[i].1))
            } else {
                (TermView::Resource, TermView::Resource)
            },
    )
}

/// The model of a term.
pub open spec fn term_view(t: Term) -> TermView
    decreases t, 1nat,
{
    match t {
        Term::Atom(s) => TermView::Atom(s@),
        Term::Integer(i) => TermView::Integer(i as int),
        Term::BigInteger(b) => TermView::Integer(b@),
        Term::Float(bits) => TermView::Float(bits),
        Term::Binary(b) => TermView::Binary(b@),
        Term::Tuple(items) => TermView::Tuple(terms_view(items@)),
        Term::List(items) => TermView::List(terms_view(items@)),
        Term::Mapping(entries) => TermView::Mapping(entries_view(entries@)),
        Term::Resource => TermView::Resource,
    }
}

impl View for Term {
    type V = TermView;

    open spec fn view(&self) -> TermView {
        term_view(*self)
    }
}

/// The index of the first entry of `m` whose key is `k`, or `m.len()` where
/// no entry has that key.
pub open spec fn map_index_of(m: Seq<(TermView, TermView)>, k: TermView) -> int {
    assoc_index_of(m, k)
}

/// The value that the mapping holds for the key `k`.
pub open spec fn map_get_spec(m: Seq<(TermView, TermView)>, k: TermView) -> Option<TermView> {
    assoc_get(m, k)
}

/// The mapping after `k` was bound to `v`: the entry with that key gets the
/// new value in place, a new key goes to the end.
pub open spec fn map_put_spec(m: Seq<(TermView, TermView)>, k: TermView, v: TermView) -> Seq<
    (TermView, TermView),
> {
    assoc_put(m, k, v)
}

impl Term {
    /// The atom with the given name.
    pub fn atom(name: &str) -> (r: Term)
        ensures
            r@ == TermView::Atom(name@),
    {
        Term::Atom(name.to_owned())
    }

    /// The binary that holds the UTF-8 bytes of `text`.
    pub fn text(text: &str) -> (r: Term)
        ensures
            r@ == TermView::Binary(encode_utf8(text@)),
    {
        Term::Binary(text.as_bytes_vec())
    }

    /// The host integer `n`.
    pub fn from_u64(n: u64) -> (r: Term)
        ensures
            r@ == TermView::Integer(n as int),
    {
        if n <= 0x7fff_ffff_ffff_ffff {
            Term::Integer(n as i64)
        } else {
            Term::BigInteger(BigInt::from_u64(n))
        }
    }

    /// The empty list.
    pub fn empty_list() -> (r: Term)
        ensures
            r@ == TermView::List(Seq::empty()),
    {
        let items: Vec<Term> = Vec::new();
        assert(terms_view(items@) =~= Seq::<TermView>::empty());
        Term::List(items)
    }

    /// Whether the term is the atom with the given name.
    pub fn is_atom_named(&self, name: &str) -> (r: bool)
        ensures
            r == (self@ == TermView::Atom(name@)),
    {
        match self {
            Term::Atom(s) => str_equal(s.as_str(), name),
            _ => false,
        }
    }

    /// A copy of the term.
    pub fn duplicate(&self) -> (r: Term)
        ensures
            r@ == self@,
        decreases self,
    {
        match self {
            Term::Atom(s) => Term::Atom(s.clone()),
            Term::Integer(i) => Term::Integer(*i),
            Term::BigInteger(b) => Term::BigInteger(b.duplicate()),
            Term::Float(bits) => Term::Float(*bits),
            Term::Binary(b) => Term::Binary(copy_bytes(b)),
            Term::Tuple(items) => Term::Tuple(duplicate_terms(items)),
            Term::List(items) => Term::List(duplicate_terms(items)),
            Term::Mapping(entries) => Term::Mapping(duplicate_entries(entries)),
            Term::Resource => Term::Resource,
        }
    }

    /// Whether two terms are the same host value. An integer is the same
    /// value in either of its two representations.
    pub fn same(&self, other: &Term) -> (r: bool)
        ensures
            r == (self@ == other@),
        decreases self,
    {
        match (self, other) {
            (Term::Atom(a), Term::Atom(b)) => str_equal(a.as_str(), b.as_str()),
            (Term::Integer(a), Term::Integer(b)) => *a == *b,
            (Term::Integer(a), Term::BigInteger(b)) => match b.to_i64() {
                Some(v) => v == *a,
                None => false,
            },
            (Term::BigInteger(a), Term::Integer(b)) => match a.to_i64() {
                Some(v) => v == *b,
                None => false,
            },
            (Term::BigInteger(a), Term::BigInteger(b)) => a.same(b),
            (Term::Float(a), Term::Float(b)) => *a == *b,
            (Term::Binary(a), Term::Binary(b)) => bytes_equal(a, b),
            (Term::Tuple(a), Term::Tuple(b)) => same_terms(a, b),
            (Term::List(a), Term::List(b)) => same_terms(a, b),
            (Term::Mapping(a), Term::Mapping(b)) => same_entries(a, b),
            (Term::Resource, Term::Resource) => true,
            _ => false,
        }
    }
}

/// Whether two strings hold the same characters.
pub fn str_equal(a: &str, b: &str) -> (r: bool)
    ensures
        r == (a@ == b@),
{
    let x = a.to_owned();
    let y = b.to_owned();
    x == y
}

/// A copy of a sequence of terms.
pub fn duplicate_terms(items: &Vec<Term>) -> (r: Vec<Term>)
    ensures
        terms_view(r@) == terms_view(items@),
    decreases items,
{
    let mut out: Vec<Term> = Vec::new();
    let mut i: usize = 0;
    while i < items.len()
        invariant
            i <= items.len(),
            out.len() == i,
            forall|j: int| 0 <= j < i ==> term_view(#[trigger] out@[j]) == term_view(items@[j]),
        decreases items.len() - i,
    {
        let copy = items[i].duplicate();
        out.push(copy);
        i = i + 1;
    }
    assert(terms_view(out@) =~= terms_view(items@));
    out
}

/// A copy of the entries of a mapping.
pub fn duplicate_entries(entries: &Vec<(Term, Term)>) -> (r: Vec<(Term, Term)>)
    ensures
        entries_view(r@) == entries_view(entries@),
    decreases entries,
{
    let mut out: Vec<(Term, Term)> = Vec::new();
    let mut i: usize = 0;
    while i < entries.len()
        invariant
            i <= entries.len(),
            out.len() == i,
            forall|j: int|
                0 <= j < i ==> term_view((#[trigger] out@[j]).0) == term_view(entries@[j].0)
                    && term_view(out@[j].1) == term_view(entries@[j].1),
        decreases entries.len() - i,
    {
        let key = entries[i].0.duplicate();
        let value = entries[i].1.duplicate();
        out.push((key, value));
        i = i + 1;
    }
    assert(entries_view(out@) =~= entries_view(entries@));
    out
}

/// Whether two sequences of terms hold the same host values in the same
/// order.
pub fn same_terms(a: &Vec<Term>, b: &Vec<Term>) -> (r: bool)
    ensures
        r == (terms_view(a@) == terms_view(b@)),
    decreases a,
{
    if a.len() != b.len() {
        assert(terms_view(a@).len() != terms_view(b@).len());
        return false;
    }
    let mut i: usize = 0;
    while i < a.len()
        invariant
            a.len() == b.len(),
            i <= a.len(),
            forall|j: int| 0 <= j < i ==> term_view(#[trigger] a@[j]) == term_view(b@[j]),
        decreases a.len() - i,
    {
        if !a[i].same(&b[i]) {
            assert(terms_view(a@)[i as int] != terms_view(b@)[i as int]);
            return false;
        }
        i = i + 1;
    }
    assert(terms_view(a@) =~= terms_view(b@));
    true
}

/// Whether two mappings hold the same entries in the same order.
pub fn same_entries(a: &Vec<(Term, Term)>, b: &Vec<(Term, Term)>) -> (r: bool)
    ensures
        r == (entries_view(a@) == entries_view(b@)),
    decreases a,
{
    if a.len() != b.len() {
        assert(entries_view(a@).len() != entries_view(b@).len());
        return false;
    }
    let mut i: usize = 0;
    while i < a.len()
        invariant
            a.len() == b.len(),
            i <= a.len(),
            forall|j: int|
                0 <= j < i ==> term_view((#[trigger] a@[j]).0) == term_view(b@[j].0) && term_view(
                    a@[j].1,
                ) == term_view(b@[j].1),
        decreases a.len() - i,
    {
        if !(a[i].0.same(&b[i].0) && a[i].1.same(&b[i].1)) {
            assert(entries_view(a@)[i as int] != entries_view(b@)[i as int]);
            return false;
        }
        i = i + 1;
    }
    assert(entries_view(a@) =~= entries_view(b@));
    true
}

/// The position of the first entry with the given key, or the number of
/// entries where there is none.
pub fn map_find(entries: &Vec<(Term, Term)>, key: &Term) -> (r: usize)
    ensures
        r == map_index_of(entries_view(entries@), key@),
        r <= entries.len(),
{
    let mut i: usize = 0;
    while i < entries.len()
        invariant
            i <= entries.len(),
            forall|j: int| 0 <= j < i ==> (#[trigger] entries_view(entries@)[j]).0 != key@,
        decreases entries.len() - i,
    {
        if entries[i].0.same(key) {
            proof {
                lemma_assoc_index_of_is(entries_view(entries@), key@, i as int);
            }
            return i;
        }
        i = i + 1;
    }
    proof {
        lemma_assoc_index_of_is(entries_view(entries@), key@, i as int);
    }
    i
}

/// The value of the first entry with the given key.
pub fn map_get<'a>(entries: &'a Vec<(Term, Term)>, key: &Term) -> (r: Option<&'a Term>)
    ensures
        match r {
            Some(value) => map_get_spec(entries_view(entries@), key@) == Some(value@),
            None => map_get_spec(entries_view(entries@), key@) is None,
        },
{
    let i = map_find(entries, key);
    if i < entries.len() {
        Some(&entries[i].1)
    } else {
        None
    }
}

/// Binds `key` to `value`: an entry with that key gets the new value in
/// place, a new key goes to the end.
pub fn map_put(entries: &mut Vec<(Term, Term)>, key: Term, value: Term)
    ensures
        entries_view(final(entries)@) == map_put_spec(entries_view(old(entries)@), key@, value@),
{
    let i = map_find(entries, &key);
    if i < entries.len() {
        entries.set(i, (key, value));
        assert(entries_view(entries@) =~= map_put_spec(
            entries_view(old(entries)@),
            key@,
            value@,
        ));
    } else {
        entries.push((key, value));
        assert(entries_view(entries@) =~= map_put_spec(
            entries_view(old(entries)@),
            key@,
            value@,
        ));
    }
}

} // verus!
