//! The order of names: lexicographic by code point, which for UTF-8 text is
//! the order of the bytes.

use vstd::prelude::*;
use vstd::seq_lib::{to_multiset_build, to_multiset_insert};
use crate::value::names_view;

verus! {

/// Whether `a` comes before `b`: at the first position where they differ `a`
/// has the smaller character, or `a` ends there and `b` goes on.
pub open spec fn name_lt(a: Seq<char>, b: Seq<char>) -> bool
    decreases a.len(),
{
    if b.len() == 0 {
        false
    } else if a.len() == 0 {
        true
    } else if a[0] != b[0] {
        (a[0] as u32) < (b[0] as u32)
    } else {
        name_lt(a.drop_first(), b.drop_first())
    }
}

/// The place of `x` in the ordered sequence `sorted`: the index of the first
/// name that `x` comes before, or the length where there is none.
pub open spec fn insert_position(sorted: Seq<Seq<char>>, x: Seq<char>) -> int
    decreases sorted.len(),
{
    if sorted.len() == 0 {
        0
    } else if name_lt(x, sorted[0]) {
        0
    } else {
        1 + insert_position(sorted.drop_first(), x)
    }
}

/// The first `n` of `names`, in order.
pub open spec fn sorted_upto(names: Seq<Seq<char>>, n: nat) -> Seq<Seq<char>>
    decreases n,
{
    if n == 0 {
        Seq::empty()
    } else {
        let before = sorted_upto(names, (n - 1) as nat);
        before.insert(insert_position(before, names[n - 1]), names[n - 1])
    }
}

/// The names in lexicographic order.
pub open spec fn sorted_names(names: Seq<Seq<char>>) -> Seq<Seq<char>> {
    sorted_upto(names, names.len())
}

/// The characters of a text.
pub fn chars_of(s: &str) -> (r: Vec<char>)
    ensures
        r@ == s@,
{
    let mut out: Vec<char> = Vec::new();
    for ch in it: s.chars()
        invariant
            it.seq() == s@,
            out@ == s@.take(it.index() as int),
    {
        out.push(ch);
        assert(s@.take(it.index() + 1) == s@.take(it.index() as int).push(s@[it.index() as int]));
    }
    assert(s@.take(s@.len() as int) =~= s@);
    out
}

/// Dropping a common first part does not change the order of two names.
proof fn lemma_name_lt_skip(a: Seq<char>, b: Seq<char>, i: int)
    requires
        0 <= i <= a.len(),
        i <= b.len(),
        forall|j: int| 0 <= j < i ==> a[j] == b[j],
    ensures
        name_lt(a, b) == name_lt(a.skip(i), b.skip(i)),
    decreases i,
{
    if i == 0 {
        assert(a.skip(0) =~= a);
        assert(b.skip(0) =~= b);
    } else {
        lemma_name_lt_skip(a.drop_first(), b.drop_first(), i - 1);
        assert(a.drop_first().skip(i - 1) =~= a.skip(i));
        assert(b.drop_first().skip(i - 1) =~= b.skip(i));
    }
}

/// Whether `a` comes before `b` in lexicographic order.
pub fn name_less(a: &str, b: &str) -> (r: bool)
    ensures
        r == name_lt(a@, b@),
{
    let x = chars_of(a);
    let y = chars_of(b);
    let mut i: usize = 0;
    while i < x.len() && i < y.len()
        invariant
            i <= x.len(),
            i <= y.len(),
            x@ == a@,
            y@ == b@,
            forall|j: int| 0 <= j < i ==> x@[j] == y@[j],
        decreases x.len() - i,
    {
        if x[i] != y[i] {
            proof {
                lemma_name_lt_skip(x@, y@, i as int);
            }
            return (x[i] as u32) < (y[i] as u32);
        }
        i = i + 1;
    }
    proof {
        lemma_name_lt_skip(x@, y@, i as int);
    }
    i < y.len()
}

/// An index before which no name follows `x`, and whose name, if there is
/// one, does follow `x`, is the place of `x`.
proof fn lemma_insert_position_is(sorted: Seq<Seq<char>>, x: Seq<char>, i: int)
    requires
        0 <= i <= sorted.len(),
        i < sorted.len() ==> name_lt(x, sorted[i]),
        forall|j: int| 0 <= j < i ==> !name_lt(x, #[trigger] sorted[j]),
    ensures
        insert_position(sorted, x) == i,
    decreases sorted.len(),
{
    if sorted.len() > 0 && i > 0 {
        let rest = sorted.drop_first();
        assert(!name_lt(x, sorted[0]));
        assert forall|j: int| 0 <= j < i - 1 implies !name_lt(x, #[trigger] rest[j]) by {
            assert(rest[j] == sorted[j + 1]);
        }
        lemma_insert_position_is(rest, x, i - 1);
    }
}

/// The names in lexicographic order. Equal names keep their order.
pub fn sort_names(names: &Vec<String>) -> (r: Vec<String>)
    ensures
        names_view(r@) == sorted_names(names_view(names@)),
{
    let mut out: Vec<String> = Vec::new();
    let ghost all = names_view(names@);
    let mut n: usize = 0;
    assert(names_view(out@) =~= sorted_upto(all, 0));
    while n < names.len()
        invariant
            n <= names.len(),
            all == names_view(names@),
            names_view(out@) == sorted_upto(all, n as nat),
        decreases names.len() - n,
    {
        let mut i: usize = 0;
        while i < out.len() && !name_less(names[n].as_str(), out[i].as_str())
            invariant
                i <= out.len(),
                n < names.len(),
                forall|j: int| 0 <= j < i ==> !name_lt(names@[n as int]@, #[trigger] names_view(out@)[j]),
            decreases out.len() - i,
        {
            i = i + 1;
        }
        proof {
            lemma_insert_position_is(names_view(out@), names@[n as int]@, i as int);
        }
        let ghost before = names_view(out@);
        out.insert(i, names[n].clone());
        assert(names_view(out@) =~= before.insert(i as int, names@[n as int]@));
        n = n + 1;
    }
    out
}

/// Whether no name comes before a name that precedes it in the sequence.
pub open spec fn names_ordered(names: Seq<Seq<char>>) -> bool {
    forall|i: int, j: int| 0 <= i < j < names.len() ==> !name_lt(names[j], names[i])
}

/// No name comes before itself.
pub proof fn lemma_name_lt_irreflexive(a: Seq<char>)
    ensures
        !name_lt(a, a),
    decreases a.len(),
{
    if a.len() > 0 {
        lemma_name_lt_irreflexive(a.drop_first());
    }
}

/// The order of names is transitive.
pub proof fn lemma_name_lt_transitive(a: Seq<char>, b: Seq<char>, c: Seq<char>)
    requires
        name_lt(a, b),
        name_lt(b, c),
    ensures
        name_lt(a, c),
    decreases a.len(),
{
    if a.len() > 0 && b.len() > 0 && c.len() > 0 {
        if a[0] == b[0] && b[0] == c[0] {
            lemma_name_lt_transitive(a.drop_first(), b.drop_first(), c.drop_first());
        }
    }
}

/// Of two names, at most one comes before the other.
pub proof fn lemma_name_lt_asymmetric(a: Seq<char>, b: Seq<char>)
    requires
        name_lt(a, b),
    ensures
        !name_lt(b, a),
{
    if name_lt(b, a) {
        lemma_name_lt_transitive(a, b, a);
        lemma_name_lt_irreflexive(a);
    }
}

/// The place of `x` lies behind every name that `x` does not come before
/// and at the first name that it does come before.
pub proof fn lemma_insert_position(sorted: Seq<Seq<char>>, x: Seq<char>)
    ensures
        0 <= insert_position(sorted, x) <= sorted.len(),
        insert_position(sorted, x) < sorted.len() ==> name_lt(
            x,
            sorted[insert_position(sorted, x)],
        ),
        forall|j: int| 0 <= j < insert_position(sorted, x) ==> !name_lt(x, #[trigger] sorted[j]),
    decreases sorted.len(),
{
    if sorted.len() > 0 && !name_lt(x, sorted[0]) {
        let rest = sorted.drop_first();
        lemma_insert_position(rest, x);
        assert forall|j: int| 0 <= j < insert_position(sorted, x) implies !name_lt(
            x,
            #[trigger] sorted[j],
        ) by {
            if j > 0 {
                assert(sorted[j] == rest[j - 1]);
            }
        }
    }
}

/// Putting a name at its place keeps an ordered sequence ordered.
proof fn lemma_insert_keeps_order(sorted: Seq<Seq<char>>, x: Seq<char>)
    requires
        names_ordered(sorted),
    ensures
        names_ordered(sorted.insert(insert_position(sorted, x), x)),
{
    lemma_insert_position(sorted, x);
    let at = insert_position(sorted, x);
    let r = sorted.insert(at, x);
    assert forall|i: int, j: int| 0 <= i < j < r.len() implies !name_lt(r[j], r[i]) by {
        if i == at {
            let behind = sorted[j - 1];
            assert(r[j] == behind);
            lemma_name_lt_asymmetric(x, sorted[at]);
            if name_lt(behind, x) {
                lemma_name_lt_transitive(behind, x, sorted[at]);
            }
        } else if j == at {
            assert(r[i] == sorted[i]);
        } else {
            let i0 = if i < at { i } else { i - 1 };
            let j0 = if j < at { j } else { j - 1 };
            assert(r[i] == sorted[i0]);
            assert(r[j] == sorted[j0]);
        }
    }
}

/// The first `n` names in order are those `n` names, each as often as it
/// occurs among them, and none comes before one that precedes it.
pub proof fn lemma_sorted_upto(names: Seq<Seq<char>>, n: nat)
    requires
        n <= names.len(),
    ensures
        names_ordered(sorted_upto(names, n)),
        sorted_upto(names, n).to_multiset() == names.take(n as int).to_multiset(),
    decreases n,
{
    if n == 0 {
        assert(sorted_upto(names, n) =~= names.take(0));
    } else {
        lemma_sorted_upto(names, (n - 1) as nat);
        let before = sorted_upto(names, (n - 1) as nat);
        let x = names[n - 1];
        lemma_insert_position(before, x);
        lemma_insert_keeps_order(before, x);
        to_multiset_insert(before, insert_position(before, x), x);
        to_multiset_build(names.take(n - 1), x);
        assert(names.take(n - 1).push(x) =~= names.take(n as int));
    }
}

/// Sorting orders and permutes: the result holds each name as often as the
/// input does, and no name in it comes before one that precedes it.
pub proof fn lemma_sorted_names(names: Seq<Seq<char>>)
    ensures
        names_ordered(sorted_names(names)),
        sorted_names(names).to_multiset() == names.to_multiset(),
{
    lemma_sorted_upto(names, names.len());
    assert(names.take(names.len() as int) =~= names);
}

} // verus!
