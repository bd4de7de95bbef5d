//! Naming conventions of the bridge: conversion between capitalized-compound
//! names (`ValueError`) and word-separated names (`value_error`).

use vstd::prelude::*;

verus! {

/// Whether a character is uppercase in the sense of Unicode, as
/// `char::is_uppercase` reports it.
pub uninterp spec fn is_uppercase_char(c: char) -> bool;

/// The uppercase mapping of a character, as `char::to_uppercase` yields it
/// (one to three characters).
pub uninterp spec fn uppercase_of(c: char) -> Seq<char>;

/// The ASCII lowercase mapping: `A`..`Z` move to `a`..`z`, every other
/// character stays.
pub open spec fn ascii_lowercase_of(c: char) -> char {
    if 'A' <= c && c <= 'Z' {
        ((c as u8) + 32u8) as char
    } else {
        c
    }
}

/// Calls `char::is_uppercase`. Trusted: the result is what Unicode lays down,
/// which this library only names.
#[verifier::external_body]
fn char_is_uppercase(c: char) -> (r: bool)
    ensures
        r == is_uppercase_char(c),
{
    c.is_uppercase()
}

/// Calls `char::to_uppercase` and collects the characters it yields.
/// Trusted: the result is the Unicode mapping, which this library only names.
#[verifier::external_body]
fn char_to_uppercase(c: char) -> (r: Vec<char>)
    ensures
        r@ == uppercase_of(c),
{
    c.to_uppercase().collect()
}

/// The ASCII lowercase of a character.
fn char_to_ascii_lowercase(c: char) -> (r: char)
    ensures
        r == ascii_lowercase_of(c),
{
    if 'A' <= c && c <= 'Z' {
        ((c as u8) + 32u8) as char
    } else {
        c
    }
}

/// Calls `String::push`. Trusted: the character is appended.
#[verifier::external_body]
pub(crate) fn push_char(s: &mut String, c: char)
    ensures
        final(s)@ == old(s)@.push(c),
{
    s.push(c)
}

/// What `snake_case` emits for the character `c`; `first` says whether it is
/// the first character of the name.
pub open spec fn snake_piece(c: char, first: bool) -> Seq<char> {
    if is_uppercase_char(c) {
        if first {
            seq![ascii_lowercase_of(c)]
        } else {
            seq!['_', ascii_lowercase_of(c)]
        }
    } else {
        seq![c]
    }
}

/// The word-separated form of the first `n` characters of `s`.
pub open spec fn snake_case_upto(s: Seq<char>, n: int) -> Seq<char>
    decreases n,
{
    if n <= 0 {
        Seq::empty()
    } else {
        snake_case_upto(s, n - 1) + snake_piece(s[n - 1], n == 1)
    }
}

/// The word-separated form of a name: every uppercase character is
/// lowercased (ASCII only) and, unless it comes first, preceded by `_`.
pub open spec fn snake_case_spec(s: Seq<char>) -> Seq<char> {
    snake_case_upto(s, s.len() as int)
}

/// What `pascal_case` emits for the character at index `i` of `s`: nothing
/// for a separator, the uppercase mapping for the first character of a word,
/// the character itself otherwise.
pub open spec fn pascal_piece(s: Seq<char>, i: int) -> Seq<char> {
    if s[i] == '_' {
        Seq::empty()
    } else if i == 0 || s[i - 1] == '_' {
        uppercase_of(s[i])
    } else {
        seq![s[i]]
    }
}

/// The capitalized-compound form of the first `n` characters of `s`.
pub open spec fn pascal_case_upto(s: Seq<char>, n: int) -> Seq<char>
    decreases n,
{
    if n <= 0 {
        Seq::empty()
    } else {
        pascal_case_upto(s, n - 1) + pascal_piece(s, n - 1)
    }
}

/// The capitalized-compound form of a name: the words between `_`
/// separators, each with its first character uppercased, joined without
/// separators.
pub open spec fn pascal_case_spec(s: Seq<char>) -> Seq<char> {
    pascal_case_upto(s, s.len() as int)
}

/// Whether some character of `s` is uppercase.
pub open spec fn has_uppercase(s: Seq<char>) -> bool {
    exists|i: int| 0 <= i < s.len() && is_uppercase_char(#[trigger] s[i])
}

/// The canonical type name of a named tuple: a name that already holds a
/// capital is kept, any other is read as word-separated and capitalized.
pub open spec fn normalize_type_name_spec(s: Seq<char>) -> Seq<char> {
    if has_uppercase(s) {
        s
    } else {
        pascal_case_spec(s)
    }
}

/// Appends every character of `chars` to `out`.
fn push_all(out: &mut String, chars: &Vec<char>)
    ensures
        final(out)@ == old(out)@ + chars@,
{
    let mut i: usize = 0;
    while i < chars.len()
        invariant
            i <= chars.len(),
            out@ == old(out)@ + chars@.take(i as int),
        decreases chars.len() - i,
    {
        push_char(out, chars[i]);
        assert(chars@.take(i as int + 1) == chars@.take(i as int).push(chars@[i as int]));
        i = i + 1;
    }
}

/// Appends what the word-separated form holds for one character. `uppercase`
/// says whether the character is uppercase, `first` whether it is the first
/// of the name.
pub fn snake_case_step(out: &mut String, ch: char, uppercase: bool, first: bool)
    ensures
        final(out)@ == old(out)@ + (if uppercase {
            if first {
                seq![ascii_lowercase_of(ch)]
            } else {
                seq!['_', ascii_lowercase_of(ch)]
            }
        } else {
            seq![ch]
        }),
{
    let ghost before = out@;
    if uppercase {
        if !first {
            push_char(out, '_');
        }
        push_char(out, char_to_ascii_lowercase(ch));
        assert(out@ =~= before + (if first {
            seq![ascii_lowercase_of(ch)]
        } else {
            seq!['_', ascii_lowercase_of(ch)]
        }));
    } else {
        push_char(out, ch);
        assert(out@ =~= before + seq![ch]);
    }
}

/// Converts a capitalized-compound name to its word-separated form.
pub fn snake_case(s: &str) -> (r: String)
    ensures
        r@ == snake_case_spec(s@),
{
    let mut result = String::new();
    let mut first = true;
    for ch in it: s.chars()
        invariant
            it.seq() == s@,
            first == (it.index() == 0),
            result@ == snake_case_upto(s@, it.index() as int),
    {
        snake_case_step(&mut result, ch, char_is_uppercase(ch), first);
        first = false;
    }
    result
}

/// Appends what the capitalized-compound form holds for one character and
/// says whether the next character starts a word. `word_start` says whether
/// this character starts one, `upper` is its uppercase mapping and is looked
/// at only where it does.
pub fn pascal_case_step(out: &mut String, ch: char, word_start: bool, upper: &Vec<char>) -> (next: bool)
    ensures
        next == (ch == '_'),
        final(out)@ == old(out)@ + (if ch == '_' {
            Seq::empty()
        } else if word_start {
            upper@
        } else {
            seq![ch]
        }),
{
    let ghost before = out@;
    if ch == '_' {
        assert(out@ =~= before + Seq::<char>::empty());
        true
    } else {
        if word_start {
            push_all(out, upper);
        } else {
            push_char(out, ch);
            assert(out@ =~= before + seq![ch]);
        }
        false
    }
}

/// Converts a word-separated name to its capitalized-compound form.
pub fn pascal_case(s: &str) -> (r: String)
    ensures
        r@ == pascal_case_spec(s@),
{
    let mut result = String::new();
    let mut word_start = true;
    for ch in it: s.chars()
        invariant
            it.seq() == s@,
            result@ == pascal_case_upto(s@, it.index() as int),
            word_start == (it.index() == 0 || s@[it.index() - 1] == '_'),
    {
        let upper = if word_start && ch != '_' {
            char_to_uppercase(ch)
        } else {
            Vec::new()
        };
        word_start = pascal_case_step(&mut result, ch, word_start, &upper);
    }
    result
}

/// Whether some character of `s` is uppercase.
pub fn contains_uppercase(s: &str) -> (r: bool)
    ensures
        r == has_uppercase(s@),
{
    for ch in it: s.chars()
        invariant
            it.seq() == s@,
            forall|j: int| 0 <= j < it.index() ==> !is_uppercase_char(#[trigger] s@[j]),
    {
        if char_is_uppercase(ch) {
            return true;
        }
    }
    false
}

/// The canonical form of a type name, given whether the name holds a
/// capital: the name itself where it holds one, its capitalized-compound
/// form where it holds none.
pub fn normalize_type_name_given(s: &str, capital: bool) -> (r: String)
    ensures
        r@ == if capital {
            s@
        } else {
            pascal_case_spec(s@)
        },
{
    if capital {
        s.to_owned()
    } else {
        pascal_case(s)
    }
}

/// Brings the type name of a named tuple to its canonical form: a name with
/// a capital in it is kept as it is, any other is capitalized word by word.
pub fn normalize_namedtuple_type_name(s: &str) -> (r: String)
    ensures
        r@ == normalize_type_name_spec(s@),
{
    normalize_type_name_given(s, contains_uppercase(s))
}

} // verus!
