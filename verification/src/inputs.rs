//! Reconciling the inputs that a caller supplies with the names that a
//! program declares.

use vstd::prelude::*;
use vstd::string::StringExecFns;
use crate::assoc::{assoc_keys, lemma_assoc_index_of};
use crate::decode::{decode_monty_object, decode_spec, named_find, values_by_name};
use crate::names::{sort_names, sorted_names};
use crate::term::{term_view, Term, TermView};
use crate::text::push_char;
use crate::value::{
    named_view,
    names_view,
    opt_str_view,
    value_view,
    values_view,
    Value,
    ValueView,
};

verus! {

/// Why a set of inputs was rejected.
#[derive(Debug, PartialEq, Eq)]
pub enum InputError {
    /// The program declares no input and some were supplied.
    NoneExpected { supplied: usize },
    /// The program declares a name twice.
    DuplicateDeclared { name: String },
    /// A name was supplied twice.
    DuplicateSupplied { name: String },
    /// The value of a supplied input has no canonical value.
    Undecodable,
    /// Declared names without a supplied value, in lexicographic order.
    Missing { names: Vec<String> },
    /// Supplied names that the program does not declare, in lexicographic
    /// order.
    Unexpected { names: Vec<String> },
}

/// Mathematical model of an `InputError`.
pub enum InputErrorView {
    NoneExpected { supplied: nat },
    DuplicateDeclared { name: Seq<char> },
    DuplicateSupplied { name: Seq<char> },
    Undecodable,
    Missing { names: Seq<Seq<char>> },
    Unexpected { names: Seq<Seq<char>> },
}

impl View for InputError {
    type V = InputErrorView;

    open spec fn view(&self) -> InputErrorView {
        match *self {
            InputError::NoneExpected { supplied } => InputErrorView::NoneExpected {
                supplied: supplied as nat,
            },
            InputError::DuplicateDeclared { name } => InputErrorView::DuplicateDeclared {
                name: name@,
            },
            InputError::DuplicateSupplied { name } => InputErrorView::DuplicateSupplied {
                name: name@,
            },
            InputError::Undecodable => InputErrorView::Undecodable,
            InputError::Missing { names } => InputErrorView::Missing { names: names_view(names@) },
            InputError::Unexpected { names } => InputErrorView::Unexpected {
                names: names_view(names@),
            },
        }
    }
}

/// The decimal digit of a number below ten.
pub open spec fn digit_spec(d: nat) -> char {
    if d == 0 {
        '0'
    } else if d == 1 {
        '1'
    } else if d == 2 {
        '2'
    } else if d == 3 {
        '3'
    } else if d == 4 {
        '4'
    } else if d == 5 {
        '5'
    } else if d == 6 {
        '6'
    } else if d == 7 {
        '7'
    } else if d == 8 {
        '8'
    } else {
        '9'
    }
}

/// The decimal digits of a number.
pub open spec fn decimal_spec(n: nat) -> Seq<char>
    decreases n,
{
    if n < 10 {
        seq![digit_spec(n)]
    } else {
        decimal_spec(n / 10).push(digit_spec(n % 10))
    }
}

/// The first `n` names, each but the first set off by a comma and a space.
pub open spec fn joined_upto(names: Seq<Seq<char>>, n: nat) -> Seq<char>
    decreases n,
{
    if n == 0 {
        Seq::empty()
    } else if n == 1 {
        names[0]
    } else {
        joined_upto(names, (n - 1) as nat) + ", "@ + names[n - 1]
    }
}

/// What the caller is told about a rejected set of inputs. An input whose
/// value has no canonical value is a bad argument and has no message.
pub open spec fn message_spec(e: InputErrorView) -> Option<Seq<char>> {
    match e {
        InputErrorView::NoneExpected { supplied } => Some(
            "unexpected inputs: expected none, got "@ + decimal_spec(supplied),
        ),
        InputErrorView::DuplicateDeclared { name } => Some(
            "runner has duplicate input name: "@ + name,
        ),
        InputErrorView::DuplicateSupplied { name } => Some("duplicate input provided: "@ + name),
        InputErrorView::Undecodable => None,
        InputErrorView::Missing { names } => Some(
            "missing required inputs: "@ + joined_upto(names, names.len()),
        ),
        InputErrorView::Unexpected { names } => Some(
            "unexpected inputs: "@ + joined_upto(names, names.len()),
        ),
    }
}

/// Appends the decimal digits of a number.
fn push_decimal(out: &mut String, n: usize)
    ensures
        final(out)@ == old(out)@ + decimal_spec(n as nat),
    decreases n,
{
    let ghost before = out@;
    if n >= 10 {
        push_decimal(out, n / 10);
    }
    let d = n % 10;
    let digit = if d == 0 {
        '0'
    } else if d == 1 {
        '1'
    } else if d == 2 {
        '2'
    } else if d == 3 {
        '3'
    } else if d == 4 {
        '4'
    } else if d == 5 {
        '5'
    } else if d == 6 {
        '6'
    } else if d == 7 {
        '7'
    } else if d == 8 {
        '8'
    } else {
        '9'
    };
    push_char(out, digit);
    assert(out@ =~= before + decimal_spec(n as nat));
}

/// Appends the names, each but the first set off by a comma and a space.
fn push_joined(out: &mut String, names: &Vec<String>)
    ensures
        final(out)@ == old(out)@ + joined_upto(names_view(names@), names.len() as nat),
{
    let ghost before = out@;
    let ghost all = names_view(names@);
    let mut i: usize = 0;
    assert(out@ =~= before + joined_upto(all, 0));
    while i < names.len()
        invariant
            i <= names.len(),
            all == names_view(names@),
            out@ == before + joined_upto(all, i as nat),
        decreases names.len() - i,
    {
        if i > 0 {
            out.append(", ");
        }
        out.append(names[i].as_str());
        assert(out@ =~= before + joined_upto(all, (i + 1) as nat));
        i = i + 1;
    }
}

impl InputError {
    /// What the caller is told about the rejected inputs.
    pub fn message(&self) -> (r: Option<String>)
        ensures
            opt_str_view(r) == message_spec(self@),
    {
        match self {
            InputError::NoneExpected { supplied } => {
                let mut out = "unexpected inputs: expected none, got ".to_owned();
                push_decimal(&mut out, *supplied);
                Some(out)
            },
            InputError::DuplicateDeclared { name } => {
                let mut out = "runner has duplicate input name: ".to_owned();
                out.append(name.as_str());
                Some(out)
            },
            InputError::DuplicateSupplied { name } => {
                let mut out = "duplicate input provided: ".to_owned();
                out.append(name.as_str());
                Some(out)
            },
            InputError::Undecodable => None,
            InputError::Missing { names } => {
                let mut out = "missing required inputs: ".to_owned();
                push_joined(&mut out, names);
                Some(out)
            },
            InputError::Unexpected { names } => {
                let mut out = "unexpected inputs: ".to_owned();
                push_joined(&mut out, names);
                Some(out)
            },
        }
    }
}

/// The model of the supplied inputs.
pub open spec fn inputs_view(inputs: Seq<(String, Term)>) -> Seq<(Seq<char>, TermView)> {
    Seq::new(inputs.len(), |i: int| (inputs[i].0@, term_view(inputs[i].1)))
}

/// The index of the first flag that is set, or the length where none is.
pub open spec fn first_true(flags: Seq<bool>) -> int
    decreases flags.len(),
{
    if flags.len() == 0 {
        0
    } else if flags[0] {
        0
    } else {
        1 + first_true(flags.drop_first())
    }
}

/// Whether the name at `j` occurs before `j` too.
pub open spec fn repeats_earlier(names: Seq<Seq<char>>, j: int) -> bool {
    exists|i: int| 0 <= i < j && names[i] == names[j]
}

/// The index of the first name that occurs earlier too, or the length where
/// all names are distinct.
pub open spec fn first_repeat(names: Seq<Seq<char>>) -> int {
    first_true(Seq::new(names.len(), |j: int| repeats_earlier(names, j)))
}

/// Whether the input at `j` is rejected on its own account: its name was
/// supplied before, or its value has no canonical value.
pub open spec fn input_rejected(inputs: Seq<(Seq<char>, TermView)>, j: int) -> bool {
    repeats_earlier(assoc_keys(inputs), j) || decode_spec(inputs[j].1) is None
}

/// The index of the first input that is rejected on its own account, or the
/// length where none is.
pub open spec fn first_rejected(inputs: Seq<(Seq<char>, TermView)>) -> int {
    first_true(Seq::new(inputs.len(), |j: int| input_rejected(inputs, j)))
}

/// The supplied inputs with their canonical values.
pub open spec fn decoded_inputs(inputs: Seq<(Seq<char>, TermView)>) -> Seq<(Seq<char>, ValueView)> {
    Seq::new(
        inputs.len(),
        |i: int|
            (
                inputs[i].0,
                match decode_spec(inputs[i].1) {
                    Some(v) => v,
                    None => ValueView::NoneValue,
                },
            ),
    )
}

/// Those of the first `n` of `names` that are not among `others`, in order.
pub open spec fn names_outside(names: Seq<Seq<char>>, others: Seq<Seq<char>>, n: nat) -> Seq<
    Seq<char>,
>
    decreases n,
{
    if n == 0 {
        Seq::empty()
    } else {
        let before = names_outside(names, others, (n - 1) as nat);
        if others.contains(names[n - 1]) {
            before
        } else {
            before.push(names[n - 1])
        }
    }
}

/// The declared names that were not supplied, in declared order.
pub open spec fn missing_names(
    inputs: Seq<(Seq<char>, TermView)>,
    expected: Seq<Seq<char>>,
) -> Seq<Seq<char>> {
    names_outside(expected, assoc_keys(inputs), expected.len())
}

/// The supplied names that are not declared, in the order of supply.
pub open spec fn extra_names(
    inputs: Seq<(Seq<char>, TermView)>,
    expected: Seq<Seq<char>>,
) -> Seq<Seq<char>> {
    names_outside(assoc_keys(inputs), expected, inputs.len())
}

/// What reconciling the supplied inputs with the declared names yields.
///
/// Nothing declared: nothing may be supplied. Otherwise, in this order: no
/// declared name may occur twice; no supplied name may occur twice and
/// every supplied value must have a canonical value (the first input at
/// fault decides); every declared name must be supplied; every supplied
/// name must be declared. Then the result is the supplied values in
/// declared order.
pub open spec fn decode_inputs_spec(
    inputs: Seq<(Seq<char>, TermView)>,
    expected: Seq<Seq<char>>,
) -> Result<Seq<ValueView>, InputErrorView> {
    if expected.len() == 0 {
        if inputs.len() == 0 {
            Ok(Seq::empty())
        } else {
            Err(InputErrorView::NoneExpected { supplied: inputs.len() })
        }
    } else if first_repeat(expected) < expected.len() {
        Err(InputErrorView::DuplicateDeclared { name: expected[first_repeat(expected)] })
    } else if first_rejected(inputs) < inputs.len() {
        let at = first_rejected(inputs);
        if repeats_earlier(assoc_keys(inputs), at) {
            Err(InputErrorView::DuplicateSupplied { name: inputs[at].0 })
        } else {
            Err(InputErrorView::Undecodable)
        }
    } else if missing_names(inputs, expected).len() > 0 {
        Err(InputErrorView::Missing { names: sorted_names(missing_names(inputs, expected)) })
    } else if extra_names(inputs, expected).len() > 0 {
        Err(InputErrorView::Unexpected { names: sorted_names(extra_names(inputs, expected)) })
    } else {
        Ok(values_by_name(decoded_inputs(inputs), expected))
    }
}

/// An index whose flag is set, if it has one, with no flag set before it, is
/// the one that `first_true` finds.
pub proof fn lemma_first_true_is(flags: Seq<bool>, i: int)
    requires
        0 <= i <= flags.len(),
        i < flags.len() ==> flags[i],
        forall|j: int| 0 <= j < i ==> !flags[j],
    ensures
        first_true(flags) == i,
    decreases flags.len(),
{
    if flags.len() > 0 && i > 0 {
        let rest = flags.drop_first();
        assert(!flags[0]);
        assert forall|j: int| 0 <= j < i - 1 implies !rest[j] by {
            assert(rest[j] == flags[j + 1]);
        }
        lemma_first_true_is(rest, i - 1);
    }
}

/// Whether `name` is among `names`.
pub fn contains_name(names: &Vec<String>, name: &String) -> (r: bool)
    ensures
        r == names_view(names@).contains(name@),
{
    let mut i: usize = 0;
    while i < names.len()
        invariant
            i <= names.len(),
            forall|j: int| 0 <= j < i ==> names_view(names@)[j] != name@,
        decreases names.len() - i,
    {
        if names[i] == *name {
            assert(names_view(names@)[i as int] == name@);
            return true;
        }
        i = i + 1;
    }
    false
}

/// Whether the name at `j` occurs before `j` too.
fn name_repeats(names: &Vec<String>, j: usize) -> (r: bool)
    requires
        j < names.len(),
    ensures
        r == repeats_earlier(names_view(names@), j as int),
{
    let mut i: usize = 0;
    while i < j
        invariant
            i <= j,
            j < names.len(),
            forall|k: int| 0 <= k < i ==> names_view(names@)[k] != names_view(names@)[j as int],
        decreases j - i,
    {
        if names[i] == names[j] {
            assert(names_view(names@)[i as int] == names_view(names@)[j as int]);
            return true;
        }
        i = i + 1;
    }
    false
}

/// Those of `names` that are not among `others`, in order.
fn collect_outside(names: &Vec<String>, others: &Vec<String>) -> (r: Vec<String>)
    ensures
        names_view(r@) == names_outside(names_view(names@), names_view(others@), names.len() as nat),
{
    let mut out: Vec<String> = Vec::new();
    let mut i: usize = 0;
    assert(names_view(out@) =~= Seq::<Seq<char>>::empty());
    while i < names.len()
        invariant
            i <= names.len(),
            names_view(out@) == names_outside(names_view(names@), names_view(others@), i as nat),
        decreases names.len() - i,
    {
        let ghost before = names_view(out@);
        if !contains_name(others, &names[i]) {
            out.push(names[i].clone());
            assert(names_view(out@) =~= before.push(names@[i as int]@));
        }
        i = i + 1;
    }
    out
}

/// Reconciles the supplied inputs with the names that the program declares
/// and puts the values in declared order.
pub fn decode_inputs(inputs: &Vec<(String, Term)>, expected_input_names: &Vec<String>) -> (r: Result<
    Vec<Value>,
    InputError,
>)
    ensures
        match r {
            Ok(values) => decode_inputs_spec(
                inputs_view(inputs@),
                names_view(expected_input_names@),
            ) == Ok::<Seq<ValueView>, InputErrorView>(values_view(values@)),
            Err(e) => decode_inputs_spec(inputs_view(inputs@), names_view(expected_input_names@))
                == Err::<Seq<ValueView>, InputErrorView>(e@),
        },
{
    let ghost iv = inputs_view(inputs@);
    let ghost ev = names_view(expected_input_names@);
    if expected_input_names.len() == 0 {
        if inputs.len() == 0 {
            let none: Vec<Value> = Vec::new();
            assert(values_view(none@) =~= Seq::<ValueView>::empty());
            return Ok(none);
        }
        return Err(InputError::NoneExpected { supplied: inputs.len() });
    }
    let ghost declared_flags = Seq::new(ev.len(), |j: int| repeats_earlier(ev, j));
    let mut n: usize = 0;
    while n < expected_input_names.len()
        invariant
            n <= expected_input_names.len(),
            ev == names_view(expected_input_names@),
            declared_flags == Seq::new(ev.len(), |j: int| repeats_earlier(ev, j)),
            forall|j: int| 0 <= j < n ==> !declared_flags[j],
        decreases expected_input_names.len() - n,
    {
        if name_repeats(expected_input_names, n) {
            proof {
                lemma_first_true_is(declared_flags, n as int);
            }
            return Err(InputError::DuplicateDeclared { name: expected_input_names[n].clone() });
        }
        n = n + 1;
    }
    proof {
        lemma_first_true_is(declared_flags, ev.len() as int);
    }
    let ghost supplied_flags = Seq::new(iv.len(), |j: int| input_rejected(iv, j));
    let mut provided: Vec<(String, Value)> = Vec::new();
    let mut supplied: Vec<String> = Vec::new();
    let mut k: usize = 0;
    while k < inputs.len()
        invariant
            k <= inputs.len(),
            iv == inputs_view(inputs@),
            ev == names_view(expected_input_names@),
            ev.len() > 0,
            first_repeat(ev) == ev.len(),
            supplied_flags == Seq::new(iv.len(), |j: int| input_rejected(iv, j)),
            forall|j: int| 0 <= j < k ==> !supplied_flags[j],
            provided.len() == k,
            supplied.len() == k,
            forall|j: int| 0 <= j < k ==> (#[trigger] supplied@[j])@ == iv[j].0,
            forall|j: int|
                0 <= j < k ==> (#[trigger] provided@[j]).0@ == iv[j].0 && decode_spec(iv[j].1) == Some(
                    value_view(provided@[j].1),
                ),
        decreases inputs.len() - k,
    {
        supplied.push(inputs[k].0.clone());
        let repeated = name_repeats(&supplied, k);
        proof {
            let sv = names_view(supplied@);
            let keys = assoc_keys(iv);
            if repeats_earlier(sv, k as int) {
                let i = choose|i: int| 0 <= i < k && sv[i] == sv[k as int];
                assert(keys[i] == keys[k as int]);
            }
            if repeats_earlier(keys, k as int) {
                let i = choose|i: int| 0 <= i < k && keys[i] == keys[k as int];
                assert(sv[i] == sv[k as int]);
            }
        }
        if repeated {
            proof {
                assert(supplied_flags[k as int]);
                lemma_first_true_is(supplied_flags, k as int);
            }
            return Err(InputError::DuplicateSupplied { name: inputs[k].0.clone() });
        }
        match decode_monty_object(&inputs[k].1) {
            Ok(value) => {
                provided.push((inputs[k].0.clone(), value));
            },
            Err(_) => {
                proof {
                    assert(decode_spec(iv[k as int].1) is None);
                    assert(supplied_flags[k as int]);
                    lemma_first_true_is(supplied_flags, k as int);
                }
                return Err(InputError::Undecodable);
            },
        }
        k = k + 1;
    }
    proof {
        lemma_first_true_is(supplied_flags, iv.len() as int);
        assert(names_view(supplied@) =~= assoc_keys(iv));
        assert(named_view(provided@) =~= decoded_inputs(iv));
    }
    let missing = collect_outside(expected_input_names, &supplied);
    if missing.len() > 0 {
        return Err(InputError::Missing { names: sort_names(&missing) });
    }
    let extra = collect_outside(&supplied, expected_input_names);
    if extra.len() > 0 {
        return Err(InputError::Unexpected { names: sort_names(&extra) });
    }
    let mut ordered: Vec<Value> = Vec::new();
    let mut m: usize = 0;
    while m < expected_input_names.len()
        invariant
            m <= expected_input_names.len(),
            ordered.len() == m,
            forall|j: int|
                0 <= j < m ==> value_view(#[trigger] ordered@[j]) == values_by_name(
                    named_view(provided@),
                    names_view(expected_input_names@),
                )[j],
        decreases expected_input_names.len() - m,
    {
        let at = named_find(&provided, &expected_input_names[m]);
        proof {
            lemma_assoc_index_of(named_view(provided@), expected_input_names@[m as int]@);
        }
        if at < provided.len() {
            ordered.push(provided[at].1.duplicate());
        } else {
            ordered.push(Value::NoneValue);
        }
        m = m + 1;
    }
    assert(values_view(ordered@) =~= values_by_name(
        named_view(provided@),
        names_view(expected_input_names@),
    ));
    Ok(ordered)
}

/// The names outside `others` are exactly that: a name is among them if
/// and only if it is one of the first `n` of `names` and not one of
/// `others`.
pub proof fn lemma_names_outside(names: Seq<Seq<char>>, others: Seq<Seq<char>>, n: nat)
    requires
        n <= names.len(),
    ensures
        forall|x: Seq<char>|
            #[trigger] names_outside(names, others, n).contains(x) <==> names.take(
                n as int,
            ).contains(x) && !others.contains(x),
    decreases n,
{
    let result = names_outside(names, others, n);
    let prefix = names.take(n as int);
    if n == 0 {
        assert forall|x: Seq<char>| #[trigger]
            result.contains(x) <==> prefix.contains(x) && !others.contains(x) by {
            if result.contains(x) {
                let i = choose|i: int| 0 <= i < result.len() && result[i] == x;
            }
            if prefix.contains(x) {
                let i = choose|i: int| 0 <= i < prefix.len() && prefix[i] == x;
            }
        }
    } else {
        lemma_names_outside(names, others, (n - 1) as nat);
        let before = names_outside(names, others, (n - 1) as nat);
        let shorter = names.take(n - 1);
        let last = names[n - 1];
        assert(shorter == names.take(((n - 1) as nat) as int));
        assert forall|x: Seq<char>| #[trigger]
            result.contains(x) <==> prefix.contains(x) && !others.contains(x) by {
            if result.contains(x) {
                let i = choose|i: int| 0 <= i < result.len() && result[i] == x;
                if i < before.len() {
                    assert(before[i] == x);
                    assert(before.contains(x));
                    assert(shorter.contains(x) && !others.contains(x));
                    let j = choose|j: int| 0 <= j < shorter.len() && shorter[j] == x;
                    assert(prefix[j] == x);
                } else {
                    assert(x == last);
                    assert(prefix[n - 1] == x);
                }
            }
            if prefix.contains(x) && !others.contains(x) {
                let j = choose|j: int| 0 <= j < prefix.len() && prefix[j] == x;
                if j < n - 1 {
                    assert(shorter[j] == x);
                    assert(shorter.contains(x));
                    assert(before.contains(x));
                    let i = choose|i: int| 0 <= i < before.len() && before[i] == x;
                    assert(result[i] == x);
                } else {
                    assert(x == last);
                    assert(result[result.len() - 1] == x);
                }
            }
        }
    }
}

/// A missing input is a declared name that was not supplied, and an extra
/// input is a supplied name that is not declared; each list holds all of
/// its kind.
pub proof fn lemma_missing_and_extra(inputs: Seq<(Seq<char>, TermView)>, expected: Seq<Seq<char>>)
    ensures
        forall|x: Seq<char>|
            #[trigger] missing_names(inputs, expected).contains(x) <==> expected.contains(x)
                && !assoc_keys(inputs).contains(x),
        forall|x: Seq<char>|
            #[trigger] extra_names(inputs, expected).contains(x) <==> assoc_keys(inputs).contains(
                x,
            ) && !expected.contains(x),
{
    lemma_names_outside(expected, assoc_keys(inputs), expected.len());
    assert(expected.take(expected.len() as int) =~= expected);
    let keys = assoc_keys(inputs);
    lemma_names_outside(keys, expected, keys.len());
    assert(keys.take(keys.len() as int) =~= keys);
}

} // verus!
