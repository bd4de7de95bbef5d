use ex_monty::{decode_inputs, InputError, Term, Value};

fn names(names: &[&str]) -> Vec<String> {
    names.iter().map(|n| n.to_string()).collect()
}

fn supplied(inputs: &[(&str, i64)]) -> Vec<(String, Term)> {
    inputs.iter().map(|(n, v)| (n.to_string(), Term::Integer(*v))).collect()
}

#[test]
fn missing_input_is_named() {
    let result = decode_inputs(&supplied(&[("a", 1)]), &names(&["a", "b"]));
    assert_eq!(result, Err(InputError::Missing { names: names(&["b"]) }));
}

#[test]
fn extra_input_is_named() {
    let result = decode_inputs(&supplied(&[("a", 1), ("b", 2), ("c", 3)]), &names(&["a", "b"]));
    assert_eq!(result, Err(InputError::Unexpected { names: names(&["c"]) }));
}

#[test]
fn nothing_declared_and_nothing_supplied_succeeds() {
    assert_eq!(decode_inputs(&vec![], &vec![]), Ok(vec![]));
}

#[test]
fn nothing_declared_and_something_supplied_is_rejected() {
    let result = decode_inputs(&supplied(&[("a", 1), ("b", 2)]), &vec![]);
    assert_eq!(result, Err(InputError::NoneExpected { supplied: 2 }));
}

#[test]
fn values_come_in_declared_order() {
    let result = decode_inputs(
        &supplied(&[("c", 3), ("a", 1), ("b", 2)]),
        &names(&["a", "b", "c"]),
    );
    assert_eq!(result, Ok(vec![Value::Int(1), Value::Int(2), Value::Int(3)]));
}

#[test]
fn values_are_decoded() {
    let inputs = vec![
        ("flag".to_string(), Term::Atom("true".to_string())),
        ("text".to_string(), Term::Binary(b"hi".to_vec())),
    ];
    assert_eq!(
        decode_inputs(&inputs, &names(&["text", "flag"])),
        Ok(vec![Value::Str("hi".to_string()), Value::Bool(true)])
    );
}

#[test]
fn all_missing_inputs_are_named_in_order_of_their_names() {
    let result = decode_inputs(&supplied(&[("m", 1)]), &names(&["z", "m", "b", "a"]));
    assert_eq!(result, Err(InputError::Missing { names: names(&["a", "b", "z"]) }));
    let result = decode_inputs(&vec![], &names(&["b", "a"]));
    assert_eq!(result, Err(InputError::Missing { names: names(&["a", "b"]) }));
}

#[test]
fn all_extra_inputs_are_named_in_order_of_their_names() {
    let result = decode_inputs(&supplied(&[("z", 1), ("a", 2), ("x", 3), ("b", 4)]), &names(&["a"]));
    assert_eq!(result, Err(InputError::Unexpected { names: names(&["b", "x", "z"]) }));
}

#[test]
fn missing_is_reported_before_extra() {
    let result = decode_inputs(&supplied(&[("c", 1)]), &names(&["a"]));
    assert_eq!(result, Err(InputError::Missing { names: names(&["a"]) }));
}

#[test]
fn a_name_declared_twice_is_a_fault_of_the_program() {
    let result = decode_inputs(&supplied(&[("a", 1)]), &names(&["a", "b", "a", "b"]));
    assert_eq!(result, Err(InputError::DuplicateDeclared { name: "a".to_string() }));
    let result = decode_inputs(&vec![], &names(&["x", "y", "y", "x"]));
    assert_eq!(result, Err(InputError::DuplicateDeclared { name: "y".to_string() }));
}

#[test]
fn a_name_supplied_twice_is_rejected() {
    let result = decode_inputs(&supplied(&[("a", 1), ("b", 2), ("a", 3)]), &names(&["a", "b"]));
    assert_eq!(result, Err(InputError::DuplicateSupplied { name: "a".to_string() }));
}

#[test]
fn a_value_without_canonical_value_is_rejected() {
    let inputs = vec![("a".to_string(), Term::Resource)];
    assert_eq!(decode_inputs(&inputs, &names(&["a"])), Err(InputError::Undecodable));
}

#[test]
fn the_first_input_at_fault_decides() {
    let inputs = vec![
        ("a".to_string(), Term::Integer(1)),
        ("b".to_string(), Term::Resource),
        ("a".to_string(), Term::Integer(2)),
    ];
    assert_eq!(decode_inputs(&inputs, &names(&["a", "b"])), Err(InputError::Undecodable));
    let inputs = vec![
        ("a".to_string(), Term::Integer(1)),
        ("a".to_string(), Term::Resource),
        ("b".to_string(), Term::Resource),
    ];
    assert_eq!(
        decode_inputs(&inputs, &names(&["a", "b"])),
        Err(InputError::DuplicateSupplied { name: "a".to_string() })
    );
}

#[test]
fn the_declared_names_are_looked_at_before_the_inputs() {
    let inputs = vec![("a".to_string(), Term::Resource), ("a".to_string(), Term::Resource)];
    assert_eq!(
        decode_inputs(&inputs, &names(&["a", "a"])),
        Err(InputError::DuplicateDeclared { name: "a".to_string() })
    );
}

#[test]
fn the_three_kinds_of_mismatch_differ() {
    let missing = decode_inputs(&supplied(&[("a", 1)]), &names(&["a", "b"])).unwrap_err();
    let extra = decode_inputs(&supplied(&[("a", 1), ("b", 2)]), &names(&["a"])).unwrap_err();
    let twice = decode_inputs(&supplied(&[("a", 1), ("a", 2)]), &names(&["a"])).unwrap_err();
    assert!(matches!(missing, InputError::Missing { .. }));
    assert!(matches!(extra, InputError::Unexpected { .. }));
    assert!(matches!(twice, InputError::DuplicateSupplied { .. }));
}

#[test]
fn messages_name_what_is_wrong() {
    let message = |e: InputError| e.message();
    assert_eq!(
        message(InputError::NoneExpected { supplied: 3 }).as_deref(),
        Some("unexpected inputs: expected none, got 3")
    );
    assert_eq!(
        message(InputError::DuplicateDeclared { name: "x".to_string() }).as_deref(),
        Some("runner has duplicate input name: x")
    );
    assert_eq!(
        message(InputError::DuplicateSupplied { name: "y".to_string() }).as_deref(),
        Some("duplicate input provided: y")
    );
    assert_eq!(
        message(InputError::Missing { names: names(&["a", "b", "c"]) }).as_deref(),
        Some("missing required inputs: a, b, c")
    );
    assert_eq!(
        message(InputError::Unexpected { names: names(&["z"]) }).as_deref(),
        Some("unexpected inputs: z")
    );
    assert_eq!(message(InputError::Undecodable), None);
}

#[test]
fn messages_write_counts_in_decimal() {
    for supplied in [1usize, 9, 10, 11, 99, 100, 1234567890, usize::MAX] {
        assert_eq!(
            InputError::NoneExpected { supplied }.message(),
            Some(format!("unexpected inputs: expected none, got {supplied}"))
        );
    }
}

#[test]
fn messages_of_a_decoded_mismatch() {
    let error = decode_inputs(&supplied(&[("q", 1)]), &names(&["b", "a"])).unwrap_err();
    assert_eq!(error.message().as_deref(), Some("missing required inputs: a, b"));
    let error = decode_inputs(&supplied(&[("a", 1), ("z", 2), ("k", 3)]), &names(&["a"]));
    assert_eq!(error.unwrap_err().message().as_deref(), Some("unexpected inputs: k, z"));
    let error = decode_inputs(&supplied(&[("a", 1)]), &vec![]).unwrap_err();
    assert_eq!(error.message().as_deref(), Some("unexpected inputs: expected none, got 1"));
}
