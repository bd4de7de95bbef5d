use ex_monty::{
    encode_monty_exception, encode_resource_error, encode_stack_frame, BigInt, CodeLoc,
    MontyException, ResourceError, StackFrame, Term,
};

fn atom(name: &str) -> Term {
    Term::Atom(name.to_string())
}

fn text(s: &str) -> Term {
    Term::Binary(s.as_bytes().to_vec())
}

fn frame(name: Option<&str>) -> StackFrame {
    StackFrame {
        filename: "main.py".to_string(),
        start: CodeLoc { line: 3, column: 5 },
        end: CodeLoc { line: 4, column: 9 },
        frame_name: name.map(|n| n.to_string()),
    }
}

fn frame_record(name: Term) -> Term {
    Term::Mapping(vec![
        (atom("__struct__"), atom("Elixir.ExMonty.StackFrame")),
        (atom("filename"), text("main.py")),
        (atom("line"), Term::Integer(3)),
        (atom("column"), Term::Integer(5)),
        (atom("end_line"), Term::Integer(4)),
        (atom("end_column"), Term::Integer(9)),
        (atom("name"), name),
    ])
}

#[test]
fn encode_stack_frame_record() {
    assert_eq!(encode_stack_frame(&frame(Some("helper"))), frame_record(text("helper")));
    assert_eq!(encode_stack_frame(&frame(None)), frame_record(atom("nil")));
}

#[test]
fn encode_stack_frame_covers_32_bits() {
    let wide = StackFrame {
        filename: String::new(),
        start: CodeLoc { line: u32::MAX, column: 0 },
        end: CodeLoc { line: 0, column: u32::MAX },
        frame_name: None,
    };
    let Term::Mapping(entries) = encode_stack_frame(&wide) else {
        panic!("expected a mapping");
    };
    assert_eq!(entries[2], (atom("line"), Term::Integer(u32::MAX as i64)));
    assert_eq!(entries[5], (atom("end_column"), Term::Integer(u32::MAX as i64)));
}

#[test]
fn encode_exception_with_traceback() {
    let exc = MontyException {
        exc_type: "ZeroDivisionError".to_string(),
        message: Some("division by zero".to_string()),
        traceback: vec![frame(None), frame(Some("f"))],
    };
    assert_eq!(
        encode_monty_exception(&exc),
        Term::Mapping(vec![
            (atom("__struct__"), atom("Elixir.ExMonty.Exception")),
            (atom("type"), atom("zero_division_error")),
            (atom("message"), text("division by zero")),
            (
                atom("traceback"),
                Term::List(vec![frame_record(atom("nil")), frame_record(text("f"))]),
            ),
        ])
    );
}

#[test]
fn encode_exception_without_message() {
    let exc = MontyException { exc_type: "KeyError".to_string(), message: None, traceback: vec![] };
    assert_eq!(
        encode_monty_exception(&exc),
        Term::Mapping(vec![
            (atom("__struct__"), atom("Elixir.ExMonty.Exception")),
            (atom("type"), atom("key_error")),
            (atom("message"), atom("nil")),
            (atom("traceback"), Term::List(vec![])),
        ])
    );
}

#[test]
fn encode_resource_errors_as_triples() {
    assert_eq!(
        encode_resource_error(&ResourceError::Allocation { limit: 10, count: 11 }),
        Term::Tuple(vec![atom("allocation_limit"), Term::Integer(10), Term::Integer(11)])
    );
    assert_eq!(
        encode_resource_error(&ResourceError::Memory { limit: 1024, used: 2048 }),
        Term::Tuple(vec![atom("memory_limit"), Term::Integer(1024), Term::Integer(2048)])
    );
    assert_eq!(
        encode_resource_error(&ResourceError::Recursion { limit: 100, depth: 101 }),
        Term::Tuple(vec![atom("recursion_limit"), Term::Integer(100), Term::Integer(101)])
    );
    assert_eq!(
        encode_resource_error(&ResourceError::Time {
            limit_secs: 1.0f64.to_bits(),
            elapsed_secs: 1.25f64.to_bits(),
        }),
        Term::Tuple(vec![
            atom("time_limit"),
            Term::Float(1.0f64.to_bits()),
            Term::Float(1.25f64.to_bits()),
        ])
    );
}

#[test]
fn encode_resource_error_with_counts_beyond_63_bits() {
    assert_eq!(
        encode_resource_error(&ResourceError::Memory { limit: i64::MAX as u64, used: u64::MAX }),
        Term::Tuple(vec![
            atom("memory_limit"),
            Term::Integer(i64::MAX),
            Term::BigInteger(BigInt::from_u64(u64::MAX)),
        ])
    );
}

#[test]
fn encode_resource_error_that_is_an_exception() {
    let error = ResourceError::Exception(MontyException {
        exc_type: "RecursionError".to_string(),
        message: Some("too deep".to_string()),
        traceback: vec![],
    });
    assert_eq!(
        encode_resource_error(&error),
        Term::Mapping(vec![
            (atom("__struct__"), atom("Elixir.ExMonty.Exception")),
            (atom("type"), atom("recursion_error")),
            (atom("message"), text("too deep")),
            (atom("traceback"), Term::List(vec![])),
        ])
    );
}
