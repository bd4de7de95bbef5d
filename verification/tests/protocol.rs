use ex_monty::{
    decode_external_result, encode_function_call, encode_kwargs, encode_os_call,
    encode_os_function, encode_run_progress, parse_exc_type, pending_call_ids, resume,
    resume_futures, run, run_no_limits, start, Continuation, DecodeError, ExternalResult,
    FutureSnapshotResource, InputError, MontyException, OsFunction, ResourceLimits, ResumeError,
    RunProgress, RunnerResource, SnapshotResource, StartError, Term, Value,
};

fn atom(name: &str) -> Term {
    Term::Atom(name.to_string())
}

fn text(s: &str) -> Term {
    Term::Binary(s.as_bytes().to_vec())
}

fn ok(value: Term) -> Term {
    Term::Tuple(vec![atom("ok"), value])
}

fn failure(exc_type: &str, message: &str) -> ExternalResult {
    ExternalResult::Error(MontyException {
        exc_type: exc_type.to_string(),
        message: Some(message.to_string()),
        traceback: vec![],
    })
}

#[test]
fn take_yields_the_continuation_once() {
    let mut slot = SnapshotResource::new("state");
    assert_eq!(slot.take(), Some("state"));
    assert_eq!(slot.take(), None);
    assert_eq!(slot.take(), None);
}

#[test]
fn take_yields_the_batch_continuation_once() {
    let mut slot = FutureSnapshotResource::new(vec![1u32, 2]);
    assert_eq!(slot.take(), Some(vec![1, 2]));
    assert_eq!(slot.take(), None);
}

#[test]
fn with_looks_without_taking() {
    let mut slot = FutureSnapshotResource::new(vec![7u32, 9]);
    assert_eq!(slot.with(|ids| ids.len()), Some(2));
    assert_eq!(slot.with(|ids| ids[1]), Some(9));
    assert_eq!(slot.take(), Some(vec![7, 9]));
    assert_eq!(slot.with(|ids| ids.len()), None);
}

#[test]
fn resume_twice_fails_the_second_time() {
    let mut slot = SnapshotResource::new(17u8);
    assert_eq!(
        resume(&mut slot, &ok(Term::Integer(10))),
        Ok((17, ExternalResult::Return(Value::Int(10))))
    );
    assert_eq!(resume(&mut slot, &ok(Term::Integer(10))), Err(ResumeError::AlreadyConsumed));
    assert_eq!(resume(&mut slot, &Term::Resource), Err(ResumeError::AlreadyConsumed));
}

#[test]
fn resume_consumes_even_where_the_result_is_rejected() {
    let mut slot = SnapshotResource::new(17u8);
    assert_eq!(resume(&mut slot, &Term::Resource), Err(ResumeError::Undecodable));
    assert_eq!(resume(&mut slot, &ok(Term::Integer(1))), Err(ResumeError::AlreadyConsumed));
}

#[test]
fn resume_after_take_fails() {
    let mut slot = SnapshotResource::new(17u8);
    assert_eq!(slot.take(), Some(17));
    assert_eq!(resume(&mut slot, &ok(Term::Integer(1))), Err(ResumeError::AlreadyConsumed));
}

#[test]
fn resume_futures_decodes_each_result_under_its_id() {
    let mut slot = FutureSnapshotResource::new("batch");
    let results = vec![
        (3u32, ok(text("done"))),
        (1u32, Term::Tuple(vec![atom("error"), atom("value_error"), text("bad")])),
    ];
    assert_eq!(
        resume_futures(&mut slot, &results),
        Ok((
            "batch",
            vec![
                (3, ExternalResult::Return(Value::Str("done".to_string()))),
                (1, failure("ValueError", "bad")),
            ],
        ))
    );
    assert_eq!(resume_futures(&mut slot, &results), Err(ResumeError::AlreadyConsumed));
}

#[test]
fn resume_futures_takes_no_results_too() {
    let mut slot = FutureSnapshotResource::new("batch");
    assert_eq!(resume_futures(&mut slot, &vec![]), Ok(("batch", vec![])));
    assert_eq!(resume_futures(&mut slot, &vec![]), Err(ResumeError::AlreadyConsumed));
}

#[test]
fn resume_futures_consumes_even_where_a_result_is_rejected() {
    let mut slot = FutureSnapshotResource::new("batch");
    let results = vec![(0u32, ok(Term::Integer(1))), (1u32, ok(Term::Resource))];
    assert_eq!(resume_futures(&mut slot, &results), Err(ResumeError::Undecodable));
    assert_eq!(resume_futures(&mut slot, &vec![]), Err(ResumeError::AlreadyConsumed));
}

#[test]
fn pending_call_ids_leaves_the_continuation() {
    let mut slot = FutureSnapshotResource::new(vec![4u32, 5, 6]);
    assert_eq!(pending_call_ids(&slot, |ids| ids.clone()), Ok(vec![4, 5, 6]));
    assert_eq!(pending_call_ids(&slot, |ids| ids.clone()), Ok(vec![4, 5, 6]));
    slot.take();
    assert_eq!(pending_call_ids(&slot, |ids| ids.clone()), Err(ResumeError::AlreadyConsumed));
}

#[test]
fn decode_external_ok_is_the_value() {
    assert_eq!(
        decode_external_result(&ok(Term::Integer(10))),
        Ok(ExternalResult::Return(Value::Int(10)))
    );
    // What comes after the value is not looked at.
    let long = Term::Tuple(vec![atom("ok"), Term::Integer(1), Term::Resource]);
    assert_eq!(decode_external_result(&long), Ok(ExternalResult::Return(Value::Int(1))));
    assert_eq!(decode_external_result(&ok(Term::Resource)), Err(DecodeError));
}

#[test]
fn decode_external_plain_term_is_the_value() {
    assert_eq!(
        decode_external_result(&Term::Integer(10)),
        Ok(ExternalResult::Return(Value::Int(10)))
    );
    assert_eq!(
        decode_external_result(&atom("ok")),
        Ok(ExternalResult::Return(Value::Str("ok".to_string())))
    );
    let single = Term::Tuple(vec![atom("ok")]);
    assert_eq!(
        decode_external_result(&single),
        Ok(ExternalResult::Return(Value::Tuple(vec![Value::Str("ok".to_string())])))
    );
    let other_tag = Term::Tuple(vec![atom("fine"), Term::Integer(1)]);
    assert_eq!(
        decode_external_result(&other_tag),
        Ok(ExternalResult::Return(Value::Tuple(vec![
            Value::Str("fine".to_string()),
            Value::Int(1),
        ])))
    );
    let text_tag = Term::Tuple(vec![text("ok"), Term::Integer(1)]);
    assert_eq!(
        decode_external_result(&text_tag),
        Ok(ExternalResult::Return(Value::Tuple(vec![
            Value::Str("ok".to_string()),
            Value::Int(1),
        ])))
    );
    assert_eq!(decode_external_result(&Term::Resource), Err(DecodeError));
}

#[test]
fn decode_external_error_with_tag_and_message() {
    let by_atom = Term::Tuple(vec![atom("error"), atom("key_error"), text("no such key")]);
    assert_eq!(decode_external_result(&by_atom), Ok(failure("KeyError", "no such key")));
    let by_text = Term::Tuple(vec![atom("error"), text("TypeError"), text("not a number")]);
    assert_eq!(decode_external_result(&by_text), Ok(failure("TypeError", "not a number")));
}

#[test]
fn decode_external_error_with_message_only() {
    let pair = Term::Tuple(vec![atom("error"), text("it broke")]);
    assert_eq!(decode_external_result(&pair), Ok(failure("RuntimeError", "it broke")));
    let no_text = Term::Tuple(vec![atom("error"), atom("boom")]);
    assert_eq!(decode_external_result(&no_text), Ok(failure("RuntimeError", "unknown error")));
    let wide = Term::Tuple(vec![atom("error"), text("a"), text("b"), text("c")]);
    assert_eq!(decode_external_result(&wide), Ok(failure("RuntimeError", "a")));
}

#[test]
fn decode_external_error_falls_back_where_a_part_is_of_another_kind() {
    let no_tag = Term::Tuple(vec![atom("error"), Term::Integer(1), text("m")]);
    assert_eq!(decode_external_result(&no_tag), Ok(failure("RuntimeError", "m")));
    let no_message = Term::Tuple(vec![atom("error"), atom("value_error"), Term::Integer(1)]);
    assert_eq!(decode_external_result(&no_message), Ok(failure("ValueError", "unknown error")));
    let unknown = Term::Tuple(vec![atom("error"), atom("no_such_error"), text("m")]);
    assert_eq!(decode_external_result(&unknown), Ok(failure("RuntimeError", "m")));
}

#[test]
fn parse_exc_type_accepts_the_engines_own_names() {
    for name in ["ValueError", "KeyError", "ZeroDivisionError", "OSError", "RuntimeError"] {
        assert_eq!(parse_exc_type(name), name);
    }
}

#[test]
fn parse_exc_type_accepts_word_separated_names() {
    assert_eq!(parse_exc_type("value_error"), "ValueError");
    assert_eq!(parse_exc_type("zero_division_error"), "ZeroDivisionError");
    assert_eq!(parse_exc_type("o_s_error"), "OSError");
    assert_eq!(parse_exc_type("stop_iteration"), "StopIteration");
}

#[test]
fn parse_exc_type_falls_back_to_the_runtime_error() {
    assert_eq!(parse_exc_type("NoSuchError"), "RuntimeError");
    assert_eq!(parse_exc_type("no_such_error"), "RuntimeError");
    assert_eq!(parse_exc_type(""), "RuntimeError");
    assert_eq!(parse_exc_type("valueerror"), "RuntimeError");
    assert_eq!(parse_exc_type("VALUE_ERROR"), "RuntimeError");
}

#[test]
fn encode_os_function_names() {
    let names = [
        (OsFunction::Exists, "exists"),
        (OsFunction::IsFile, "is_file"),
        (OsFunction::IsDir, "is_dir"),
        (OsFunction::IsSymlink, "is_symlink"),
        (OsFunction::ReadText, "read_text"),
        (OsFunction::ReadBytes, "read_bytes"),
        (OsFunction::WriteText, "write_text"),
        (OsFunction::WriteBytes, "write_bytes"),
        (OsFunction::Mkdir, "mkdir"),
        (OsFunction::Unlink, "unlink"),
        (OsFunction::Rmdir, "rmdir"),
        (OsFunction::Iterdir, "iterdir"),
        (OsFunction::Stat, "stat"),
        (OsFunction::Rename, "rename"),
        (OsFunction::Resolve, "resolve"),
        (OsFunction::Absolute, "absolute"),
        (OsFunction::Getenv, "getenv"),
        (OsFunction::GetEnviron, "get_environ"),
    ];
    for (function, name) in names {
        assert_eq!(encode_os_function(&function), atom(name));
    }
}

#[test]
fn encode_kwargs_as_mapping() {
    let kwargs = vec![
        (Value::Str("timeout".to_string()), Value::Int(3)),
        (Value::Str("retry".to_string()), Value::Bool(false)),
    ];
    assert_eq!(
        encode_kwargs(&kwargs),
        Term::Mapping(vec![(text("timeout"), Term::Integer(3)), (text("retry"), atom("false"))])
    );
    assert_eq!(encode_kwargs(&vec![]), Term::Mapping(vec![]));
}

fn function_call_record(name: &str, args: Vec<Term>, kwargs: Vec<(Term, Term)>, id: i64) -> Term {
    Term::Mapping(vec![
        (atom("__struct__"), atom("Elixir.ExMonty.FunctionCall")),
        (atom("name"), text(name)),
        (atom("args"), Term::List(args)),
        (atom("kwargs"), Term::Mapping(kwargs)),
        (atom("call_id"), Term::Integer(id)),
    ])
}

#[test]
fn encode_function_call_record() {
    let args = vec![Value::Int(5), Value::NoneValue];
    let kwargs = vec![(Value::Str("k".to_string()), Value::Int(1))];
    assert_eq!(
        encode_function_call("fetch", &args, &kwargs, 7),
        function_call_record(
            "fetch",
            vec![Term::Integer(5), atom("nil")],
            vec![(text("k"), Term::Integer(1))],
            7,
        )
    );
    assert_eq!(
        encode_function_call("f", &vec![], &vec![], u32::MAX),
        function_call_record("f", vec![], vec![], u32::MAX as i64)
    );
}

#[test]
fn encode_os_call_record() {
    let args = vec![Value::Path("/tmp".to_string())];
    assert_eq!(
        encode_os_call(&OsFunction::ReadText, &args, &vec![], 2),
        Term::Mapping(vec![
            (atom("__struct__"), atom("Elixir.ExMonty.OsCall")),
            (atom("function"), atom("read_text")),
            (atom("args"), Term::List(vec![Term::Tuple(vec![atom("path"), text("/tmp")])])),
            (atom("kwargs"), Term::Mapping(vec![])),
            (atom("call_id"), Term::Integer(2)),
        ])
    );
}

#[test]
fn encode_run_progress_function_call() {
    let progress: RunProgress<&str, ()> = RunProgress::FunctionCall {
        function_name: "fetch".to_string(),
        args: vec![Value::Int(5)],
        kwargs: vec![],
        call_id: 0,
        state: "paused",
    };
    let (term, continuation) = encode_run_progress(progress, "printed\n");
    assert_eq!(
        term,
        Term::Tuple(vec![
            atom("function_call"),
            function_call_record("fetch", vec![Term::Integer(5)], vec![], 0),
            Term::Resource,
            text("printed\n"),
        ])
    );
    let Continuation::Single(mut slot) = continuation else {
        panic!("expected the continuation of one call");
    };
    assert_eq!(slot.take(), Some("paused"));
    assert_eq!(slot.take(), None);
}

#[test]
fn encode_run_progress_os_call() {
    let progress: RunProgress<u8, ()> = RunProgress::OsCall {
        function: OsFunction::Stat,
        args: vec![],
        kwargs: vec![],
        call_id: 3,
        state: 9,
    };
    let (term, continuation) = encode_run_progress(progress, "");
    let Term::Tuple(elements) = term else {
        panic!("expected a tuple");
    };
    assert_eq!(elements.len(), 4);
    assert_eq!(elements[0], atom("os_call"));
    assert_eq!(elements[1], encode_os_call(&OsFunction::Stat, &vec![], &vec![], 3));
    assert_eq!(elements[2], Term::Resource);
    assert_eq!(elements[3], text(""));
    let Continuation::Single(mut slot) = continuation else {
        panic!("expected the continuation of one call");
    };
    assert_eq!(slot.take(), Some(9));
}

#[test]
fn encode_run_progress_resolve_futures() {
    let progress: RunProgress<(), Vec<u32>> = RunProgress::ResolveFutures(vec![1, 2]);
    let (term, continuation) = encode_run_progress(progress, "out");
    assert_eq!(term, Term::Tuple(vec![atom("resolve_futures"), Term::Resource, text("out")]));
    let Continuation::Batch(mut slot) = continuation else {
        panic!("expected the continuation of a batch");
    };
    assert_eq!(pending_call_ids(&slot, |ids| ids.clone()), Ok(vec![1, 2]));
    assert_eq!(slot.take(), Some(vec![1, 2]));
}

#[test]
fn encode_run_progress_complete() {
    let progress: RunProgress<(), ()> = RunProgress::Complete(Value::Int(10));
    let (term, continuation) = encode_run_progress(progress, "a\nb\n");
    assert_eq!(term, Term::Tuple(vec![atom("complete"), Term::Integer(10), text("a\nb\n")]));
    assert!(matches!(continuation, Continuation::Finished));
}

fn runner() -> RunnerResource<&'static str> {
    RunnerResource::new("program", vec!["a".to_string(), "b".to_string()])
}

#[test]
fn runner_resource_holds_program_and_names() {
    let handle = runner();
    assert_eq!(*handle.runner(), "program");
    assert_eq!(handle.input_names(), &vec!["a".to_string(), "b".to_string()]);
    assert_eq!(handle.clone_runner(), "program");
}

#[test]
fn start_decodes_inputs_and_limits() {
    let inputs = vec![("b".to_string(), Term::Integer(2)), ("a".to_string(), Term::Integer(1))];
    let limits = Term::Mapping(vec![(atom("max_memory"), Term::Integer(64))]);
    assert_eq!(
        start(&runner(), &inputs, &limits),
        Ok((vec![Value::Int(1), Value::Int(2)], ResourceLimits::new().max_memory(64)))
    );
    assert_eq!(run(&runner(), &inputs, &limits), start(&runner(), &inputs, &limits));
    assert_eq!(
        run_no_limits(&runner(), &inputs),
        Ok((vec![Value::Int(1), Value::Int(2)], ResourceLimits::new()))
    );
}

#[test]
fn start_rejects_inputs_before_limits() {
    let inputs = vec![("a".to_string(), Term::Integer(1))];
    assert_eq!(
        start(&runner(), &inputs, &Term::Integer(0)),
        Err(StartError::Inputs(InputError::Missing { names: vec!["b".to_string()] }))
    );
    let inputs = vec![("b".to_string(), Term::Integer(2)), ("a".to_string(), Term::Integer(1))];
    assert_eq!(start(&runner(), &inputs, &Term::Integer(0)), Err(StartError::Limits));
    assert_eq!(
        run_no_limits(&runner(), &vec![]),
        Err(InputError::Missing { names: vec!["a".to_string(), "b".to_string()] })
    );
}

#[test]
fn resolve_exc_type_prefers_the_exact_name() {
    let some = |s: &str| Some(s.to_string());
    assert_eq!(ex_monty::interactive::resolve_exc_type(some("KeyError"), some("ValueError")), "KeyError");
    assert_eq!(ex_monty::interactive::resolve_exc_type(some("KeyError"), None), "KeyError");
    assert_eq!(ex_monty::interactive::resolve_exc_type(None, some("ValueError")), "ValueError");
    assert_eq!(ex_monty::interactive::resolve_exc_type(None, None), "RuntimeError");
}

#[test]
fn encode_run_result_pairs_value_and_output() {
    assert_eq!(
        ex_monty::interactive::encode_run_result(&Value::Int(3), "line\n"),
        Term::Tuple(vec![Term::Integer(3), text("line\n")])
    );
}

#[test]
fn decode_batch_keeps_ids_and_order() {
    let results = vec![(9u32, ok(Term::Integer(1))), (2u32, Term::Integer(5))];
    assert_eq!(
        ex_monty::interactive::decode_batch(&results),
        Ok(vec![
            (9, ExternalResult::Return(Value::Int(1))),
            (2, ExternalResult::Return(Value::Int(5))),
        ])
    );
    let bad = vec![(1u32, Term::Resource)];
    assert_eq!(ex_monty::interactive::decode_batch(&bad), Err(DecodeError));
}
