use ex_monty::{
    dump_snapshot, encode_run_progress, load_snapshot, resume, start, Continuation,
    ExternalResult, ResourceLimits, ResumeError, RunProgress, RunnerResource, Term, Value,
};
use monty::MontyRun;
use monty_types::{CompileOptions, MontyObject, PrintWriter, ResourceTracker};

fn atom(name: &str) -> Term {
    Term::Atom(name.to_string())
}

fn text(s: &str) -> Term {
    Term::Binary(s.as_bytes().to_vec())
}

fn to_engine(value: &Value) -> MontyObject {
    match value {
        Value::Int(i) => MontyObject::Int(*i),
        other => panic!("no conversion for {other:?}"),
    }
}

fn from_engine(object: &MontyObject) -> Value {
    match object {
        MontyObject::Int(i) => Value::Int(*i),
        other => panic!("no conversion for {other:?}"),
    }
}

fn from_progress(progress: monty::RunProgress) -> RunProgress<monty::FunctionCall, ()> {
    match progress {
        monty::RunProgress::FunctionCall(call) => RunProgress::FunctionCall {
            function_name: call.function_name.clone(),
            args: call.args.iter().map(from_engine).collect(),
            kwargs: vec![],
            call_id: call.call_id,
            state: call,
        },
        monty::RunProgress::Complete(value) => RunProgress::Complete(from_engine(&value)),
        other => panic!("unexpected pause: {other:?}"),
    }
}

#[test]
fn pause_dump_load_resume_complete() {
    // Compile a program that declares the input `x` and calls `fetch`.
    let program = MontyRun::new(
        "print('asking')\nfetch(x)".to_string(),
        "main.py",
        vec!["x".to_string(), "fetch".to_string()],
        CompileOptions::default(),
    )
    .unwrap();
    let handle = RunnerResource::new(program, vec!["x".to_string()]);

    // Start with x = 5.
    let inputs = vec![("x".to_string(), Term::Integer(5))];
    let (values, limits) = start(&handle, &inputs, &atom("nil")).unwrap();
    assert_eq!(values, vec![Value::Int(5)]);
    assert_eq!(limits, ResourceLimits::new());
    let mut engine_inputs: Vec<MontyObject> = values.iter().map(to_engine).collect();
    engine_inputs.push(MontyObject::Function { name: "fetch".to_string(), docstring: None });
    let mut output = String::new();
    let progress = handle
        .clone_runner()
        .start(engine_inputs, ResourceTracker::default(), PrintWriter::collect_string(&mut output))
        .unwrap();

    // The run pauses at the call of `fetch` with the argument 5 and call id 0.
    let (term, continuation) = encode_run_progress(from_progress(progress), &output);
    assert_eq!(
        term,
        Term::Tuple(vec![
            atom("function_call"),
            Term::Mapping(vec![
                (atom("__struct__"), atom("Elixir.ExMonty.FunctionCall")),
                (atom("name"), text("fetch")),
                (atom("args"), Term::List(vec![Term::Integer(5)])),
                (atom("kwargs"), Term::Mapping(vec![])),
                (atom("call_id"), Term::Integer(0)),
            ]),
            Term::Resource,
            text("asking\n"),
        ])
    );
    let Continuation::Single(mut slot) = continuation else {
        panic!("expected the continuation of one call");
    };

    // Dump the continuation to bytes; that consumes it.
    let paused = dump_snapshot(&mut slot).unwrap();
    let bytes = postcard::to_allocvec(&paused).unwrap();
    assert_eq!(dump_snapshot(&mut slot).map(|_| ()), Err(ResumeError::AlreadyConsumed));
    assert_eq!(
        resume(&mut slot, &Term::Integer(10)).map(|_| ()),
        Err(ResumeError::AlreadyConsumed)
    );

    // Load it back and resume the loaded continuation with the value 10.
    let loaded: monty::FunctionCall = postcard::from_bytes(&bytes).unwrap();
    let mut reloaded = load_snapshot(loaded);
    let result = Term::Tuple(vec![atom("ok"), Term::Integer(10)]);
    let (state, outcome) = resume(&mut reloaded, &result).unwrap();
    let ExternalResult::Return(value) = outcome else {
        panic!("expected a returned value");
    };
    assert_eq!(value, Value::Int(10));
    let mut output = String::new();
    let progress =
        state.resume(to_engine(&value), PrintWriter::collect_string(&mut output)).unwrap();

    // The run completes with the value 10.
    let (term, continuation) = encode_run_progress(from_progress(progress), &output);
    assert_eq!(term, Term::Tuple(vec![atom("complete"), Term::Integer(10), text("")]));
    assert!(matches!(continuation, Continuation::Finished));

    // The loaded continuation is consumed as well.
    assert_eq!(
        resume(&mut reloaded, &result).map(|_| ()),
        Err(ResumeError::AlreadyConsumed)
    );
    assert_eq!(dump_snapshot(&mut reloaded).map(|_| ()), Err(ResumeError::AlreadyConsumed));
}
