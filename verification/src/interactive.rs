//! The suspend and resume protocol: what the host is told when a run pauses
//! or completes, and what a continuation is resumed with.

use vstd::prelude::*;
use crate::decode::{decode_monty_object, decode_spec, term_text, text_of_term, DecodeError};
use crate::encode::{
    atom_spec,
    encode_all,
    encode_dict_entries,
    encode_items,
    encode_monty_object,
    encode_pairs,
    encode_spec,
    put_all,
    text_spec,
};
use crate::error::{MontyException, StackFrame};
use crate::inputs::{decode_inputs, decode_inputs_spec, inputs_view, InputError, InputErrorView};
use crate::limits::{decode_limits_spec, decode_resource_limits, ResourceLimits};
use crate::resources::{FutureSnapshotResource, RunnerResource, SnapshotResource};
use crate::term::{entries_view, term_view, terms_view, Term, TermView};
use crate::text::{pascal_case, pascal_case_spec};
use crate::value::{opt_str_view, pairs_view, values_view, Value, ValueView};

verus! {

/// The operating-system calls that a program can ask the host for.
#[derive(Clone, Copy, Debug, PartialEq, Eq, Structural)]
pub enum OsFunction {
    Exists,
    IsFile,
    IsDir,
    IsSymlink,
    ReadText,
    ReadBytes,
    WriteText,
    WriteBytes,
    Mkdir,
    Unlink,
    Rmdir,
    Iterdir,
    Stat,
    Rename,
    Resolve,
    Absolute,
    Getenv,
    GetEnviron,
}

/// The name under which the host knows an operating-system call.
pub open spec fn os_function_name(func: OsFunction) -> Seq<char> {
    match func {
        OsFunction::Exists => "exists"@,
        OsFunction::IsFile => "is_file"@,
        OsFunction::IsDir => "is_dir"@,
        OsFunction::IsSymlink => "is_symlink"@,
        OsFunction::ReadText => "read_text"@,
        OsFunction::ReadBytes => "read_bytes"@,
        OsFunction::WriteText => "write_text"@,
        OsFunction::WriteBytes => "write_bytes"@,
        OsFunction::Mkdir => "mkdir"@,
        OsFunction::Unlink => "unlink"@,
        OsFunction::Rmdir => "rmdir"@,
        OsFunction::Iterdir => "iterdir"@,
        OsFunction::Stat => "stat"@,
        OsFunction::Rename => "rename"@,
        OsFunction::Resolve => "resolve"@,
        OsFunction::Absolute => "absolute"@,
        OsFunction::Getenv => "getenv"@,
        OsFunction::GetEnviron => "get_environ"@,
    }
}

/// Encodes an operating-system call for the host: the atom of its name.
pub fn encode_os_function(func: &OsFunction) -> (r: Term)
    ensures
        r@ == TermView::Atom(os_function_name(*func)),
{
    let name = match func {
        OsFunction::Exists => "exists",
        OsFunction::IsFile => "is_file",
        OsFunction::IsDir => "is_dir",
        OsFunction::IsSymlink => "is_symlink",
        OsFunction::ReadText => "read_text",
        OsFunction::ReadBytes => "read_bytes",
        OsFunction::WriteText => "write_text",
        OsFunction::WriteBytes => "write_bytes",
        OsFunction::Mkdir => "mkdir",
        OsFunction::Unlink => "unlink",
        OsFunction::Rmdir => "rmdir",
        OsFunction::Iterdir => "iterdir",
        OsFunction::Stat => "stat",
        OsFunction::Rename => "rename",
        OsFunction::Resolve => "resolve",
        OsFunction::Absolute => "absolute",
        OsFunction::Getenv => "getenv",
        OsFunction::GetEnviron => "get_environ",
    };
    Term::atom(name)
}

/// Why a run paused, or what it completed with. `S` is the continuation of
/// a run that paused at one call, `F` that of a run that paused at a batch
/// of outstanding calls.
#[derive(Debug)]
pub enum RunProgress<S, F> {
    /// The program called a function of the host.
    FunctionCall {
        function_name: String,
        args: Vec<Value>,
        kwargs: Vec<(Value, Value)>,
        call_id: u32,
        state: S,
    },
    /// The program asked for an operating-system call.
    OsCall {
        function: OsFunction,
        args: Vec<Value>,
        kwargs: Vec<(Value, Value)>,
        call_id: u32,
        state: S,
    },
    /// The program waits for the results of outstanding calls.
    ResolveFutures(F),
    /// The program completed with a value.
    Complete(Value),
}

/// The continuation that an outcome leaves with the host.
#[derive(Debug)]
pub enum Continuation<S, F> {
    /// The run paused at one call.
    Single(SnapshotResource<S>),
    /// The run paused at a batch of outstanding calls.
    Batch(FutureSnapshotResource<F>),
    /// The run completed; nothing is left to resume.
    Finished,
}

/// The host's form of keyword arguments: a mapping from each key to its
/// value, in the order of the arguments.
pub open spec fn kwargs_spec(kwargs: Seq<(ValueView, ValueView)>) -> TermView {
    TermView::Mapping(put_all(encode_pairs(kwargs), kwargs.len()))
}

/// The host's form of a call to a function of the host: a record tagged
/// `Elixir.ExMonty.FunctionCall`.
pub open spec fn function_call_spec(
    name: Seq<char>,
    args: Seq<ValueView>,
    kwargs: Seq<(ValueView, ValueView)>,
    call_id: u32,
) -> TermView {
    TermView::Mapping(
        seq![
            (atom_spec("__struct__"), atom_spec("Elixir.ExMonty.FunctionCall")),
            (atom_spec("name"), text_spec(name)),
            (atom_spec("args"), TermView::List(encode_all(args))),
            (atom_spec("kwargs"), kwargs_spec(kwargs)),
            (atom_spec("call_id"), TermView::Integer(call_id as int)),
        ],
    )
}

/// The host's form of a request for an operating-system call: a record
/// tagged `Elixir.ExMonty.OsCall`.
pub open spec fn os_call_spec(
    function: OsFunction,
    args: Seq<ValueView>,
    kwargs: Seq<(ValueView, ValueView)>,
    call_id: u32,
) -> TermView {
    TermView::Mapping(
        seq![
            (atom_spec("__struct__"), atom_spec("Elixir.ExMonty.OsCall")),
            (atom_spec("function"), TermView::Atom(os_function_name(function))),
            (atom_spec("args"), TermView::List(encode_all(args))),
            (atom_spec("kwargs"), kwargs_spec(kwargs)),
            (atom_spec("call_id"), TermView::Integer(call_id as int)),
        ],
    )
}

/// The host's form of an outcome. A pause carries the call, a handle on the
/// continuation and the output so far; completion carries the final value
/// and the output.
pub open spec fn run_progress_spec<S, F>(progress: RunProgress<S, F>, output: Seq<char>) -> TermView {
    match progress {
        RunProgress::FunctionCall { function_name, args, kwargs, call_id, state } => TermView::Tuple(
            seq![
                atom_spec("function_call"),
                function_call_spec(
                    function_name@,
                    values_view(args@),
                    pairs_view(kwargs@),
                    call_id,
                ),
                TermView::Resource,
                text_spec(output),
            ],
        ),
        RunProgress::OsCall { function, args, kwargs, call_id, state } => TermView::Tuple(
            seq![
                atom_spec("os_call"),
                os_call_spec(function, values_view(args@), pairs_view(kwargs@), call_id),
                TermView::Resource,
                text_spec(output),
            ],
        ),
        RunProgress::ResolveFutures(_) => TermView::Tuple(
            seq![atom_spec("resolve_futures"), TermView::Resource, text_spec(output)],
        ),
        RunProgress::Complete(value) => TermView::Tuple(
            seq![atom_spec("complete"), encode_spec(value@), text_spec(output)],
        ),
    }
}

/// Whether the continuation is the one that the outcome leaves: the state
/// of a pause, not yet taken, or nothing after completion.
pub open spec fn continuation_of<S, F>(
    progress: RunProgress<S, F>,
    continuation: Continuation<S, F>,
) -> bool {
    match progress {
        RunProgress::FunctionCall { state, .. } => continuation matches Continuation::Single(slot)
            && slot.held() == Some(state),
        RunProgress::OsCall { state, .. } => continuation matches Continuation::Single(slot)
            && slot.held() == Some(state),
        RunProgress::ResolveFutures(futures) => continuation matches Continuation::Batch(slot)
            && slot.held() == Some(futures),
        RunProgress::Complete(_) => continuation is Finished,
    }
}

/// Encodes keyword arguments for the host.
pub fn encode_kwargs(kwargs: &Vec<(Value, Value)>) -> (r: Term)
    ensures
        r@ == kwargs_spec(pairs_view(kwargs@)),
{
    Term::Mapping(encode_dict_entries(kwargs))
}

/// Encodes a call to a function of the host.
pub fn encode_function_call(
    name: &str,
    args: &Vec<Value>,
    kwargs: &Vec<(Value, Value)>,
    call_id: u32,
) -> (r: Term)
    ensures
        r@ == function_call_spec(name@, values_view(args@), pairs_view(kwargs@), call_id),
{
    let mut entries: Vec<(Term, Term)> = Vec::new();
    entries.push((Term::atom("__struct__"), Term::atom("Elixir.ExMonty.FunctionCall")));
    entries.push((Term::atom("name"), Term::text(name)));
    entries.push((Term::atom("args"), Term::List(encode_items(args))));
    entries.push((Term::atom("kwargs"), encode_kwargs(kwargs)));
    entries.push((Term::atom("call_id"), Term::Integer(call_id as i64)));
    assert(entries_view(entries@) =~= seq![
        (atom_spec("__struct__"), atom_spec("Elixir.ExMonty.FunctionCall")),
        (atom_spec("name"), text_spec(name@)),
        (atom_spec("args"), TermView::List(encode_all(values_view(args@)))),
        (atom_spec("kwargs"), kwargs_spec(pairs_view(kwargs@))),
        (atom_spec("call_id"), TermView::Integer(call_id as int)),
    ]);
    Term::Mapping(entries)
}

/// Encodes a request for an operating-system call.
pub fn encode_os_call(
    function: &OsFunction,
    args: &Vec<Value>,
    kwargs: &Vec<(Value, Value)>,
    call_id: u32,
) -> (r: Term)
    ensures
        r@ == os_call_spec(*function, values_view(args@), pairs_view(kwargs@), call_id),
{
    let mut entries: Vec<(Term, Term)> = Vec::new();
    entries.push((Term::atom("__struct__"), Term::atom("Elixir.ExMonty.OsCall")));
    entries.push((Term::atom("function"), encode_os_function(function)));
    entries.push((Term::atom("args"), Term::List(encode_items(args))));
    entries.push((Term::atom("kwargs"), encode_kwargs(kwargs)));
    entries.push((Term::atom("call_id"), Term::Integer(call_id as i64)));
    assert(entries_view(entries@) =~= seq![
        (atom_spec("__struct__"), atom_spec("Elixir.ExMonty.OsCall")),
        (atom_spec("function"), TermView::Atom(os_function_name(*function))),
        (atom_spec("args"), TermView::List(encode_all(values_view(args@)))),
        (atom_spec("kwargs"), kwargs_spec(pairs_view(kwargs@))),
        (atom_spec("call_id"), TermView::Integer(call_id as int)),
    ]);
    Term::Mapping(entries)
}

/// A tuple of the given elements.
fn tuple_of(elements: Vec<Term>) -> (r: Term)
    ensures
        r@ == TermView::Tuple(terms_view(elements@)),
{
    Term::Tuple(elements)
}

/// Encodes an outcome for the host and hands out the continuation that it
/// leaves. The term holds `Term::Resource` where the host gets its handle
/// on the continuation.
pub fn encode_run_progress<S, F>(progress: RunProgress<S, F>, output: &str) -> (r: (
    Term,
    Continuation<S, F>,
))
    ensures
        r.0@ == run_progress_spec(progress, output@),
        continuation_of(progress, r.1),
{
    let output_term = Term::text(output);
    let mut elements: Vec<Term> = Vec::new();
    match progress {
        RunProgress::FunctionCall { function_name, args, kwargs, call_id, state } => {
            elements.push(Term::atom("function_call"));
            elements.push(encode_function_call(function_name.as_str(), &args, &kwargs, call_id));
            elements.push(Term::Resource);
            elements.push(output_term);
            assert(terms_view(elements@) =~= seq![
                atom_spec("function_call"),
                function_call_spec(
                    function_name@,
                    values_view(args@),
                    pairs_view(kwargs@),
                    call_id,
                ),
                TermView::Resource,
                text_spec(output@),
            ]);
            (tuple_of(elements), Continuation::Single(SnapshotResource::new(state)))
        },
        RunProgress::OsCall { function, args, kwargs, call_id, state } => {
            elements.push(Term::atom("os_call"));
            elements.push(encode_os_call(&function, &args, &kwargs, call_id));
            elements.push(Term::Resource);
            elements.push(output_term);
            assert(terms_view(elements@) =~= seq![
                atom_spec("os_call"),
                os_call_spec(function, values_view(args@), pairs_view(kwargs@), call_id),
                TermView::Resource,
                text_spec(output@),
            ]);
            (tuple_of(elements), Continuation::Single(SnapshotResource::new(state)))
        },
        RunProgress::ResolveFutures(futures) => {
            elements.push(Term::atom("resolve_futures"));
            elements.push(Term::Resource);
            elements.push(output_term);
            assert(terms_view(elements@) =~= seq![
                atom_spec("resolve_futures"),
                TermView::Resource,
                text_spec(output@),
            ]);
            (tuple_of(elements), Continuation::Batch(FutureSnapshotResource::new(futures)))
        },
        RunProgress::Complete(value) => {
            elements.push(Term::atom("complete"));
            elements.push(encode_monty_object(&value));
            elements.push(output_term);
            assert(terms_view(elements@) =~= seq![
                atom_spec("complete"),
                encode_spec(value@),
                text_spec(output@),
            ]);
            (tuple_of(elements), Continuation::Finished)
        },
    }
}

/// The host's form of the result of a run to completion: the final value
/// and the output.
pub open spec fn run_result_spec(value: ValueView, output: Seq<char>) -> TermView {
    TermView::Tuple(seq![encode_spec(value), text_spec(output)])
}

/// Encodes the result of a run to completion for the host.
pub fn encode_run_result(value: &Value, output: &str) -> (r: Term)
    ensures
        r@ == run_result_spec(value@, output@),
{
    let mut elements: Vec<Term> = Vec::new();
    elements.push(encode_monty_object(value));
    elements.push(Term::text(output));
    assert(terms_view(elements@) =~= seq![encode_spec(value@), text_spec(output@)]);
    Term::Tuple(elements)
}

/// The canonical name of the exception type that the engine knows under
/// the given tag, as `ExcType::from_str` finds it; `None` where the engine
/// knows no such type.
pub uninterp spec fn exc_type_name(tag: Seq<char>) -> Option<Seq<char>>;

/// Calls `monty_types::ExcType::from_str` and, where the engine knows the
/// tag, names the type with `to_string`. Trusted: the result is the
/// engine's, which this library only names.
#[verifier::external_body]
fn lookup_exc_type(tag: &str) -> (r: Option<String>)
    ensures
        opt_str_view(r) == exc_type_name(tag@),
{
    match tag.parse::<monty_types::ExcType>() {
        Ok(exc_type) => Some(exc_type.to_string()),
        Err(_) => None,
    }
}

/// The exception type that two lookups settle on: the first where it found
/// one, else the second, else the generic runtime error.
pub open spec fn resolve_exc_type_spec(
    exact: Option<Seq<char>>,
    converted: Option<Seq<char>>,
) -> Seq<char> {
    match exact {
        Some(name) => name,
        None => match converted {
            Some(name) => name,
            None => "RuntimeError"@,
        },
    }
}

/// The exception type that a tag stands for: the type that the engine knows
/// under the tag itself, else the one that it knows under the tag's
/// capitalized-compound form, else the generic runtime error.
pub open spec fn parse_exc_type_spec(tag: Seq<char>) -> Seq<char> {
    resolve_exc_type_spec(exc_type_name(tag), exc_type_name(pascal_case_spec(tag)))
}

/// Settles on an exception type given what the lookup of a tag found and
/// what the lookup of the tag's capitalized-compound form found.
pub fn resolve_exc_type(exact: Option<String>, converted: Option<String>) -> (r: String)
    ensures
        r@ == resolve_exc_type_spec(opt_str_view(exact), opt_str_view(converted)),
{
    match exact {
        Some(name) => name,
        None => match converted {
            Some(name) => name,
            None => "RuntimeError".to_owned(),
        },
    }
}

/// Reads the tag of an exception type in either naming convention. A tag
/// that the engine does not know in either stands for the generic runtime
/// error.
pub fn parse_exc_type(s: &str) -> (r: String)
    ensures
        r@ == parse_exc_type_spec(s@),
{
    match lookup_exc_type(s) {
        Some(name) => resolve_exc_type(Some(name), None),
        None => {
            let pascal = pascal_case(s);
            resolve_exc_type(None, lookup_exc_type(pascal.as_str()))
        },
    }
}

/// What a continuation is resumed with: the value that the call returned,
/// or the exception that it raised.
#[derive(Debug, PartialEq, Eq)]
pub enum ExternalResult {
    Return(Value),
    Error(MontyException),
}

/// Mathematical model of an `ExternalResult`.
pub enum ExternalResultView {
    Return(ValueView),
    Error { exc_type: Seq<char>, message: Option<Seq<char>>, traceback: Seq<StackFrame> },
}

impl View for ExternalResult {
    type V = ExternalResultView;

    open spec fn view(&self) -> ExternalResultView {
        match *self {
            ExternalResult::Return(value) => ExternalResultView::Return(value@),
            ExternalResult::Error(exc) => ExternalResultView::Error {
                exc_type: exc.exc_type@,
                message: opt_str_view(exc.message),
                traceback: exc.traceback@,
            },
        }
    }
}

/// The text that a term holds, or the default where it holds none.
pub open spec fn text_or(t: TermView, default: &str) -> Seq<char> {
    match text_of_term(t) {
        Some(text) => text,
        None => default@,
    }
}

/// The tag of a failure: the text of a binary, the name of an atom, or
/// `runtime_error` for any other term.
pub open spec fn error_tag_spec(t: TermView) -> Seq<char> {
    match text_of_term(t) {
        Some(text) => text,
        None => match t {
            TermView::Atom(name) => name,
            _ => "runtime_error"@,
        },
    }
}

/// The failure that the wrapper `{error, ...}` stands for: with three
/// elements a tag and a message, with any other number a message only and
/// the generic runtime error. It has no traceback: it was raised outside
/// the program.
pub open spec fn external_error_spec(elements: Seq<TermView>) -> ExternalResultView {
    if elements.len() == 3 {
        ExternalResultView::Error {
            exc_type: parse_exc_type_spec(error_tag_spec(elements[1])),
            message: Some(text_or(elements[2], "unknown error")),
            traceback: Seq::empty(),
        }
    } else {
        ExternalResultView::Error {
            exc_type: "RuntimeError"@,
            message: Some(text_or(elements[1], "unknown error")),
            traceback: Seq::empty(),
        }
    }
}

/// A term read as a returned value.
pub open spec fn external_return_spec(t: TermView) -> Option<ExternalResultView> {
    match decode_spec(t) {
        Some(value) => Some(ExternalResultView::Return(value)),
        None => None,
    }
}

/// The outcome of an external call that a term stands for: `{ok, value}`
/// is the value, `{error, ...}` is a failure, any other term is itself the
/// value. `None` where the value has no canonical value.
pub open spec fn decode_external_spec(t: TermView) -> Option<ExternalResultView> {
    match t {
        TermView::Tuple(elements) => if elements.len() >= 2 && elements[0] == atom_spec("ok") {
            external_return_spec(elements[1])
        } else if elements.len() >= 2 && elements[0] == atom_spec("error") {
            Some(external_error_spec(elements))
        } else {
            external_return_spec(t)
        },
        _ => external_return_spec(t),
    }
}

/// The text that a term holds, or the default where it holds none.
fn term_text_or(t: &Term, default: &str) -> (r: String)
    ensures
        r@ == text_or(t@, default),
{
    match term_text(t) {
        Some(text) => text,
        None => default.to_owned(),
    }
}

/// A term read as a returned value.
fn decode_external_return(t: &Term) -> (r: Result<ExternalResult, DecodeError>)
    ensures
        match r {
            Ok(outcome) => external_return_spec(t@) == Some(outcome@),
            Err(_) => external_return_spec(t@) is None,
        },
{
    match decode_monty_object(t) {
        Ok(value) => Ok(ExternalResult::Return(value)),
        Err(e) => Err(e),
    }
}

/// Decodes the outcome that the host supplies for an external call.
pub fn decode_external_result(term: &Term) -> (r: Result<ExternalResult, DecodeError>)
    ensures
        match r {
            Ok(outcome) => decode_external_spec(term@) == Some(outcome@),
            Err(_) => decode_external_spec(term@) is None,
        },
{
    match term {
        Term::Tuple(elements) => {
            if elements.len() >= 2 && elements[0].is_atom_named("ok") {
                decode_external_return(&elements[1])
            } else if elements.len() >= 2 && elements[0].is_atom_named("error") {
                let traceback: Vec<StackFrame> = Vec::new();
                if elements.len() == 3 {
                    let tag = match term_text(&elements[1]) {
                        Some(text) => text,
                        None => match &elements[1] {
                            Term::Atom(name) => name.clone(),
                            _ => "runtime_error".to_owned(),
                        },
                    };
                    let message = term_text_or(&elements[2], "unknown error");
                    let exc_type = parse_exc_type(tag.as_str());
                    Ok(
                        ExternalResult::Error(
                            MontyException { exc_type, message: Some(message), traceback },
                        ),
                    )
                } else {
                    let message = term_text_or(&elements[1], "unknown error");
                    Ok(
                        ExternalResult::Error(
                            MontyException {
                                exc_type: "RuntimeError".to_owned(),
                                message: Some(message),
                                traceback,
                            },
                        ),
                    )
                }
            } else {
                decode_external_return(term)
            }
        },
        _ => decode_external_return(term),
    }
}

/// Why a run could not start.
#[derive(Debug, PartialEq, Eq)]
pub enum StartError {
    /// The inputs do not fit the declared names.
    Inputs(InputError),
    /// The limits are neither `nil` nor a mapping.
    Limits,
}

/// Mathematical model of a `StartError`.
pub enum StartErrorView {
    Inputs(InputErrorView),
    Limits,
}

impl View for StartError {
    type V = StartErrorView;

    open spec fn view(&self) -> StartErrorView {
        match *self {
            StartError::Inputs(e) => StartErrorView::Inputs(e@),
            StartError::Limits => StartErrorView::Limits,
        }
    }
}

/// What starting a run asks of the engine: the input values in declared
/// order and the limits. The inputs are looked at first.
pub open spec fn start_spec(
    declared: Seq<Seq<char>>,
    inputs: Seq<(Seq<char>, TermView)>,
    limits: TermView,
) -> Result<(Seq<ValueView>, ResourceLimits), StartErrorView> {
    match decode_inputs_spec(inputs, declared) {
        Err(e) => Err(StartErrorView::Inputs(e)),
        Ok(values) => match decode_limits_spec(limits) {
            None => Err(StartErrorView::Limits),
            Some(config) => Ok((values, config)),
        },
    }
}

/// Prepares the start of a run: reconciles the inputs with the names that
/// the program declares and reads the limits. The caller hands the result
/// to the engine, with a copy of the program.
pub fn start<R>(runner: &RunnerResource<R>, inputs: &Vec<(String, Term)>, limits: &Term) -> (r: Result<
    (Vec<Value>, ResourceLimits),
    StartError,
>)
    ensures
        match r {
            Ok((values, config)) => start_spec(runner.declared(), inputs_view(inputs@), limits@)
                == Ok::<(Seq<ValueView>, ResourceLimits), StartErrorView>(
                (values_view(values@), config),
            ),
            Err(e) => start_spec(runner.declared(), inputs_view(inputs@), limits@) == Err::<
                (Seq<ValueView>, ResourceLimits),
                StartErrorView,
            >(e@),
        },
{
    let values = match decode_inputs(inputs, runner.input_names()) {
        Ok(values) => values,
        Err(e) => {
            return Err(StartError::Inputs(e));
        },
    };
    match decode_resource_limits(limits) {
        Ok(config) => Ok((values, config)),
        Err(_) => Err(StartError::Limits),
    }
}

/// Prepares a run to completion: as `start`.
pub fn run<R>(runner: &RunnerResource<R>, inputs: &Vec<(String, Term)>, limits: &Term) -> (r: Result<
    (Vec<Value>, ResourceLimits),
    StartError,
>)
    ensures
        match r {
            Ok((values, config)) => start_spec(runner.declared(), inputs_view(inputs@), limits@)
                == Ok::<(Seq<ValueView>, ResourceLimits), StartErrorView>(
                (values_view(values@), config),
            ),
            Err(e) => start_spec(runner.declared(), inputs_view(inputs@), limits@) == Err::<
                (Seq<ValueView>, ResourceLimits),
                StartErrorView,
            >(e@),
        },
{
    start(runner, inputs, limits)
}

/// Prepares a run to completion without limits: reconciles the inputs with
/// the names that the program declares.
pub fn run_no_limits<R>(runner: &RunnerResource<R>, inputs: &Vec<(String, Term)>) -> (r: Result<
    (Vec<Value>, ResourceLimits),
    InputError,
>)
    ensures
        match r {
            Ok((values, config)) => decode_inputs_spec(inputs_view(inputs@), runner.declared())
                == Ok::<Seq<ValueView>, InputErrorView>(values_view(values@))
                && config.is_unlimited(),
            Err(e) => decode_inputs_spec(inputs_view(inputs@), runner.declared()) == Err::<
                Seq<ValueView>,
                InputErrorView,
            >(e@),
        },
{
    match decode_inputs(inputs, runner.input_names()) {
        Ok(values) => Ok((values, ResourceLimits::new())),
        Err(e) => Err(e),
    }
}

/// Why a continuation could not be resumed.
#[derive(Clone, Copy, Debug, PartialEq, Eq, Structural)]
pub enum ResumeError {
    /// The continuation was consumed before.
    AlreadyConsumed,
    /// A supplied result has no canonical value.
    Undecodable,
}

/// What resuming does to the slot of a continuation and what it asks of
/// the engine. An empty slot stays empty and the call fails. A full slot is
/// emptied, also where the supplied result then turns out to have no
/// canonical value.
pub open spec fn resume_spec<S>(slot: Option<S>, result: TermView) -> (
    Option<S>,
    Result<(S, ExternalResultView), ResumeError>,
) {
    match slot {
        None => (None, Err(ResumeError::AlreadyConsumed)),
        Some(state) => match decode_external_spec(result) {
            Some(outcome) => (None, Ok((state, outcome))),
            None => (None, Err(ResumeError::Undecodable)),
        },
    }
}

/// Prepares the resumption of a run that paused at one call: takes the
/// continuation and decodes the result of the call. The caller hands both
/// to the engine.
pub fn resume<S>(snapshot: &mut SnapshotResource<S>, result: &Term) -> (r: Result<
    (S, ExternalResult),
    ResumeError,
>)
    ensures
        final(snapshot).held() == resume_spec(old(snapshot).held(), result@).0,
        match r {
            Ok((state, outcome)) => resume_spec(old(snapshot).held(), result@).1 == Ok::<
                (S, ExternalResultView),
                ResumeError,
            >((state, outcome@)),
            Err(e) => resume_spec(old(snapshot).held(), result@).1 == Err::<
                (S, ExternalResultView),
                ResumeError,
            >(e),
        },
{
    let state = match snapshot.take() {
        Some(state) => state,
        None => {
            return Err(ResumeError::AlreadyConsumed);
        },
    };
    match decode_external_result(result) {
        Ok(outcome) => Ok((state, outcome)),
        Err(_) => Err(ResumeError::Undecodable),
    }
}

/// The model of the results supplied for a batch.
pub open spec fn batch_view(results: Seq<(u32, Term)>) -> Seq<(u32, TermView)> {
    Seq::new(results.len(), |i: int| (results[i].0, term_view(results[i].1)))
}

/// The model of the decoded results of a batch.
pub open spec fn outcomes_view(outcomes: Seq<(u32, ExternalResult)>) -> Seq<
    (u32, ExternalResultView),
> {
    Seq::new(outcomes.len(), |i: int| (outcomes[i].0, outcomes[i].1@))
}

/// The outcome of each supplied result under its call id, if each has one.
pub open spec fn decode_batch_spec(results: Seq<(u32, TermView)>) -> Option<
    Seq<(u32, ExternalResultView)>,
> {
    if forall|i: int| 0 <= i < results.len() ==> decode_external_spec((#[trigger] results[i]).1) is Some {
        Some(
            Seq::new(
                results.len(),
                |i: int| (results[i].0, decode_external_spec(results[i].1)->0),
            ),
        )
    } else {
        None
    }
}

/// Decodes the results supplied for a batch, each under its call id.
pub fn decode_batch(results: &Vec<(u32, Term)>) -> (r: Result<Vec<(u32, ExternalResult)>, DecodeError>)
    ensures
        match r {
            Ok(outcomes) => decode_batch_spec(batch_view(results@)) == Some(
                outcomes_view(outcomes@),
            ),
            Err(_) => decode_batch_spec(batch_view(results@)) is None,
        },
{
    let ghost bv = batch_view(results@);
    let mut outcomes: Vec<(u32, ExternalResult)> = Vec::new();
    let mut i: usize = 0;
    while i < results.len()
        invariant
            i <= results.len(),
            bv == batch_view(results@),
            outcomes.len() == i,
            forall|j: int|
                0 <= j < i ==> (#[trigger] outcomes@[j]).0 == bv[j].0 && decode_external_spec(bv[j].1)
                    == Some(outcomes@[j].1@),
        decreases results.len() - i,
    {
        match decode_external_result(&results[i].1) {
            Ok(outcome) => {
                outcomes.push((results[i].0, outcome));
            },
            Err(e) => {
                assert(decode_external_spec(bv[i as int].1) is None);
                return Err(e);
            },
        }
        i = i + 1;
    }
    proof {
        assert forall|j: int| 0 <= j < bv.len() implies decode_external_spec((#[trigger] bv[j]).1) is Some by {
            assert(decode_external_spec(bv[j].1) == Some(outcomes@[j].1@));
        }
        assert(outcomes_view(outcomes@) =~= decode_batch_spec(bv)->0);
    }
    Ok(outcomes)
}

/// What resuming a batch does to the slot of its continuation and what it
/// asks of the engine.
pub open spec fn resume_futures_spec<F>(slot: Option<F>, results: Seq<(u32, TermView)>) -> (
    Option<F>,
    Result<(F, Seq<(u32, ExternalResultView)>), ResumeError>,
) {
    match slot {
        None => (None, Err(ResumeError::AlreadyConsumed)),
        Some(state) => match decode_batch_spec(results) {
            Some(outcomes) => (None, Ok((state, outcomes))),
            None => (None, Err(ResumeError::Undecodable)),
        },
    }
}

/// Prepares the resumption of a run that paused at a batch of outstanding
/// calls: takes the continuation and decodes the supplied results, each
/// under its call id. Calls without a supplied result stay outstanding.
pub fn resume_futures<F>(futures: &mut FutureSnapshotResource<F>, results: &Vec<(u32, Term)>) -> (r:
    Result<(F, Vec<(u32, ExternalResult)>), ResumeError>)
    ensures
        final(futures).held() == resume_futures_spec(old(futures).held(), batch_view(results@)).0,
        match r {
            Ok((state, outcomes)) => resume_futures_spec(old(futures).held(), batch_view(results@)).1
                == Ok::<(F, Seq<(u32, ExternalResultView)>), ResumeError>(
                (state, outcomes_view(outcomes@)),
            ),
            Err(e) => resume_futures_spec(old(futures).held(), batch_view(results@)).1 == Err::<
                (F, Seq<(u32, ExternalResultView)>),
                ResumeError,
            >(e),
        },
{
    let state = match futures.take() {
        Some(state) => state,
        None => {
            return Err(ResumeError::AlreadyConsumed);
        },
    };
    match decode_batch(results) {
        Ok(outcomes) => Ok((state, outcomes)),
        Err(_) => Err(ResumeError::Undecodable),
    }
}

/// The ids of the calls that a paused batch still waits for, as `ids_of`
/// reads them from the continuation. The continuation stays where it is.
pub fn pending_call_ids<F, Ids: FnOnce(&F) -> Vec<u32>>(
    futures: &FutureSnapshotResource<F>,
    ids_of: Ids,
) -> (r: Result<Vec<u32>, ResumeError>)
    requires
        futures.held() matches Some(snapshot) ==> call_requires(ids_of, (&snapshot,)),
    ensures
        match r {
            Ok(ids) => futures.held() matches Some(snapshot) && call_ensures(
                ids_of,
                (&snapshot,),
                ids,
            ),
            Err(e) => futures.held() is None && e == ResumeError::AlreadyConsumed,
        },
{
    match futures.with(ids_of) {
        Some(ids) => Ok(ids),
        None => Err(ResumeError::AlreadyConsumed),
    }
}

/// Resuming consumes: after a first resumption, whatever it was given and
/// however it ended, a second one fails because the continuation is gone.
pub proof fn lemma_resume_once<S>(slot: Option<S>, first: TermView, second: TermView)
    ensures
        resume_spec(resume_spec(slot, first).0, second).1 == Err::<
            (S, ExternalResultView),
            ResumeError,
        >(ResumeError::AlreadyConsumed),
        resume_spec(resume_spec(slot, first).0, second).0 is None,
{
}

/// Resuming a batch consumes in the same way.
pub proof fn lemma_resume_futures_once<F>(
    slot: Option<F>,
    first: Seq<(u32, TermView)>,
    second: Seq<(u32, TermView)>,
)
    ensures
        resume_futures_spec(resume_futures_spec(slot, first).0, second).1 == Err::<
            (F, Seq<(u32, ExternalResultView)>),
            ResumeError,
        >(ResumeError::AlreadyConsumed),
{
}

} // verus!
