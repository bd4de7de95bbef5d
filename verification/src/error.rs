//! Failures of the engine as the host sees them: exceptions with their
//! traceback, and limits that a run exceeded.

use vstd::prelude::*;
use crate::encode::{atom_spec, encode_opt_text, opt_text_spec, text_spec};
use crate::term::{entries_view, term_view, terms_view, Term, TermView};
use crate::text::{snake_case, snake_case_spec};
use crate::value::opt_str_view;

verus! {

/// A position in a source text.
#[derive(Clone, Copy, Debug, PartialEq, Eq, Structural)]
pub struct CodeLoc {
    pub line: u32,
    pub column: u32,
}

/// One frame of a traceback.
#[derive(Debug, PartialEq, Eq)]
pub struct StackFrame {
    /// The file that holds the code.
    pub filename: String,
    /// Where the code starts.
    pub start: CodeLoc,
    /// Where the code ends.
    pub end: CodeLoc,
    /// The name of the frame; none for code at module level.
    pub frame_name: Option<String>,
}

/// An exception that the interpreted program raised.
#[derive(Debug, PartialEq, Eq)]
pub struct MontyException {
    /// The name of the exception's type, capitalized-compound.
    pub exc_type: String,
    /// The message, if the exception has one.
    pub message: Option<String>,
    /// The traceback, outermost frame first.
    pub traceback: Vec<StackFrame>,
}

/// A limit that a run exceeded, with the limit and what was observed.
#[derive(Debug, PartialEq, Eq)]
pub enum ResourceError {
    /// Too many allocations.
    Allocation { limit: u64, count: u64 },
    /// Too much time; both in seconds, as the bits of a 64-bit float.
    Time { limit_secs: u64, elapsed_secs: u64 },
    /// Too much memory, in bytes.
    Memory { limit: u64, used: u64 },
    /// Too deep a recursion.
    Recursion { limit: u64, depth: u64 },
    /// An exception that the engine raised in place of a limit.
    Exception(MontyException),
}

/// The host's form of a stack frame: a record tagged
/// `Elixir.ExMonty.StackFrame`.
pub open spec fn stack_frame_spec(frame: StackFrame) -> TermView {
    TermView::Mapping(
        seq![
            (atom_spec("__struct__"), atom_spec("Elixir.ExMonty.StackFrame")),
            (atom_spec("filename"), text_spec(frame.filename@)),
            (atom_spec("line"), TermView::Integer(frame.start.line as int)),
            (atom_spec("column"), TermView::Integer(frame.start.column as int)),
            (atom_spec("end_line"), TermView::Integer(frame.end.line as int)),
            (atom_spec("end_column"), TermView::Integer(frame.end.column as int)),
            (atom_spec("name"), opt_text_spec(opt_str_view(frame.frame_name))),
        ],
    )
}

/// The host's form of each frame of a traceback.
pub open spec fn traceback_spec(frames: Seq<StackFrame>) -> Seq<TermView> {
    Seq::new(frames.len(), |i: int| stack_frame_spec(frames[i]))
}

/// The host's form of an exception: a record tagged
/// `Elixir.ExMonty.Exception` with the type as a word-separated atom, the
/// message, and the traceback.
pub open spec fn exception_spec(exc: MontyException) -> TermView {
    TermView::Mapping(
        seq![
            (atom_spec("__struct__"), atom_spec("Elixir.ExMonty.Exception")),
            (atom_spec("type"), TermView::Atom(snake_case_spec(exc.exc_type@))),
            (atom_spec("message"), opt_text_spec(opt_str_view(exc.message))),
            (atom_spec("traceback"), TermView::List(traceback_spec(exc.traceback@))),
        ],
    )
}

/// A tagged triple of a limit and what was observed.
pub open spec fn limit_triple_spec(tag: &str, limit: TermView, observed: TermView) -> TermView {
    TermView::Tuple(seq![atom_spec(tag), limit, observed])
}

/// The host's form of an exceeded limit.
pub open spec fn resource_error_spec(err: ResourceError) -> TermView {
    match err {
        ResourceError::Allocation { limit, count } => limit_triple_spec(
            "allocation_limit",
            TermView::Integer(limit as int),
            TermView::Integer(count as int),
        ),
        ResourceError::Time { limit_secs, elapsed_secs } => limit_triple_spec(
            "time_limit",
            TermView::Float(limit_secs),
            TermView::Float(elapsed_secs),
        ),
        ResourceError::Memory { limit, used } => limit_triple_spec(
            "memory_limit",
            TermView::Integer(limit as int),
            TermView::Integer(used as int),
        ),
        ResourceError::Recursion { limit, depth } => limit_triple_spec(
            "recursion_limit",
            TermView::Integer(limit as int),
            TermView::Integer(depth as int),
        ),
        ResourceError::Exception(exc) => exception_spec(exc),
    }
}

/// Encodes one frame of a traceback for the host.
pub fn encode_stack_frame(frame: &StackFrame) -> (r: Term)
    ensures
        r@ == stack_frame_spec(*frame),
{
    let mut entries: Vec<(Term, Term)> = Vec::new();
    entries.push((Term::atom("__struct__"), Term::atom("Elixir.ExMonty.StackFrame")));
    entries.push((Term::atom("filename"), Term::text(frame.filename.as_str())));
    entries.push((Term::atom("line"), Term::Integer(frame.start.line as i64)));
    entries.push((Term::atom("column"), Term::Integer(frame.start.column as i64)));
    entries.push((Term::atom("end_line"), Term::Integer(frame.end.line as i64)));
    entries.push((Term::atom("end_column"), Term::Integer(frame.end.column as i64)));
    entries.push((Term::atom("name"), encode_opt_text(&frame.frame_name)));
    assert(entries_view(entries@) =~= seq![
        (atom_spec("__struct__"), atom_spec("Elixir.ExMonty.StackFrame")),
        (atom_spec("filename"), text_spec(frame.filename@)),
        (atom_spec("line"), TermView::Integer(frame.start.line as int)),
        (atom_spec("column"), TermView::Integer(frame.start.column as int)),
        (atom_spec("end_line"), TermView::Integer(frame.end.line as int)),
        (atom_spec("end_column"), TermView::Integer(frame.end.column as int)),
        (atom_spec("name"), opt_text_spec(opt_str_view(frame.frame_name))),
    ]);
    Term::Mapping(entries)
}

/// Encodes an exception for the host.
pub fn encode_monty_exception(exc: &MontyException) -> (r: Term)
    ensures
        r@ == exception_spec(*exc),
{
    let mut traceback: Vec<Term> = Vec::new();
    let mut i: usize = 0;
    while i < exc.traceback.len()
        invariant
            i <= exc.traceback.len(),
            traceback.len() == i,
            forall|j: int|
                0 <= j < i ==> term_view(#[trigger] traceback@[j]) == stack_frame_spec(
                    exc.traceback@[j],
                ),
        decreases exc.traceback.len() - i,
    {
        traceback.push(encode_stack_frame(&exc.traceback[i]));
        i = i + 1;
    }
    assert(terms_view(traceback@) =~= traceback_spec(exc.traceback@));
    let mut entries: Vec<(Term, Term)> = Vec::new();
    entries.push((Term::atom("__struct__"), Term::atom("Elixir.ExMonty.Exception")));
    entries.push((Term::atom("type"), Term::Atom(snake_case(exc.exc_type.as_str()))));
    entries.push((Term::atom("message"), encode_opt_text(&exc.message)));
    entries.push((Term::atom("traceback"), Term::List(traceback)));
    assert(entries_view(entries@) =~= seq![
        (atom_spec("__struct__"), atom_spec("Elixir.ExMonty.Exception")),
        (atom_spec("type"), TermView::Atom(snake_case_spec(exc.exc_type@))),
        (atom_spec("message"), opt_text_spec(opt_str_view(exc.message))),
        (atom_spec("traceback"), TermView::List(traceback_spec(exc.traceback@))),
    ]);
    Term::Mapping(entries)
}

/// A tagged triple of a limit and what was observed.
fn limit_triple(tag: &str, limit: Term, observed: Term) -> (r: Term)
    ensures
        r@ == limit_triple_spec(tag, limit@, observed@),
{
    let mut elements: Vec<Term> = Vec::new();
    elements.push(Term::atom(tag));
    elements.push(limit);
    elements.push(observed);
    assert(terms_view(elements@) =~= seq![atom_spec(tag), limit@, observed@]);
    Term::Tuple(elements)
}

/// Encodes an exceeded limit for the host: a triple of the limit's tag, the
/// limit and what was observed, or the exception that stands in its place.
pub fn encode_resource_error(err: &ResourceError) -> (r: Term)
    ensures
        r@ == resource_error_spec(*err),
{
    match err {
        ResourceError::Allocation { limit, count } => limit_triple(
            "allocation_limit",
            Term::from_u64(*limit),
            Term::from_u64(*count),
        ),
        ResourceError::Time { limit_secs, elapsed_secs } => limit_triple(
            "time_limit",
            Term::Float(*limit_secs),
            Term::Float(*elapsed_secs),
        ),
        ResourceError::Memory { limit, used } => limit_triple(
            "memory_limit",
            Term::from_u64(*limit),
            Term::from_u64(*used),
        ),
        ResourceError::Recursion { limit, depth } => limit_triple(
            "recursion_limit",
            Term::from_u64(*limit),
            Term::from_u64(*depth),
        ),
        ResourceError::Exception(exc) => encode_monty_exception(exc),
    }
}

} // verus!
