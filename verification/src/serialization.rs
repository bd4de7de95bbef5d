//! Handing out, for storage, what the host holds, and taking it back in.
//! Writing a state as bytes and reading it back is the caller's part; the
//! rule that a continuation leaves its slot once is kept here.

use vstd::prelude::*;
use crate::interactive::{resume_spec, ExternalResultView, ResumeError};
use crate::resources::{FutureSnapshotResource, RunnerResource, SnapshotResource};
use crate::term::TermView;
use crate::value::{duplicate_names, names_view};

verus! {

/// What dumping does to the slot of a continuation and what it hands out:
/// a full slot is emptied and its state handed out, an empty slot stays
/// empty and the call fails.
pub open spec fn dump_spec<S>(slot: Option<S>) -> (Option<S>, Result<S, ResumeError>) {
    match slot {
        Some(state) => (None, Ok(state)),
        None => (None, Err(ResumeError::AlreadyConsumed)),
    }
}

/// Hands out a compiled program for storage: a copy of the program and of
/// the names that it declares. The handle stays as it is.
pub fn dump_runner<R: Clone>(runner: &RunnerResource<R>) -> (r: (R, Vec<String>))
    ensures
        cloned(runner.program(), r.0),
        names_view(r.1@) == runner.declared(),
{
    (runner.clone_runner(), duplicate_names(runner.input_names()))
}

/// Takes a stored program back in.
pub fn load_runner<R>(runner: R, input_names: Vec<String>) -> (r: RunnerResource<R>)
    ensures
        r.program() == runner,
        r.declared() == names_view(input_names@),
{
    RunnerResource::new(runner, input_names)
}

/// Hands out the continuation of a run that paused at one call, for
/// storage. This consumes the continuation as resuming does.
pub fn dump_snapshot<S>(snapshot: &mut SnapshotResource<S>) -> (r: Result<S, ResumeError>)
    ensures
        (final(snapshot).held(), r) == dump_spec(old(snapshot).held()),
{
    match snapshot.take() {
        Some(state) => Ok(state),
        None => Err(ResumeError::AlreadyConsumed),
    }
}

/// Takes a stored continuation back in: it can be consumed once again.
pub fn load_snapshot<S>(state: S) -> (r: SnapshotResource<S>)
    ensures
        r.held() == Some(state),
{
    SnapshotResource::new(state)
}

/// Hands out the continuation of a run that paused at a batch of
/// outstanding calls, for storage. This consumes the continuation as
/// resuming does.
pub fn dump_future_snapshot<F>(futures: &mut FutureSnapshotResource<F>) -> (r: Result<
    F,
    ResumeError,
>)
    ensures
        (final(futures).held(), r) == dump_spec(old(futures).held()),
{
    match futures.take() {
        Some(state) => Ok(state),
        None => Err(ResumeError::AlreadyConsumed),
    }
}

/// Takes a stored batch continuation back in: it can be consumed once
/// again.
pub fn load_future_snapshot<F>(state: F) -> (r: FutureSnapshotResource<F>)
    ensures
        r.held() == Some(state),
{
    FutureSnapshotResource::new(state)
}

/// Dumping and resuming consume alike: whichever comes first gets the
/// continuation, and whichever comes after it, dump or resumption, fails
/// because the continuation is gone.
pub proof fn lemma_dump_consumes<S>(slot: Option<S>, result: TermView)
    ensures
        dump_spec(dump_spec(slot).0).1 == Err::<S, ResumeError>(ResumeError::AlreadyConsumed),
        dump_spec(resume_spec(slot, result).0).1 == Err::<S, ResumeError>(
            ResumeError::AlreadyConsumed,
        ),
        resume_spec(dump_spec(slot).0, result).1 == Err::<(S, ExternalResultView), ResumeError>(
            ResumeError::AlreadyConsumed,
        ),
{
}

/// What was loaded can be dumped: a continuation that was taken back in
/// is handed out as the state that came in.
pub proof fn lemma_load_dump<S>(state: S)
    ensures
        dump_spec(Some(state)) == (None::<S>, Ok::<S, ResumeError>(state)),
{
}

} // verus!
