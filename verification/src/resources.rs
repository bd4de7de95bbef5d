//! What the host holds between two calls: the compiled program, which is
//! shared, and the continuations, each of which is consumed once.

use vstd::prelude::*;
use crate::value::names_view;

verus! {

/// A compiled program with the names of the inputs that it declares, in
/// order. It is never changed and can be shared.
#[derive(Debug)]
pub struct RunnerResource<R> {
    runner: R,
    input_names: Vec<String>,
}

impl<R> RunnerResource<R> {
    /// The program that the handle holds.
    pub closed spec fn program(&self) -> R {
        self.runner
    }

    /// The names of the inputs that the program declares.
    pub closed spec fn declared(&self) -> Seq<Seq<char>> {
        names_view(self.input_names@)
    }

    /// The handle of a compiled program and its declared input names.
    pub fn new(runner: R, input_names: Vec<String>) -> (r: Self)
        ensures
            r.program() == runner,
            r.declared() == names_view(input_names@),
    {
        RunnerResource { runner, input_names }
    }

    /// The program.
    pub fn runner(&self) -> (r: &R)
        ensures
            *r == self.program(),
    {
        &self.runner
    }

    /// The names of the inputs that the program declares, in order.
    pub fn input_names(&self) -> (r: &Vec<String>)
        ensures
            names_view(r@) == self.declared(),
    {
        &self.input_names
    }
}

impl<R: Clone> RunnerResource<R> {
    /// An independent handle on the same program.
    pub fn clone_runner(&self) -> (r: R)
        ensures
            cloned(self.program(), r),
    {
        self.runner.clone()
    }
}

/// What taking from a slot yields: the slot is empty afterwards, and the
/// taker has what the slot held.
pub open spec fn take_spec<S>(slot: Option<S>) -> (Option<S>, Option<S>) {
    (None, slot)
}

/// The continuation of a run that paused at one call. It is consumed once:
/// whoever takes it first has it, and every later taker finds it gone.
#[derive(Debug)]
pub struct SnapshotResource<S> {
    snapshot: Option<S>,
}

impl<S> SnapshotResource<S> {
    /// What the slot holds.
    pub closed spec fn held(&self) -> Option<S> {
        self.snapshot
    }

    /// Whether the continuation was taken.
    pub open spec fn consumed(&self) -> bool {
        self.held() is None
    }

    /// A slot that holds the continuation.
    pub fn new(snapshot: S) -> (r: Self)
        ensures
            r.held() == Some(snapshot),
    {
        SnapshotResource { snapshot: Some(snapshot) }
    }

    /// Takes the continuation out. Returns `None` if it was taken before.
    pub fn take(&mut self) -> (r: Option<S>)
        ensures
            (final(self).held(), r) == take_spec(old(self).held()),
    {
        self.snapshot.take()
    }
}

/// The continuation of a run that paused at a batch of outstanding calls.
/// It is consumed once, and can be looked at while it is there.
#[derive(Debug)]
pub struct FutureSnapshotResource<F> {
    snapshot: Option<F>,
}

impl<F> FutureSnapshotResource<F> {
    /// What the slot holds.
    pub closed spec fn held(&self) -> Option<F> {
        self.snapshot
    }

    /// Whether the continuation was taken.
    pub open spec fn consumed(&self) -> bool {
        self.held() is None
    }

    /// A slot that holds the continuation.
    pub fn new(snapshot: F) -> (r: Self)
        ensures
            r.held() == Some(snapshot),
    {
        FutureSnapshotResource { snapshot: Some(snapshot) }
    }

    /// Takes the continuation out. Returns `None` if it was taken before.
    pub fn take(&mut self) -> (r: Option<F>)
        ensures
            (final(self).held(), r) == take_spec(old(self).held()),
    {
        self.snapshot.take()
    }

    /// Looks at the continuation without taking it: the result of `f` on
    /// it, or `None` if it was taken before.
    pub fn with<T, Look: FnOnce(&F) -> T>(&self, f: Look) -> (r: Option<T>)
        requires
            self.held() matches Some(snapshot) ==> call_requires(f, (&snapshot,)),
        ensures
            match r {
                Some(seen) => self.held() matches Some(snapshot) && call_ensures(
                    f,
                    (&snapshot,),
                    seen,
                ),
                None => self.held() is None,
            },
    {
        match &self.snapshot {
            Some(snapshot) => Some(f(snapshot)),
            None => None,
        }
    }
}

/// A continuation is consumed once: after a first take, whatever it found,
/// a second take finds nothing.
pub proof fn lemma_take_once<S>(slot: Option<S>)
    ensures
        take_spec(take_spec(slot).0).1 is None,
        take_spec(slot).0 is None,
{
}

} // verus!
