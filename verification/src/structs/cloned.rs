//! `cloned`: the values behind the references that a generator yields.

use crate::generator::{lemma_run_bounds, run_of, Generator};
use crate::script::Step;
use crate::signal::{GeneratorResult, ValueResult};
use crate::sink::{Sink, Sound};
use std::marker::PhantomData;
use vstd::prelude::*;

verus! {

/// Every clone of a value of `T` equals the value.
pub open spec fn faithful_clone<T: Clone>() -> bool {
    forall|a: T, b: T| cloned::<T>(a, b) ==> a == b
}

/// The script with each reference replaced by the value behind it.
pub open spec fn cloned_steps<'a, T>(steps: Seq<Step<&'a T>>) -> Seq<Step<T>> {
    Seq::new(
        steps.len(),
        |i: int|
            match steps[i] {
                Step::Give(x) => Step::Give(*x),
                Step::Pause => Step::Pause,
                Step::Last(x) => Step::Last(*x),
            },
    )
}

/// Hands a clone of each value to an inner sink.
pub struct Cloning<S, T> {
    inner: S,
    marker: PhantomData<T>,
}

impl<T: Clone, S: Sound> Sound for Cloning<S, T> {
    closed spec fn inv(&self) -> bool {
        faithful_clone::<T>() && self.inner.inv()
    }
}

impl<'a, T: Clone, S: Sink<T>> Sink<&'a T> for Cloning<S, T> {
    type State = S::State;

    closed spec fn state(&self) -> S::State {
        self.inner.state()
    }

    open spec fn verdict(s: S::State, value: &'a T) -> ValueResult {
        S::verdict(s, *value)
    }

    open spec fn step(s: S::State, value: &'a T) -> S::State {
        S::step(s, *value)
    }

    fn accept(&mut self, value: &'a T) -> (r: ValueResult) {
        let copy: T = value.clone();
        assert(cloned::<T>(*value, copy));
        self.inner.accept(copy)
    }
}

/// A run of the source into a cloning sink is a run of the cloned script into
/// the inner sink.
pub proof fn lemma_cloned_run<'a, T: Clone, S: Sink<T>>(steps: Seq<Step<&'a T>>, s: S::State)
    ensures
        ({
            let o = run_of::<&'a T, Cloning<S, T>>(steps, s);
            let p = run_of::<T, S>(cloned_steps(steps), s);
            &&& o.taken == p.taken
            &&& o.result == p.result
            &&& o.state == p.state
        }),
    decreases steps.len(),
{
    if steps.len() > 0 {
        let copies = cloned_steps(steps);
        assert(copies.skip(1) =~= cloned_steps(steps.skip(1)));
        match steps[0] {
            Step::Pause => {},
            Step::Give(x) => {
                lemma_cloned_run::<T, S>(steps.skip(1), S::step(s, *x));
            },
            Step::Last(x) => {
                assert(copies[0] == Step::Last(*x));
            },
        }
    }
}

/// The knowledge that clones of `T` are faithful.
#[verifier::reject_recursive_types(T)]
pub struct Faithful<T: Clone> {
    marker: PhantomData<T>,
}

impl<T: Clone> Faithful<T> {
    #[verifier::type_invariant]
    spec fn clones_are_faithful(&self) -> bool {
        faithful_clone::<T>()
    }

    /// Records that clones of `T` are faithful. The record holds no data; it
    /// is the type that carries the fact.
    pub fn new() -> (r: Self)
        requires
            faithful_clone::<T>(),
    {
        Faithful { marker: PhantomData }
    }

    /// Recalls that clones of `T` are faithful.
    pub fn recall(&self)
        ensures
            faithful_clone::<T>(),
    {
        proof {
            use_type_invariant(self);
        }
    }
}

/// Delivers a clone of the value behind each reference that its source yields.
#[verifier::reject_recursive_types(T)]
pub struct Cloned<Src, T: Clone> {
    source: Src,
    faithful: Faithful<T>,
}

impl<'a, T: 'a + Clone, Src: Generator<Output = &'a T>> Cloned<Src, T> {
    /// The values behind the references of `source`. A clone must equal what
    /// it is a clone of, and be known to: the script gives the values
    /// themselves. That is known of the number types, `bool` and `char`, and
    /// of a type whose `clone` states it.
    pub fn new(source: Src) -> (g: Self)
        requires
            faithful_clone::<T>(),
        ensures
            g.pending() == cloned_steps(source.pending()),
    {
        Cloned { source, faithful: Faithful::new() }
    }
}

impl<'a, T: 'a + Clone, Src: Generator<Output = &'a T>> Generator for Cloned<Src, T> {
    type Output = T;

    closed spec fn pending(&self) -> Seq<Step<T>> {
        cloned_steps(self.source.pending())
    }

    fn run<S: Sink<T>>(&mut self, sink: S) -> (ret: (GeneratorResult, S)) {
        proof {
            lemma_cloned_run::<T, S>(self.source.pending(), sink.state());
            lemma_run_bounds::<T, S>(self.pending(), sink.state());
        }
        self.faithful.recall();
        let cloning = Cloning { inner: sink, marker: PhantomData };
        let (result, cloning) = self.source.run(cloning);
        assert(self.pending() =~= old(self).pending().skip(
            run_of::<T, S>(old(self).pending(), sink.state()).taken as int,
        ));
        (result, cloning.inner)
    }
}

} // verus!
