//! `map`: the values of a generator, transformed.

use crate::function::Transform;
use crate::generator::{lemma_run_bounds, run_of, Generator};
use crate::script::{values, Step};
use crate::signal::{GeneratorResult, ValueResult};
use crate::sink::{Sink, Sound};
use vstd::prelude::*;

verus! {

/// The script with `f` applied to each value.
pub open spec fn map_steps<A, F: Transform<A>>(f: F, steps: Seq<Step<A>>) -> Seq<Step<F::Out>> {
    Seq::new(
        steps.len(),
        |i: int|
            match steps[i] {
                Step::Give(x) => Step::Give(f.value(x)),
                Step::Pause => Step::Pause,
                Step::Last(x) => Step::Last(f.value(x)),
            },
    )
}

/// Applies a transformation to each value and hands the result to an inner
/// sink.
pub struct Mapping<'a, F, S> {
    transform: &'a F,
    inner: S,
}

impl<'a, F, S: Sound> Sound for Mapping<'a, F, S> {
    closed spec fn inv(&self) -> bool {
        self.inner.inv()
    }
}

impl<'a, A, F: Transform<A>, S: Sink<F::Out>> Sink<A> for Mapping<'a, F, S> {
    type State = (F, S::State);

    closed spec fn state(&self) -> (F, S::State) {
        (*self.transform, self.inner.state())
    }

    open spec fn verdict(s: (F, S::State), value: A) -> ValueResult {
        S::verdict(s.1, s.0.value(value))
    }

    open spec fn step(s: (F, S::State), value: A) -> (F, S::State) {
        (s.0, S::step(s.1, s.0.value(value)))
    }

    fn accept(&mut self, value: A) -> (r: ValueResult) {
        let mapped = self.transform.apply(value);
        self.inner.accept(mapped)
    }
}

/// A run of the source into a mapping sink is a run of the mapped script into
/// the inner sink.
pub proof fn lemma_map_run<A, F: Transform<A>, S: Sink<F::Out>>(
    f: F,
    steps: Seq<Step<A>>,
    s: S::State,
)
    ensures
        ({
            let o = run_of::<A, Mapping<F, S>>(steps, (f, s));
            let p = run_of::<F::Out, S>(map_steps(f, steps), s);
            &&& o.taken == p.taken
            &&& o.result == p.result
            &&& o.state == (f, p.state)
        }),
    decreases steps.len(),
{
    if steps.len() > 0 {
        let mapped = map_steps(f, steps);
        assert(mapped.skip(1) =~= map_steps(f, steps.skip(1)));
        match steps[0] {
            Step::Pause => {
                assert(mapped[0] == Step::<F::Out>::Pause);
            },
            Step::Give(x) => {
                assert(mapped[0] == Step::Give(f.value(x)));
                lemma_map_run::<A, F, S>(f, steps.skip(1), S::step(s, f.value(x)));
            },
            Step::Last(x) => {
                assert(mapped[0] == Step::Last(f.value(x)));
            },
        }
    }
}

/// The values of a mapped script are the results on the values of the script,
/// in the same order and number.
pub proof fn law_map_values<A, F: Transform<A>>(f: F, steps: Seq<Step<A>>)
    ensures
        values(map_steps(f, steps)) == values(steps).map_values(|x: A| f.value(x)),
    decreases steps.len(),
{
    let mapped = map_steps(f, steps);
    let results = values(steps).map_values(|x: A| f.value(x));
    if steps.len() > 0 {
        law_map_values::<A, F>(f, steps.skip(1));
        assert(mapped.skip(1) =~= map_steps(f, steps.skip(1)));
        match steps[0] {
            Step::Pause => {
                assert(mapped[0] == Step::<F::Out>::Pause);
            },
            Step::Give(x) => {
                assert(mapped[0] == Step::Give(f.value(x)));
                assert(values(mapped) =~= results);
            },
            Step::Last(x) => {
                assert(mapped[0] == Step::Last(f.value(x)));
                assert(values(mapped) =~= results);
            },
        }
    } else {
        assert(values(mapped) =~= results);
    }
}

/// Delivers the values of its source, each transformed.
pub struct Mapped<Gen, Func> {
    source: Gen,
    transform: Func,
}

impl<Gen: Generator, Func: Transform<Gen::Output>> Mapped<Gen, Func> {
    /// The values of `source`, each transformed by `transform`.
    pub fn new(source: Gen, transform: Func) -> (g: Self)
        ensures
            g.pending() == map_steps(transform, source.pending()),
    {
        Mapped { source, transform }
    }
}

impl<Gen: Generator, Func: Transform<Gen::Output>> Generator for Mapped<Gen, Func> {
    type Output = Func::Out;

    closed spec fn pending(&self) -> Seq<Step<Func::Out>> {
        map_steps(self.transform, self.source.pending())
    }

    fn run<S: Sink<Func::Out>>(&mut self, sink: S) -> (ret: (GeneratorResult, S)) {
        proof {
            lemma_map_run::<Gen::Output, Func, S>(
                self.transform,
                self.source.pending(),
                sink.state(),
            );
            lemma_run_bounds::<Func::Out, S>(self.pending(), sink.state());
        }
        let mapping = Mapping { transform: &self.transform, inner: sink };
        let (result, mapping) = self.source.run(mapping);
        assert(self.pending() =~= old(self).pending().skip(
            run_of::<Func::Out, S>(old(self).pending(), sink.state()).taken as int,
        ));
        (result, mapping.inner)
    }
}

} // verus!
