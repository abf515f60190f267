//! `filter_map`: the values of a generator, transformed, where the
//! transformation yields something.

use crate::function::Transform;
use crate::generator::{run_of, Generator};
use crate::script::Step;
use crate::signal::{GeneratorResult, ValueResult};
use crate::sink::{Sink, Sound};
use vstd::prelude::*;

verus! {

/// The script with each value replaced by what `f` makes of it, and without
/// the values of which `f` makes nothing.
pub open spec fn filter_map_steps<A, B, F: Transform<A, Out = Option<B>>>(
    f: F,
    steps: Seq<Step<A>>,
) -> Seq<Step<B>>
    decreases steps.len(),
{
    if steps.len() == 0 {
        Seq::empty()
    } else {
        match steps[0] {
            Step::Pause => seq![Step::Pause] + filter_map_steps::<A, B, F>(f, steps.skip(1)),
            Step::Give(x) => match f.value(x) {
                Some(y) => seq![Step::Give(y)] + filter_map_steps::<A, B, F>(f, steps.skip(1)),
                None => filter_map_steps::<A, B, F>(f, steps.skip(1)),
            },
            Step::Last(x) => match f.value(x) {
                Some(y) => seq![Step::Last(y)],
                None => Seq::empty(),
            },
        }
    }
}

/// Hands what a function makes of each value to an inner sink, and asks for
/// more after each value of which it makes nothing.
pub struct Refining<'a, F, S> {
    transform: &'a F,
    inner: S,
}

impl<'a, F, S: Sound> Sound for Refining<'a, F, S> {
    closed spec fn inv(&self) -> bool {
        self.inner.inv()
    }
}

impl<'a, A, B, F: Transform<A, Out = Option<B>>, S: Sink<B>> Sink<A> for Refining<'a, F, S> {
    type State = (F, S::State);

    closed spec fn state(&self) -> (F, S::State) {
        (*self.transform, self.inner.state())
    }

    open spec fn verdict(s: (F, S::State), value: A) -> ValueResult {
        match s.0.value(value) {
            Some(y) => S::verdict(s.1, y),
            None => ValueResult::MoreValues,
        }
    }

    open spec fn step(s: (F, S::State), value: A) -> (F, S::State) {
        match s.0.value(value) {
            Some(y) => (s.0, S::step(s.1, y)),
            None => s,
        }
    }

    fn accept(&mut self, value: A) -> (r: ValueResult) {
        let made: Option<B> = self.transform.apply(value);
        match made {
            Some(y) => self.inner.accept(y),
            None => ValueResult::MoreValues,
        }
    }
}

/// A run of the source into a refining sink is a run of the refined script
/// into the inner sink.
pub proof fn lemma_filter_map_run<A, B, F: Transform<A, Out = Option<B>>, S: Sink<B>>(
    f: F,
    steps: Seq<Step<A>>,
    s: S::State,
)
    ensures
        ({
            let o = run_of::<A, Refining<F, S>>(steps, (f, s));
            let q = run_of::<B, S>(filter_map_steps::<A, B, F>(f, steps), s);
            &&& o.result == q.result
            &&& o.state == (f, q.state)
            &&& o.taken <= steps.len()
            &&& q.taken <= filter_map_steps::<A, B, F>(f, steps).len()
            &&& filter_map_steps::<A, B, F>(f, steps.skip(o.taken as int)) == filter_map_steps::<
                A,
                B,
                F,
            >(f, steps).skip(q.taken as int)
        }),
    decreases steps.len(),
{
    let o = run_of::<A, Refining<F, S>>(steps, (f, s));
    let kept = filter_map_steps::<A, B, F>(f, steps);
    if steps.len() > 0 {
        let tail = steps.skip(1);
        let rest = filter_map_steps::<A, B, F>(f, tail);
        match steps[0] {
            Step::Pause => {},
            Step::Give(x) => {
                match f.value(x) {
                    Some(y) => {
                        assert(kept.skip(1) =~= rest);
                        if S::verdict(s, y) == ValueResult::MoreValues {
                            let t = S::step(s, y);
                            lemma_filter_map_run::<A, B, F, S>(f, tail, t);
                            let o_tail = run_of::<A, Refining<F, S>>(tail, (f, t));
                            assert(steps.skip(o.taken as int) =~= tail.skip(o_tail.taken as int));
                        }
                    },
                    None => {
                        lemma_filter_map_run::<A, B, F, S>(f, tail, s);
                        let o_tail = run_of::<A, Refining<F, S>>(tail, (f, s));
                        assert(steps.skip(o.taken as int) =~= tail.skip(o_tail.taken as int));
                    },
                }
            },
            Step::Last(x) => {
                assert(steps.skip(o.taken as int) =~= Seq::<Step<A>>::empty());
                match f.value(x) {
                    Some(y) => {
                        assert(kept[0] == Step::Last(y));
                        assert(kept.skip(1) =~= Seq::<Step<B>>::empty());
                    },
                    None => {
                        assert(kept.skip(0) =~= Seq::<Step<B>>::empty());
                    },
                }
            },
        }
    }
}

/// Delivers what a function makes of the values of its source, and passes
/// over the values of which it makes nothing.
pub struct FilterMap<Gen, Func> {
    source: Gen,
    transform: Func,
}

impl<Gen: Generator, Func: Transform<Gen::Output, Out = Option<Out>>, Out> FilterMap<Gen, Func> {
    /// What `transform` makes of the values of `source`.
    pub fn new(source: Gen, transform: Func) -> (g: Self)
        ensures
            g.pending() == filter_map_steps::<Gen::Output, Out, Func>(transform, source.pending()),
    {
        FilterMap { source, transform }
    }
}

impl<Gen: Generator, Func: Transform<Gen::Output, Out = Option<Out>>, Out> Generator for FilterMap<
    Gen,
    Func,
> {
    type Output = Out;

    closed spec fn pending(&self) -> Seq<Step<Out>> {
        filter_map_steps::<Gen::Output, Out, Func>(self.transform, self.source.pending())
    }

    fn run<S: Sink<Out>>(&mut self, sink: S) -> (ret: (GeneratorResult, S)) {
        proof {
            lemma_filter_map_run::<Gen::Output, Out, Func, S>(
                self.transform,
                self.source.pending(),
                sink.state(),
            );
        }
        let refining = Refining { transform: &self.transform, inner: sink };
        let (result, refining) = self.source.run(refining);
        (result, refining.inner)
    }
}

} // verus!
