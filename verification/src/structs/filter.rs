//! `filter`: the values of a generator that satisfy a predicate.

use crate::function::Predicate;
use crate::generator::{run_of, Generator};
use crate::script::{values, Step};
use crate::signal::{GeneratorResult, ValueResult};
use crate::sink::{Sink, Sound};
use vstd::prelude::*;

verus! {

/// The script without the values that `p` rejects.
pub open spec fn filter_steps<T, P: Predicate<T>>(p: P, steps: Seq<Step<T>>) -> Seq<Step<T>>
    decreases steps.len(),
{
    if steps.len() == 0 {
        steps
    } else {
        match steps[0] {
            Step::Pause => seq![steps[0]] + filter_steps(p, steps.skip(1)),
            Step::Give(x) => if p.holds(x) {
                seq![steps[0]] + filter_steps(p, steps.skip(1))
            } else {
                filter_steps(p, steps.skip(1))
            },
            Step::Last(x) => if p.holds(x) {
                seq![steps[0]]
            } else {
                Seq::empty()
            },
        }
    }
}

/// Hands the values that satisfy a predicate to an inner sink, and asks for
/// more after each of the others.
pub struct Sieve<'a, P, S> {
    predicate: &'a P,
    inner: S,
}

impl<'a, P, S: Sound> Sound for Sieve<'a, P, S> {
    closed spec fn inv(&self) -> bool {
        self.inner.inv()
    }
}

impl<'a, T, P: Predicate<T>, S: Sink<T>> Sink<T> for Sieve<'a, P, S> {
    type State = (P, S::State);

    closed spec fn state(&self) -> (P, S::State) {
        (*self.predicate, self.inner.state())
    }

    open spec fn verdict(s: (P, S::State), value: T) -> ValueResult {
        if s.0.holds(value) {
            S::verdict(s.1, value)
        } else {
            ValueResult::MoreValues
        }
    }

    open spec fn step(s: (P, S::State), value: T) -> (P, S::State) {
        if s.0.holds(value) {
            (s.0, S::step(s.1, value))
        } else {
            s
        }
    }

    fn accept(&mut self, value: T) -> (r: ValueResult) {
        if self.predicate.decide(&value) {
            self.inner.accept(value)
        } else {
            ValueResult::MoreValues
        }
    }
}

/// A run of the source into a sieve is a run of the filtered script into the
/// inner sink.
pub proof fn lemma_filter_run<T, P: Predicate<T>, S: Sink<T>>(
    p: P,
    steps: Seq<Step<T>>,
    s: S::State,
)
    ensures
        ({
            let o = run_of::<T, Sieve<P, S>>(steps, (p, s));
            let q = run_of::<T, S>(filter_steps(p, steps), s);
            &&& o.result == q.result
            &&& o.state == (p, q.state)
            &&& o.taken <= steps.len()
            &&& q.taken <= filter_steps(p, steps).len()
            &&& filter_steps(p, steps.skip(o.taken as int)) == filter_steps(
                p,
                steps,
            ).skip(q.taken as int)
        }),
    decreases steps.len(),
{
    let o = run_of::<T, Sieve<P, S>>(steps, (p, s));
    let kept = filter_steps(p, steps);
    if steps.len() > 0 {
        let tail = steps.skip(1);
        let rest = filter_steps(p, tail);
        match steps[0] {
            Step::Pause => {},
            Step::Give(x) => {
                if p.holds(x) {
                    assert(kept.skip(1) =~= rest);
                    if S::verdict(s, x) == ValueResult::MoreValues {
                        let t = S::step(s, x);
                        lemma_filter_run::<T, P, S>(p, tail, t);
                        let o_tail = run_of::<T, Sieve<P, S>>(tail, (p, t));
                        assert(steps.skip(o.taken as int) =~= tail.skip(o_tail.taken as int));
                    }
                } else {
                    lemma_filter_run::<T, P, S>(p, tail, s);
                    let o_tail = run_of::<T, Sieve<P, S>>(tail, (p, s));
                    assert(steps.skip(o.taken as int) =~= tail.skip(o_tail.taken as int));
                }
            },
            Step::Last(x) => {
                assert(steps.skip(o.taken as int) =~= Seq::<Step<T>>::empty());
                if p.holds(x) {
                    assert(kept.skip(1) =~= Seq::<Step<T>>::empty());
                } else {
                    assert(kept.skip(0) =~= Seq::<Step<T>>::empty());
                }
            },
        }
    }
}

/// The values of a filtered script are the values of the script that satisfy
/// the predicate, in the same order.
pub proof fn law_filter_values<T, P: Predicate<T>>(p: P, steps: Seq<Step<T>>)
    ensures
        values(filter_steps(p, steps)) == values(steps).filter(
            |x: T| p.holds(x),
        ),
    decreases steps.len(),
{
    let kept = filter_steps(p, steps);
    let test = |x: T| p.holds(x);
    if steps.len() == 0 {
        reveal(Seq::filter);
    } else {
        let tail = steps.skip(1);
        law_filter_values::<T, P>(p, tail);
        let rest = filter_steps(p, tail);
        match steps[0] {
            Step::Pause => {
                assert(kept.skip(1) =~= rest);
            },
            Step::Give(x) => {
                values(tail).lemma_filter_prepend(x, test);
                if p.holds(x) {
                    assert(kept.skip(1) =~= rest);
                }
            },
            Step::Last(x) => {
                Seq::<T>::empty().lemma_filter_prepend(x, test);
                reveal(Seq::filter);
                assert(seq![x] + Seq::<T>::empty() =~= seq![x]);
                assert(Seq::<T>::empty().filter(test) =~= Seq::<T>::empty());
                if p.holds(x) {
                    assert(kept.skip(1) =~= Seq::<Step<T>>::empty());
                    assert(values(kept.skip(1)) =~= Seq::<T>::empty());
                    assert(values(kept) =~= seq![x]);
                } else {
                    assert(values(kept) =~= Seq::<T>::empty());
                }
            },
        }
    }
}

/// Delivers the values of its source that satisfy a predicate. A value that
/// fails it never ends a run.
pub struct Filter<Gen, Pred> {
    generator: Gen,
    predicate: Pred,
}

impl<Gen: Generator, Pred: Predicate<Gen::Output>> Filter<Gen, Pred> {
    /// The values of `generator` that satisfy `predicate`.
    pub fn new(generator: Gen, predicate: Pred) -> (g: Self)
        ensures
            g.pending() == filter_steps(predicate, generator.pending()),
    {
        Filter { generator, predicate }
    }
}

impl<Gen: Generator, Pred: Predicate<Gen::Output>> Generator for Filter<Gen, Pred> {
    type Output = Gen::Output;

    closed spec fn pending(&self) -> Seq<Step<Gen::Output>> {
        filter_steps(self.predicate, self.generator.pending())
    }

    fn run<S: Sink<Gen::Output>>(&mut self, sink: S) -> (ret: (GeneratorResult, S)) {
        proof {
            lemma_filter_run::<Gen::Output, Pred, S>(
                self.predicate,
                self.generator.pending(),
                sink.state(),
            );
        }
        let sieve = Sieve { predicate: &self.predicate, inner: sink };
        let (result, sieve) = self.generator.run(sieve);
        (result, sieve.inner)
    }
}

} // verus!
