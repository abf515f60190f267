//! `chain`: one generator after another.

use crate::generator::{lemma_run_bounds, lemma_run_concat, run_of, Generator};
use crate::script::{lemma_unlast, lemma_values_concat, unlast, values, Step};
use crate::signal::{GeneratorResult, ValueResult};
use crate::sink::{Sink, Sound};
use vstd::prelude::*;

verus! {

/// Passes every value on to an inner sink and takes note of its last answer.
/// A generator that is complete with its last value whatever the sink
/// answered does not say what the answer was; whoever runs another
/// generator into the same sink afterwards has to know.
pub struct Noting<S> {
    last: ValueResult,
    inner: S,
}

impl<S> Noting<S> {
    /// A sink that passes on to `inner`, and has noted no request to stop.
    pub fn new(inner: S) -> (n: Self)
        ensures
            n.last() == ValueResult::MoreValues,
            n.inner() == inner,
    {
        Noting { last: ValueResult::MoreValues, inner }
    }

    /// The last answer of the inner sink.
    pub closed spec fn last(&self) -> ValueResult {
        self.last
    }

    /// The inner sink.
    pub closed spec fn inner(&self) -> S {
        self.inner
    }

    /// Hands out the last answer and the inner sink.
    pub fn into_parts(self) -> (r: (ValueResult, S))
        ensures
            r.0 == self.last(),
            r.1 == self.inner(),
    {
        (self.last, self.inner)
    }
}

impl<S: Sound> Sound for Noting<S> {
    open spec fn inv(&self) -> bool {
        self.inner().inv()
    }
}

impl<T, S: Sink<T>> Sink<T> for Noting<S> {
    type State = (ValueResult, S::State);

    open spec fn state(&self) -> (ValueResult, S::State) {
        (self.last(), self.inner().state())
    }

    open spec fn verdict(s: (ValueResult, S::State), value: T) -> ValueResult {
        S::verdict(s.1, value)
    }

    open spec fn step(s: (ValueResult, S::State), value: T) -> (ValueResult, S::State) {
        (S::verdict(s.1, value), S::step(s.1, value))
    }

    fn accept(&mut self, value: T) -> (r: ValueResult) {
        self.last = self.inner.accept(value);
        self.last
    }
}

/// Whether a run into a noting sink, which reported `result` and noted
/// `last`, ended because the inner sink asked for it or the generator paused.
pub open spec fn halted(result: GeneratorResult, last: ValueResult) -> bool {
    result == GeneratorResult::Stopped || last == ValueResult::Stop
}

/// A run into a noting sink is a run of the heedful script into the inner
/// sink: it was halted if the run was stopped, or was complete with a value
/// at which the inner sink asked to stop.
pub proof fn lemma_noting_run<T, S: Sink<T>>(steps: Seq<Step<T>>, s: S::State)
    ensures
        ({
            let o = run_of::<T, Noting<S>>(steps, (ValueResult::MoreValues, s));
            let q = run_of::<T, S>(unlast(steps), s);
            &&& o.taken <= steps.len()
            &&& q.taken <= unlast(steps).len()
            &&& o.state.1 == q.state
            &&& (q.result == GeneratorResult::Stopped) == halted(o.result, o.state.0)
            &&& unlast(steps.skip(o.taken as int)) == unlast(steps).skip(q.taken as int)
            &&& o.result == GeneratorResult::Complete ==> q.taken == unlast(steps).len()
        }),
    decreases steps.len(),
{
    let o = run_of::<T, Noting<S>>(steps, (ValueResult::MoreValues, s));
    let heedful = unlast(steps);
    let q = run_of::<T, S>(heedful, s);
    lemma_run_bounds::<T, Noting<S>>(steps, (ValueResult::MoreValues, s));
    lemma_run_bounds::<T, S>(heedful, s);
    if steps.len() > 0 {
        let tail = steps.skip(1);
        match steps[0] {
            Step::Pause => {
                assert(heedful[0] == Step::<T>::Pause);
                assert(heedful.skip(1) =~= unlast(tail));
            },
            Step::Give(v) => {
                assert(heedful[0] == Step::Give(v));
                assert(heedful.skip(1) =~= unlast(tail));
                if S::verdict(s, v) == ValueResult::MoreValues {
                    let t = S::step(s, v);
                    lemma_noting_run::<T, S>(tail, t);
                    let o_tail = run_of::<T, Noting<S>>(tail, (ValueResult::MoreValues, t));
                    let q_tail = run_of::<T, S>(unlast(tail), t);
                    assert(steps.skip(o.taken as int) =~= tail.skip(o_tail.taken as int));
                    assert(heedful.skip(q.taken as int) =~= unlast(tail).skip(
                        q_tail.taken as int,
                    ));
                }
            },
            Step::Last(v) => {
                assert(heedful[0] == Step::Give(v));
                assert(heedful.skip(1) =~= Seq::<Step<T>>::empty());
                assert(steps.skip(o.taken as int) =~= Seq::<Step<T>>::empty());
                assert(unlast(steps.skip(o.taken as int)) =~= heedful.skip(1));
                assert(run_of::<T, S>(heedful.skip(1), S::step(s, v)).taken == 0);
            },
        }
    } else {
        assert(unlast(steps.skip(0)) =~= heedful.skip(0));
    }
}

/// The values of a chain are all the values of the first script and then all
/// the values of the second.
pub proof fn law_chain_values<T>(first: Seq<Step<T>>, second: Seq<Step<T>>)
    ensures
        values(unlast(first) + second) == values(first) + values(second),
{
    lemma_unlast(first);
    lemma_values_concat(unlast(first), second);
}

/// Delivers the values of a first generator and then those of a second. Once
/// the first is complete it is never run again. Where the first is complete
/// with a value at which the sink asked to stop, the run is stopped there,
/// and the second begins with the next run.
pub struct Chain<First, Second> {
    first: First,
    second: Second,
    first_active: bool,
}

impl<First: Generator, Second: Generator<Output = First::Output>> Chain<First, Second> {
    /// `first` followed by `second`.
    pub fn new(first: First, second: Second) -> (g: Self)
        ensures
            g.pending() == unlast(first.pending()) + second.pending(),
            g.in_first(),
            g.first_pending() == first.pending(),
            g.second_pending() == second.pending(),
    {
        Chain { first, second, first_active: true }
    }

    /// The first generator has not been seen to complete yet.
    pub closed spec fn in_first(&self) -> bool {
        self.first_active
    }

    /// What the first generator has left.
    pub closed spec fn first_pending(&self) -> Seq<Step<First::Output>> {
        self.first.pending()
    }

    /// What the second generator has left.
    pub closed spec fn second_pending(&self) -> Seq<Step<First::Output>> {
        self.second.pending()
    }
}

impl<First: Generator, Second: Generator<Output = First::Output>> Generator for Chain<
    First,
    Second,
> {
    type Output = First::Output;

    open spec fn pending(&self) -> Seq<Step<First::Output>> {
        if self.in_first() {
            unlast(self.first_pending()) + self.second_pending()
        } else {
            self.second_pending()
        }
    }

    /// A chain that has left its first side never goes back to it, nor
    /// touches it. A chain on its first side runs it: it stays there exactly
    /// when that run was stopped, and the second side is not touched by a
    /// run that is halted on the first.
    fn run<S: Sink<First::Output>>(&mut self, sink: S) -> (ret: (GeneratorResult, S))
        ensures
            !old(self).in_first() ==> {
                &&& !final(self).in_first()
                &&& final(self).first_pending() == old(self).first_pending()
            },
            old(self).in_first() ==> ({
                let o = run_of::<First::Output, Noting<S>>(
                    old(self).first_pending(),
                    (ValueResult::MoreValues, sink.state()),
                );
                &&& final(self).in_first() == (o.result == GeneratorResult::Stopped)
                &&& final(self).first_pending() == old(self).first_pending().skip(o.taken as int)
                &&& halted(o.result, o.state.0) ==> {
                    &&& ret.0 == GeneratorResult::Stopped
                    &&& final(self).second_pending() == old(self).second_pending()
                }
            }),
    {
        let mut out = sink;
        if self.first_active {
            let ghost heedful = unlast(self.first.pending());
            proof {
                lemma_unlast(self.first.pending());
                lemma_noting_run::<First::Output, S>(self.first.pending(), sink.state());
                lemma_run_concat::<First::Output, S>(heedful, self.second.pending(), sink.state());
            }
            let (result, noting) = self.first.run(Noting::new(out));
            let (last, returned) = noting.into_parts();
            out = returned;
            if result == GeneratorResult::Stopped {
                assert(self.pending() =~= old(self).pending().skip(
                    run_of::<First::Output, S>(old(self).pending(), sink.state()).taken as int,
                ));
                return (GeneratorResult::Stopped, out);
            }
            self.first_active = false;
            if last == ValueResult::Stop {
                assert(self.pending() =~= old(self).pending().skip(
                    run_of::<First::Output, S>(old(self).pending(), sink.state()).taken as int,
                ));
                return (GeneratorResult::Stopped, out);
            }
        }
        proof {
            lemma_run_bounds::<First::Output, S>(self.second.pending(), out.state());
        }
        let (result, out) = self.second.run(out);
        assert(self.pending() =~= old(self).pending().skip(
            run_of::<First::Output, S>(old(self).pending(), sink.state()).taken as int,
        ));
        (result, out)
    }
}

} // verus!
