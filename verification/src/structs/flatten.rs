//! `flatten`: the values of the generators that a generator yields.

use crate::generator::{lemma_run_bounds, lemma_run_concat, run_of, Generator};
use crate::into_generator::IntoGenerator;
use crate::script::{lemma_unlast, lemma_values_concat, unlast, values, Step};
use crate::signal::{GeneratorResult, ValueResult};
use crate::sink::{Sink, Sound};
use crate::structs::chain::{halted, lemma_noting_run, Noting};
use vstd::prelude::*;

verus! {

/// The script in which each value is replaced by the script of the generator
/// made of it, in which a request to stop is heeded at every value.
pub open spec fn flat_steps<X: IntoGenerator>(steps: Seq<Step<X>>) -> Seq<Step<X::Output>>
    decreases steps.len(),
{
    if steps.len() == 0 {
        Seq::empty()
    } else {
        match steps[0] {
            Step::Pause => seq![Step::Pause] + flat_steps(steps.skip(1)),
            Step::Give(x) => unlast(x.script()) + flat_steps(steps.skip(1)),
            Step::Last(x) => unlast(x.script()),
        }
    }
}

/// What a generator that may be absent has left.
pub open spec fn pending_of<G: Generator>(current: Option<G>) -> Seq<Step<G::Output>> {
    match current {
        Some(g) => g.pending(),
        None => Seq::empty(),
    }
}

/// Makes a generator of each value and runs it into an inner sink, which it
/// lends to the generator for the run. It asks for the next value when that
/// generator is complete and the inner sink did not ask to stop; else it
/// asks to stop, keeps the generator, which may have more to give, and
/// takes note that the run was halted inside.
pub struct Unrolling<G, S> {
    current: Option<G>,
    halted: bool,
    inner: Option<S>,
}

impl<G, S: Sound> Sound for Unrolling<G, S> {
    closed spec fn inv(&self) -> bool {
        self.inner is Some && self.inner->0.inv()
    }
}

impl<X: IntoGenerator, S: Sink<X::Output>> Sink<X> for Unrolling<X::IntoGen, S> {
    type State = (Seq<Step<X::Output>>, bool, S::State);

    closed spec fn state(&self) -> (Seq<Step<X::Output>>, bool, S::State) {
        (pending_of(self.current), self.halted, self.inner->0.state())
    }

    open spec fn verdict(s: (Seq<Step<X::Output>>, bool, S::State), value: X) -> ValueResult {
        let o = run_of::<X::Output, Noting<S>>(value.script(), (ValueResult::MoreValues, s.2));
        if halted(o.result, o.state.0) {
            ValueResult::Stop
        } else {
            ValueResult::MoreValues
        }
    }

    open spec fn step(s: (Seq<Step<X::Output>>, bool, S::State), value: X) -> (
        Seq<Step<X::Output>>,
        bool,
        S::State,
    ) {
        let o = run_of::<X::Output, Noting<S>>(value.script(), (ValueResult::MoreValues, s.2));
        (value.script().skip(o.taken as int), halted(o.result, o.state.0), o.state.1)
    }

    fn accept(&mut self, value: X) -> (r: ValueResult) {
        let mut generator = value.into_gen();
        let held: Option<S> = self.inner.take();
        let (result, noting) = generator.run(Noting::new(held.unwrap()));
        let (last, sink) = noting.into_parts();
        self.inner = Some(sink);
        self.current = Some(generator);
        self.halted = result == GeneratorResult::Stopped || last == ValueResult::Stop;
        if self.halted {
            ValueResult::Stop
        } else {
            ValueResult::MoreValues
        }
    }
}

/// A run of the source into an unrolling sink that holds no unfinished
/// generator is a run of the flattened script into the inner sink; what is
/// left is what the generator now held has left, and then the rest flattened.
pub proof fn lemma_flat_run<X: IntoGenerator, S: Sink<X::Output>>(
    steps: Seq<Step<X>>,
    current: Seq<Step<X::Output>>,
    s: S::State,
)
    requires
        current.len() == 0,
    ensures
        ({
            let o = run_of::<X, Unrolling<X::IntoGen, S>>(steps, (current, false, s));
            let q = run_of::<X::Output, S>(flat_steps(steps), s);
            &&& (q.result == GeneratorResult::Stopped) == (o.state.1 || o.result
                == GeneratorResult::Stopped)
            &&& o.state.2 == q.state
            &&& o.taken <= steps.len()
            &&& q.taken <= flat_steps(steps).len()
            &&& unlast(o.state.0) + flat_steps(steps.skip(o.taken as int)) == flat_steps(
                steps,
            ).skip(q.taken as int)
        }),
    decreases steps.len(),
{
    let o = run_of::<X, Unrolling<X::IntoGen, S>>(steps, (current, false, s));
    let flat = flat_steps(steps);
    let q = run_of::<X::Output, S>(flat, s);
    lemma_run_bounds::<X, Unrolling<X::IntoGen, S>>(steps, (current, false, s));
    lemma_run_bounds::<X::Output, S>(flat, s);
    assert(unlast(current) =~= Seq::<Step<X::Output>>::empty());
    if steps.len() > 0 {
        let tail = steps.skip(1);
        let rest = flat_steps(tail);
        match steps[0] {
            Step::Pause => {
                assert(flat[0] == Step::<X::Output>::Pause);
                assert(unlast(current) + rest =~= flat.skip(1));
            },
            Step::Give(x) => {
                let inner = x.script();
                let on = run_of::<X::Output, Noting<S>>(inner, (ValueResult::MoreValues, s));
                let qx = run_of::<X::Output, S>(unlast(inner), s);
                lemma_unlast(inner);
                lemma_noting_run::<X::Output, S>(inner, s);
                lemma_run_concat::<X::Output, S>(unlast(inner), rest, s);
                lemma_run_bounds::<X::Output, Noting<S>>(inner, (ValueResult::MoreValues, s));
                let left = inner.skip(on.taken as int);
                if halted(on.result, on.state.0) {
                    assert(unlast(left) + rest =~= flat.skip(qx.taken as int));
                } else {
                    assert(left =~= Seq::<Step<X::Output>>::empty());
                    lemma_flat_run::<X, S>(tail, left, on.state.1);
                    let o_tail = run_of::<X, Unrolling<X::IntoGen, S>>(
                        tail,
                        (left, false, on.state.1),
                    );
                    let q_tail = run_of::<X::Output, S>(rest, on.state.1);
                    assert(steps.skip(o.taken as int) =~= tail.skip(o_tail.taken as int));
                    assert(flat.skip(q.taken as int) =~= rest.skip(q_tail.taken as int));
                }
            },
            Step::Last(x) => {
                let inner = x.script();
                let on = run_of::<X::Output, Noting<S>>(inner, (ValueResult::MoreValues, s));
                lemma_noting_run::<X::Output, S>(inner, s);
                assert(steps.skip(o.taken as int) =~= Seq::<Step<X>>::empty());
                let left = inner.skip(on.taken as int);
                assert(unlast(left) + flat_steps(steps.skip(o.taken as int)) =~= unlast(left));
            },
        }
    } else {
        assert(unlast(current) + flat_steps(steps.skip(0)) =~= flat.skip(0));
    }
}

/// The values of the generators made of `items`, one generator after the
/// other.
pub open spec fn flat_values<X: IntoGenerator>(items: Seq<X>) -> Seq<X::Output>
    decreases items.len(),
{
    if items.len() == 0 {
        Seq::empty()
    } else {
        values(items[0].script()) + flat_values(items.skip(1))
    }
}

/// The values of a flattened script are the values of the inner generators,
/// generator by generator, in order.
pub proof fn law_flat_values<X: IntoGenerator>(steps: Seq<Step<X>>)
    ensures
        values(flat_steps(steps)) == flat_values(values(steps)),
    decreases steps.len(),
{
    let flat = flat_steps(steps);
    if steps.len() == 0 {
        assert(values(flat) =~= flat_values(values(steps)));
    } else {
        let tail = steps.skip(1);
        law_flat_values(tail);
        match steps[0] {
            Step::Pause => {
                let pause = seq![Step::<X::Output>::Pause];
                assert(pause[0] == Step::<X::Output>::Pause);
                lemma_values_concat(pause, flat_steps(tail));
                assert(values(pause) =~= Seq::<X::Output>::empty()) by {
                    assert(pause.skip(1) =~= Seq::<Step<X::Output>>::empty());
                    assert(values(pause.skip(1)) =~= Seq::<X::Output>::empty());
                }
                assert(Seq::<X::Output>::empty() + values(flat_steps(tail)) =~= values(
                    flat_steps(tail),
                ));
            },
            Step::Give(x) => {
                lemma_unlast(x.script());
                lemma_values_concat(unlast(x.script()), flat_steps(tail));
                assert(values(steps)[0] == x);
                assert(values(steps).skip(1) =~= values(tail));
            },
            Step::Last(x) => {
                lemma_unlast(x.script());
                assert(values(steps) =~= seq![x]);
                assert(seq![x].skip(1) =~= Seq::<X>::empty());
                assert(flat_values(seq![x].skip(1)) =~= Seq::<X::Output>::empty());
                assert(values(x.script()) + Seq::<X::Output>::empty() =~= values(x.script()));
            },
        }
    }
}

/// Delivers the values of the generators made of the values of its source,
/// one generator after the other. It asks its source for the next one only
/// when the one at hand is complete. A run that is halted inside a generator
/// is stopped, also where that generator was the last that the source had.
pub struct Flatten<Src> where Src: Generator, Src::Output: IntoGenerator {
    source: Src,
    current_generator: Option<<Src::Output as IntoGenerator>::IntoGen>,
}

impl<Src> Flatten<Src> where Src: Generator, Src::Output: IntoGenerator {
    /// The values of the generators that `source` yields.
    pub fn new(source: Src) -> (g: Self)
        ensures
            g.pending() == flat_steps(source.pending()),
            g.source_pending() == source.pending(),
            g.current_pending() == Seq::<Step<<Src::Output as IntoGenerator>::Output>>::empty(),
    {
        let g = Flatten { source, current_generator: None };
        assert(g.pending() =~= flat_steps(source.pending()));
        g
    }

    /// What the source has left.
    pub closed spec fn source_pending(&self) -> Seq<Step<Src::Output>> {
        self.source.pending()
    }

    /// What the generator at hand has left.
    pub closed spec fn current_pending(&self) -> Seq<Step<<Src::Output as IntoGenerator>::Output>> {
        pending_of(self.current_generator)
    }
}

impl<Src> Generator for Flatten<Src> where Src: Generator, Src::Output: IntoGenerator {
    type Output = <Src::Output as IntoGenerator>::Output;

    open spec fn pending(&self) -> Seq<Step<<Src::Output as IntoGenerator>::Output>> {
        unlast(self.current_pending()) + flat_steps(self.source_pending())
    }

    /// The generator at hand is run first. Where that run is halted, the
    /// source is not touched. Else the source is run once into the unrolling
    /// sink, and moves on by the steps of that run: no further than the value
    /// whose generator the run was halted in.
    fn run<S: Sink<<Src::Output as IntoGenerator>::Output>>(&mut self, sink: S) -> (ret: (
        GeneratorResult,
        S,
    ))
        ensures
            ({
                let first = run_of::<<Src::Output as IntoGenerator>::Output, Noting<S>>(
                    old(self).current_pending(),
                    (ValueResult::MoreValues, sink.state()),
                );
                let left = old(self).current_pending().skip(first.taken as int);
                let outer = run_of::<
                    Src::Output,
                    Unrolling<<Src::Output as IntoGenerator>::IntoGen, S>,
                >(old(self).source_pending(), (left, false, first.state.1));
                &&& halted(first.result, first.state.0) ==> {
                    &&& ret.0 == GeneratorResult::Stopped
                    &&& final(self).source_pending() == old(self).source_pending()
                    &&& final(self).current_pending() == left
                }
                &&& !halted(first.result, first.state.0) ==> {
                    &&& ret.0 == if outer.state.1 {
                        GeneratorResult::Stopped
                    } else {
                        outer.result
                    }
                    &&& final(self).source_pending() == old(self).source_pending().skip(
                        outer.taken as int,
                    )
                    &&& final(self).current_pending() == outer.state.0
                }
            }),
    {
        let mut out = sink;
        let ghost flat = flat_steps(self.source.pending());
        let ghost first = pending_of(self.current_generator);
        proof {
            lemma_unlast(first);
            lemma_noting_run::<<Src::Output as IntoGenerator>::Output, S>(first, sink.state());
            lemma_run_concat::<<Src::Output as IntoGenerator>::Output, S>(
                unlast(first),
                flat,
                sink.state(),
            );
            lemma_run_bounds::<<Src::Output as IntoGenerator>::Output, Noting<S>>(
                first,
                (ValueResult::MoreValues, sink.state()),
            );
        }
        let held: Option<<Src::Output as IntoGenerator>::IntoGen> = self.current_generator.take();
        let mut current = match held {
            Some(mut generator) => {
                let (result, noting) = generator.run(Noting::new(out));
                let (last, returned) = noting.into_parts();
                out = returned;
                if result == GeneratorResult::Stopped || last == ValueResult::Stop {
                    self.current_generator = Some(generator);
                    assert(self.pending() =~= old(self).pending().skip(
                        run_of::<<Src::Output as IntoGenerator>::Output, S>(
                            old(self).pending(),
                            sink.state(),
                        ).taken as int,
                    ));
                    return (GeneratorResult::Stopped, out);
                }
                Some(generator)
            },
            None => {
                assert(first.skip(0) =~= first);
                None
            },
        };
        proof {
            assert(pending_of(current) =~= Seq::<
                Step<<Src::Output as IntoGenerator>::Output>,
            >::empty());
            lemma_flat_run::<Src::Output, S>(
                self.source.pending(),
                pending_of(current),
                out.state(),
            );
        }
        let unrolling = Unrolling { current, halted: false, inner: Some(out) };
        let (result, unrolling) = self.source.run(unrolling);
        let Unrolling { current, halted, inner } = unrolling;
        self.current_generator = current;
        assert(self.pending() =~= old(self).pending().skip(
            run_of::<<Src::Output as IntoGenerator>::Output, S>(
                old(self).pending(),
                sink.state(),
            ).taken as int,
        ));
        if halted {
            (GeneratorResult::Stopped, inner.unwrap())
        } else {
            (result, inner.unwrap())
        }
    }
}

} // verus!
