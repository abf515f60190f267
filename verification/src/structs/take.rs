//! `take`: the first `n` values of a generator.

use crate::generator::{lemma_run_bounds, run_of, Generator};
use crate::script::{gives, Step};
use crate::signal::{GeneratorResult, ValueResult};
use crate::sink::{Sink, Sound};
use vstd::prelude::*;

verus! {

/// The script up to and including its `n`-th value, which is its last:
/// with it the script is complete, whatever the sink answers. Nothing at all
/// for `n == 0`.
pub open spec fn take_steps<T>(steps: Seq<Step<T>>, n: nat) -> Seq<Step<T>>
    decreases steps.len(),
{
    if n == 0 || steps.len() == 0 {
        Seq::empty()
    } else {
        match steps[0] {
            Step::Pause => seq![steps[0]] + take_steps(steps.skip(1), n),
            Step::Give(v) => if n == 1 {
                seq![Step::Last(v)]
            } else {
                seq![steps[0]] + take_steps(steps.skip(1), (n - 1) as nat)
            },
            Step::Last(_) => seq![steps[0]],
        }
    }
}

/// Passes values on to an inner sink while a budget lasts, and asks the source
/// to stop with the value that uses the budget up.
pub struct Budget<S> {
    left: usize,
    inner: S,
}

impl<S: Sound> Sound for Budget<S> {
    closed spec fn inv(&self) -> bool {
        self.inner.inv()
    }
}

impl<T, S: Sink<T>> Sink<T> for Budget<S> {
    type State = (usize, S::State);

    closed spec fn state(&self) -> (usize, S::State) {
        (self.left, self.inner.state())
    }

    open spec fn verdict(s: (usize, S::State), value: T) -> ValueResult {
        if s.0 <= 1 {
            ValueResult::Stop
        } else {
            S::verdict(s.1, value)
        }
    }

    open spec fn step(s: (usize, S::State), value: T) -> (usize, S::State) {
        if s.0 == 0 {
            s
        } else {
            ((s.0 - 1) as usize, S::step(s.1, value))
        }
    }

    fn accept(&mut self, value: T) -> (r: ValueResult) {
        if self.left == 0 {
            return ValueResult::Stop;
        }
        self.left = self.left - 1;
        let answer = self.inner.accept(value);
        if self.left == 0 {
            ValueResult::Stop
        } else {
            answer
        }
    }
}

/// What `take` reports after its source, run into a budget, reported
/// `source_result` and left `left` of the budget: it is complete when its
/// source is, and when the budget is used up.
pub open spec fn take_result(source_result: GeneratorResult, left: usize) -> GeneratorResult {
    if source_result == GeneratorResult::Complete || left == 0 {
        GeneratorResult::Complete
    } else {
        GeneratorResult::Stopped
    }
}

/// A run of the source into a budget of `n` is a run of the first `n` values
/// into the inner sink.
pub proof fn lemma_take_run<T, S: Sink<T>>(steps: Seq<Step<T>>, n: usize, s: S::State)
    requires
        n > 0,
    ensures
        ({
            let o = run_of::<T, Budget<S>>(steps, (n, s));
            let p = run_of::<T, S>(take_steps(steps, n as nat), s);
            &&& o.state.0 <= n
            &&& o.taken <= steps.len()
            &&& o.state.1 == p.state
            &&& p.result == take_result(o.result, o.state.0)
            &&& p.result == GeneratorResult::Stopped ==> take_steps(
                steps.skip(o.taken as int),
                o.state.0 as nat,
            ) == take_steps(steps, n as nat).skip(p.taken as int)
            &&& p.result == GeneratorResult::Complete ==> p.taken == take_steps(
                steps,
                n as nat,
            ).len()
        }),
    decreases steps.len(),
{
    let o = run_of::<T, Budget<S>>(steps, (n, s));
    let taken = take_steps(steps, n as nat);
    let p = run_of::<T, S>(taken, s);
    lemma_run_bounds::<T, Budget<S>>(steps, (n, s));
    lemma_run_bounds::<T, S>(taken, s);
    if steps.len() > 0 {
        let rest = steps.skip(1);
        match steps[0] {
            Step::Pause => {
                assert(taken[0] == Step::<T>::Pause);
                assert(taken.skip(1) =~= take_steps(rest, n as nat));
            },
            Step::Give(v) => {
                if n == 1 {
                    assert(taken[0] == Step::Last(v));
                } else {
                    let m = (n - 1) as usize;
                    assert(taken[0] == Step::Give(v));
                    assert(taken.skip(1) =~= take_steps(rest, m as nat));
                    if S::verdict(s, v) == ValueResult::MoreValues {
                        lemma_take_run::<T, S>(rest, m, S::step(s, v));
                        let o_tail = run_of::<T, Budget<S>>(rest, (m, S::step(s, v)));
                        let p_tail = run_of::<T, S>(take_steps(rest, m as nat), S::step(s, v));
                        lemma_run_bounds::<T, Budget<S>>(rest, (m, S::step(s, v)));
                        lemma_run_bounds::<T, S>(take_steps(rest, m as nat), S::step(s, v));
                        assert(steps.skip(o.taken as int) =~= rest.skip(o_tail.taken as int));
                        assert(taken.skip(p.taken as int) =~= take_steps(rest, m as nat).skip(
                            p_tail.taken as int,
                        ));
                    }
                }
            },
            Step::Last(v) => {
                assert(taken[0] == Step::Last(v));
            },
        }
    }
}

/// The script that gives each of `items` in turn, the last of them as its
/// `Last`.
pub open spec fn gives_to_last<T>(items: Seq<T>) -> Seq<Step<T>> {
    Seq::new(
        items.len(),
        |i: int|
            if i + 1 == items.len() {
                Step::Last(items[i])
            } else {
                Step::Give(items[i])
            },
    )
}

/// Over a source without pauses, `take(n)` gives the first `n` items and is
/// complete with the `n`-th, whatever the sink answers to it; where there
/// are fewer than `n` items it gives them all, as the source does.
pub proof fn law_take_gives<T>(items: Seq<T>, n: nat)
    ensures
        n <= items.len() ==> take_steps(gives(items), n) == gives_to_last(items.take(n as int)),
        n > items.len() ==> take_steps(gives(items), n) == gives(items),
    decreases items.len(),
{
    let steps = gives(items);
    if n == 0 || items.len() == 0 {
        assert(gives_to_last(items.take(0)) =~= Seq::<Step<T>>::empty());
        assert(take_steps(steps, n) =~= Seq::<Step<T>>::empty());
        if items.len() == 0 {
            assert(steps =~= Seq::<Step<T>>::empty());
        }
    } else {
        let m = (n - 1) as nat;
        law_take_gives(items.skip(1), m);
        assert(steps[0] == Step::Give(items[0]));
        assert(steps.skip(1) =~= gives(items.skip(1)));
        if n == 1 {
            assert(seq![Step::Last(items[0])] =~= gives_to_last(items.take(1)));
        } else if n <= items.len() {
            assert(seq![steps[0]] + gives_to_last(items.skip(1).take(m as int)) =~= gives_to_last(
                items.take(n as int),
            ));
        }
        if n > items.len() {
            assert(seq![steps[0]] + gives(items.skip(1)) =~= steps);
        }
    }
}

/// A run over items of which the last is the script's `Last` hands over what
/// a run over the same items as plain values hands over, and uses up as many
/// steps; it is complete where that run reaches the last item, whatever the
/// sink answers to it.
pub proof fn law_run_to_last<T, S: Sink<T>>(items: Seq<T>, s: S::State)
    ensures
        ({
            let plain = run_of::<T, S>(gives(items), s);
            let o = run_of::<T, S>(gives_to_last(items), s);
            &&& o.state == plain.state
            &&& o.taken == plain.taken
            &&& o.result == if plain.taken == items.len() {
                GeneratorResult::Complete
            } else {
                GeneratorResult::Stopped
            }
        }),
    decreases items.len(),
{
    let steps = gives(items);
    let marked = gives_to_last(items);
    lemma_run_bounds::<T, S>(steps, s);
    if items.len() > 0 {
        let tail = items.skip(1);
        assert(steps[0] == Step::Give(items[0]));
        assert(steps.skip(1) =~= gives(tail));
        if items.len() == 1 {
            assert(marked[0] == Step::Last(items[0]));
            assert(run_of::<T, S>(steps.skip(1), S::step(s, items[0])).taken == 0);
        } else {
            assert(marked[0] == Step::Give(items[0]));
            assert(marked.skip(1) =~= gives_to_last(tail));
            law_run_to_last::<T, S>(tail, S::step(s, items[0]));
            lemma_run_bounds::<T, S>(gives(tail), S::step(s, items[0]));
        }
    }
}

/// Over a source without pauses, a run of `take` moves the source on by one
/// step for each value that it delivers, and by no more: a take of `n`
/// never moves its source past its `n`-th value.
pub proof fn law_take_advance<T, S: Sink<T>>(items: Seq<T>, n: usize, s: S::State)
    requires
        n > 0,
    ensures
        ({
            let o = run_of::<T, Budget<S>>(gives(items), (n, s));
            &&& o.taken == n - o.state.0
            &&& o.taken <= n
            &&& o.taken <= items.len()
        }),
    decreases items.len(),
{
    let steps = gives(items);
    if items.len() > 0 {
        assert(steps[0] == Step::Give(items[0]));
        assert(steps.skip(1) =~= gives(items.skip(1)));
        if n > 1 {
            law_take_advance::<T, S>(items.skip(1), (n - 1) as usize, S::step(s, items[0]));
        }
    }
}

/// Delivers at most a fixed number of values of its source, over however many
/// runs that takes. With the value that uses the number up it asks its source
/// to stop, and the run that delivers that value is complete, whatever the
/// sink answered to it, as is every run after it, whatever the source has
/// left. Once the number is used up the source is not run again.
pub struct Take<Src> {
    source: Src,
    amount_left: usize,
}

impl<Src: Generator> Take<Src> {
    /// The first `amount` values of `source`.
    pub fn new(source: Src, amount: usize) -> (g: Self)
        ensures
            g.pending() == take_steps(source.pending(), amount as nat),
            g.source_pending() == source.pending(),
            g.remaining() == amount,
    {
        Take { source, amount_left: amount }
    }

    /// What the source has left.
    pub closed spec fn source_pending(&self) -> Seq<Step<Src::Output>> {
        self.source.pending()
    }

    /// How many values may still be delivered.
    pub closed spec fn remaining(&self) -> usize {
        self.amount_left
    }
}

impl<Src: Generator> Generator for Take<Src> {
    type Output = Src::Output;

    open spec fn pending(&self) -> Seq<Step<Src::Output>> {
        take_steps(self.source_pending(), self.remaining() as nat)
    }

    /// With nothing left of the budget the source is left alone. Else the
    /// source is run once into the budget: it moves on by the steps of that
    /// run, and the budget shrinks by the values of that run.
    fn run<S: Sink<Src::Output>>(&mut self, sink: S) -> (ret: (GeneratorResult, S))
        ensures
            old(self).remaining() == 0 ==> {
                &&& final(self).source_pending() == old(self).source_pending()
                &&& final(self).remaining() == 0
            },
            old(self).remaining() > 0 ==> ({
                let o = run_of::<Src::Output, Budget<S>>(
                    old(self).source_pending(),
                    (old(self).remaining(), sink.state()),
                );
                &&& final(self).source_pending() == old(self).source_pending().skip(o.taken as int)
                &&& final(self).remaining() == if o.result == GeneratorResult::Complete {
                    0
                } else {
                    o.state.0
                }
                &&& ret.0 == take_result(o.result, o.state.0)
            }),
    {
        if self.amount_left == 0 {
            assert(self.pending().skip(0) =~= self.pending());
            return (GeneratorResult::Complete, sink);
        }
        proof {
            lemma_take_run::<Src::Output, S>(
                self.source.pending(),
                self.amount_left,
                sink.state(),
            );
            lemma_run_bounds::<Src::Output, Budget<S>>(
                self.source.pending(),
                (self.amount_left, sink.state()),
            );
        }
        let budget = Budget { left: self.amount_left, inner: sink };
        let (result, budget) = self.source.run(budget);
        let Budget { left, inner } = budget;
        if result == GeneratorResult::Complete {
            self.amount_left = 0;
            assert(self.pending() =~= Seq::<Step<Src::Output>>::empty());
            assert(self.pending() =~= old(self).pending().skip(old(self).pending().len() as int));
            return (GeneratorResult::Complete, inner);
        }
        self.amount_left = left;
        if left == 0 {
            assert(self.pending() =~= Seq::<Step<Src::Output>>::empty());
            assert(self.pending() =~= old(self).pending().skip(old(self).pending().len() as int));
            (GeneratorResult::Complete, inner)
        } else {
            (GeneratorResult::Stopped, inner)
        }
    }
}

} // verus!
