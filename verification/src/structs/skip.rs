//! `skip`: a generator without its first `n` values.

use crate::generator::{lemma_run_bounds, run_of, Generator};
use crate::script::{gives, Step};
use crate::signal::GeneratorResult;
use crate::sink::Sink;
use crate::sinks::Countdown;
use vstd::prelude::*;

verus! {

/// The script without its first `n` values. Pauses among them stay.
pub open spec fn skip_steps<T>(steps: Seq<Step<T>>, n: nat) -> Seq<Step<T>>
    decreases steps.len(),
{
    if n == 0 || steps.len() == 0 {
        steps
    } else {
        match steps[0] {
            Step::Pause => seq![steps[0]] + skip_steps(steps.skip(1), n),
            Step::Give(_) => skip_steps(steps.skip(1), (n - 1) as nat),
            Step::Last(_) => Seq::empty(),
        }
    }
}

/// What an attempt to advance by `n` leaves of the script without its first
/// `n` values: nothing, if the attempt was complete; a pause and the rest, if
/// it was halted early; else what the generator has left.
pub proof fn lemma_skip_advance<T>(steps: Seq<Step<T>>, n: usize)
    requires
        n > 0,
    ensures
        ({
            let o = run_of::<T, Countdown>(steps, n);
            let rest = steps.skip(o.taken as int);
            &&& o.state <= n
            &&& o.taken <= steps.len()
            &&& skip_steps(steps, n as nat) == if o.result == GeneratorResult::Complete {
                Seq::empty()
            } else if o.state > 0 {
                seq![Step::Pause] + skip_steps(rest, o.state as nat)
            } else {
                rest
            }
        }),
    decreases steps.len(),
{
    let o = run_of::<T, Countdown>(steps, n);
    lemma_run_bounds::<T, Countdown>(steps, n);
    if steps.len() > 0 {
        let tail = steps.skip(1);
        match steps[0] {
            Step::Pause => {},
            Step::Give(v) => {
                if n == 1 {
                    assert(skip_steps(tail, 0) == tail);
                } else {
                    let m = (n - 1) as usize;
                    lemma_skip_advance::<T>(tail, m);
                    let o_tail = run_of::<T, Countdown>(tail, m);
                    assert(steps.skip(o.taken as int) =~= tail.skip(o_tail.taken as int));
                }
            },
            Step::Last(_) => {},
        }
    }
}

/// Over a source without pauses, `skip(n)` gives the items after the first
/// `n`, and nothing where there are no more than `n`.
pub proof fn law_skip_gives<T>(items: Seq<T>, n: nat)
    ensures
        n <= items.len() ==> skip_steps(gives(items), n) == gives(items.skip(n as int)),
        n >= items.len() ==> skip_steps(gives(items), n) == Seq::<Step<T>>::empty(),
    decreases items.len(),
{
    let steps = gives(items);
    if n > 0 && items.len() > 0 {
        let m = (n - 1) as nat;
        law_skip_gives(items.skip(1), m);
        assert(steps.skip(1) =~= gives(items.skip(1)));
    }
}

/// Passes over a fixed number of values of its source, over however many runs
/// that takes, and delivers the rest.
pub struct Skip<Gen> {
    generator: Gen,
    amount: usize,
}

impl<Gen: Generator> Skip<Gen> {
    /// `generator` without its first `amount` values.
    pub fn new(generator: Gen, amount: usize) -> (g: Self)
        ensures
            g.pending() == skip_steps(generator.pending(), amount as nat),
    {
        Skip { generator, amount }
    }
}

impl<Gen: Generator> Generator for Skip<Gen> {
    type Output = Gen::Output;

    closed spec fn pending(&self) -> Seq<Step<Gen::Output>> {
        skip_steps(self.generator.pending(), self.amount as nat)
    }

    fn run<S: Sink<Gen::Output>>(&mut self, sink: S) -> (ret: (GeneratorResult, S)) {
        if self.amount > 0 {
            proof {
                lemma_skip_advance::<Gen::Output>(self.generator.pending(), self.amount);
                lemma_run_bounds::<Gen::Output, Countdown>(self.generator.pending(), self.amount);
            }
            let (count, result) = self.generator.try_advance(self.amount);
            self.amount = self.amount - count;
            if result == GeneratorResult::Complete {
                assert(old(self).pending().skip(0) =~= self.pending());
                return (GeneratorResult::Complete, sink);
            }
            if self.amount > 0 {
                assert(old(self).pending().skip(1) =~= self.pending());
                return (GeneratorResult::Stopped, sink);
            }
        }
        self.generator.run(sink)
    }
}

} // verus!
