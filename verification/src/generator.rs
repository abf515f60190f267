//! The generator contract.
//!
//! What a generator still has to do is a finite script of steps. One run works
//! through the script from its front: a `Give` hands a value to the sink, and
//! the run halts as soon as the sink answers `Stop`; a `Pause` halts the run
//! although the sink did not ask for it; a `Last` hands a value to the sink
//! and completes the run whatever the sink answers. A run that reaches the
//! end of the script is complete. `run_of` is that rule, and every generator
//! follows it.

use crate::script::{gives, plain, Step};
use crate::signal::{GeneratorResult, ValueResult};
use crate::sink::Sink;
use crate::sinks::Countdown;
use vstd::prelude::*;

verus! {

/// How one run over a script ends.
pub struct Outcome<St> {
    /// The number of steps the run used up.
    pub taken: nat,
    /// The state the sink is left in.
    pub state: St,
    /// What the run reports.
    pub result: GeneratorResult,
}

/// One run over `steps` into a sink that starts in state `s`.
pub open spec fn run_of<T, S: Sink<T>>(steps: Seq<Step<T>>, s: S::State) -> Outcome<S::State>
    decreases steps.len(),
{
    if steps.len() == 0 {
        Outcome { taken: 0, state: s, result: GeneratorResult::Complete }
    } else {
        match steps[0] {
            Step::Pause => Outcome { taken: 1, state: s, result: GeneratorResult::Stopped },
            Step::Give(v) => {
                if S::verdict(s, v) == ValueResult::Stop {
                    Outcome { taken: 1, state: S::step(s, v), result: GeneratorResult::Stopped }
                } else {
                    let o = run_of::<T, S>(steps.skip(1), S::step(s, v));
                    Outcome { taken: o.taken + 1, state: o.state, result: o.result }
                }
            },
            Step::Last(v) => Outcome {
                taken: steps.len(),
                state: S::step(s, v),
                result: GeneratorResult::Complete,
            },
        }
    }
}

/// A run took a generator from script `before` to script `after`, and its sink
/// from state `s` to state `t`, and reported `result`.
pub open spec fn ran<T, S: Sink<T>>(
    before: Seq<Step<T>>,
    s: S::State,
    after: Seq<Step<T>>,
    t: S::State,
    result: GeneratorResult,
) -> bool {
    let o = run_of::<T, S>(before, s);
    &&& result == o.result
    &&& t == o.state
    &&& after == before.skip(o.taken as int)
}

/// As `ran`, for a run that works through the script from its back.
pub open spec fn ran_back<T, S: Sink<T>>(
    before: Seq<Step<T>>,
    s: S::State,
    after: Seq<Step<T>>,
    t: S::State,
    result: GeneratorResult,
) -> bool {
    let o = run_of::<T, S>(before.reverse(), s);
    &&& result == o.result
    &&& t == o.state
    &&& after == before.take(before.len() - o.taken)
}

/// An attempt to advance by `n` values took a generator from script `before`
/// to script `after`, passed `count` values and reported `result`: it is a run
/// into a sink that counts `n` values and then stops.
pub open spec fn advanced<T>(
    before: Seq<Step<T>>,
    n: usize,
    after: Seq<Step<T>>,
    count: usize,
    result: GeneratorResult,
) -> bool {
    let o = run_of::<T, Countdown>(before, n);
    &&& result == o.result
    &&& count == n - o.state
    &&& after == before.skip(o.taken as int)
}

/// As `advanced`, from the back of the script.
pub open spec fn advanced_back<T>(
    before: Seq<Step<T>>,
    n: usize,
    after: Seq<Step<T>>,
    count: usize,
    result: GeneratorResult,
) -> bool {
    let o = run_of::<T, Countdown>(before.reverse(), n);
    &&& result == o.result
    &&& count == n - o.state
    &&& after == before.take(before.len() - o.taken)
}

/// A run uses up no more steps than the script has, and all of them if it is
/// complete.
pub proof fn lemma_run_bounds<T, S: Sink<T>>(steps: Seq<Step<T>>, s: S::State)
    ensures
        run_of::<T, S>(steps, s).taken <= steps.len(),
        run_of::<T, S>(steps, s).result == GeneratorResult::Complete ==> run_of::<T, S>(
            steps,
            s,
        ).taken == steps.len(),
        run_of::<T, S>(steps, s).result == GeneratorResult::Stopped ==> run_of::<T, S>(
            steps,
            s,
        ).taken >= 1,
    decreases steps.len(),
{
    if steps.len() > 0 {
        match steps[0] {
            Step::Pause => {},
            Step::Give(v) => {
                if S::verdict(s, v) != ValueResult::Stop {
                    lemma_run_bounds::<T, S>(steps.skip(1), S::step(s, v));
                }
            },
            Step::Last(_) => {},
        }
    }
}

/// A counting sink never counts upwards.
pub proof fn lemma_countdown_run<T>(steps: Seq<Step<T>>, n: usize)
    ensures
        run_of::<T, Countdown>(steps, n).state <= n,
    decreases steps.len(),
{
    if steps.len() > 0 {
        match steps[0] {
            Step::Pause => {},
            Step::Give(v) => {
                if <Countdown as Sink<T>>::verdict(n, v) != ValueResult::Stop {
                    lemma_countdown_run::<T>(steps.skip(1), <Countdown as Sink<T>>::step(n, v));
                }
            },
            Step::Last(_) => {},
        }
    }
}

/// A run over `first + second`, where `first` has no `Last`, is a run over
/// `first` and, if that one is complete, a run over `second` from where it
/// left the sink.
pub proof fn lemma_run_concat<T, S: Sink<T>>(first: Seq<Step<T>>, second: Seq<Step<T>>, s: S::State)
    requires
        plain(first),
    ensures
        ({
            let a = run_of::<T, S>(first, s);
            let b = run_of::<T, S>(second, a.state);
            run_of::<T, S>(first + second, s) == if a.result == GeneratorResult::Stopped {
                a
            } else {
                Outcome { taken: first.len() + b.taken, state: b.state, result: b.result }
            }
        }),
    decreases first.len(),
{
    if first.len() > 0 {
        let all = first + second;
        let tail = first.skip(1);
        assert(all[0] == first[0]);
        assert(all.skip(1) =~= tail + second);
        assert forall|i: int| 0 <= i < tail.len() implies !(#[trigger] tail[i] is Last) by {
            assert(tail[i] == first[i + 1]);
        }
        match first[0] {
            Step::Pause => {},
            Step::Give(v) => {
                if S::verdict(s, v) == ValueResult::MoreValues {
                    lemma_run_concat::<T, S>(tail, second, S::step(s, v));
                }
            },
            Step::Last(_) => {},
        }
    } else {
        assert(first + second =~= second);
    }
}

/// A counting sink over a script without pauses passes `n` values and stops,
/// or runs out of values first.
pub proof fn lemma_countdown_gives<T>(items: Seq<T>, n: usize)
    requires
        n > 0,
    ensures
        n <= items.len() ==> run_of::<T, Countdown>(gives(items), n) == (Outcome {
            taken: n as nat,
            state: 0usize,
            result: GeneratorResult::Stopped,
        }),
        n > items.len() ==> run_of::<T, Countdown>(gives(items), n) == (Outcome {
            taken: items.len(),
            state: (n - items.len()) as usize,
            result: GeneratorResult::Complete,
        }),
    decreases items.len(),
{
    if items.len() > 0 {
        assert(gives(items).skip(1) =~= gives(items.skip(1)));
        if n > 1 {
            lemma_countdown_gives::<T>(items.skip(1), (n - 1) as usize);
        }
    }
}

/// A resumable producer that drives its values into a sink.
pub trait Generator: Sized {
    /// The type of the values.
    type Output;

    /// What the generator has left to do.
    spec fn pending(&self) -> Seq<Step<Self::Output>>;

    /// Drives values into `sink` until the sink asks to stop, the generator
    /// pauses of its own accord, or nothing is left. Hands the sink back with
    /// the outcome.
    fn run<S: Sink<Self::Output>>(&mut self, sink: S) -> (ret: (GeneratorResult, S))
        requires
            sink.inv(),
        ensures
            ret.1.inv(),
            ran::<Self::Output, S>(
                old(self).pending(),
                sink.state(),
                final(self).pending(),
                ret.1.state(),
                ret.0,
            ),
    ;

    /// Passes over the next `n` values without delivering them; `n` is
    /// positive. Returns how many were passed over, and the outcome: as a run
    /// into a sink that counts `n` values and then asks to stop. Generators
    /// that can jump do so in place of running.
    fn try_advance(&mut self, n: usize) -> (ret: (usize, GeneratorResult))
        requires
            n > 0,
        ensures
            advanced::<Self::Output>(old(self).pending(), n, final(self).pending(), ret.0, ret.1),
    {
        proof {
            lemma_countdown_run::<Self::Output>(self.pending(), n);
        }
        let (result, counter) = self.run(Countdown::new(n));
        (n - counter.left(), result)
    }
}

/// A generator that can also be run from the far end of its script. Both
/// directions work on the same script and never cross.
pub trait ReverseGenerator: Generator {
    /// As `run`, working through the script from its back.
    fn run_back<S: Sink<Self::Output>>(&mut self, sink: S) -> (ret: (GeneratorResult, S))
        requires
            sink.inv(),
        ensures
            ret.1.inv(),
            ran_back::<Self::Output, S>(
                old(self).pending(),
                sink.state(),
                final(self).pending(),
                ret.1.state(),
                ret.0,
            ),
    ;

    /// As `try_advance`, from the back; `n` is positive.
    fn try_advance_back(&mut self, n: usize) -> (ret: (usize, GeneratorResult))
        requires
            n > 0,
        ensures
            advanced_back::<Self::Output>(
                old(self).pending(),
                n,
                final(self).pending(),
                ret.0,
                ret.1,
            ),
    {
        proof {
            lemma_countdown_run::<Self::Output>(self.pending().reverse(), n);
        }
        let (result, counter) = self.run_back(Countdown::new(n));
        (n - counter.left(), result)
    }
}

} // verus!
