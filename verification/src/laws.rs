//! What holds of every run, whatever the generator and the sink.

use crate::generator::{lemma_run_bounds, run_of, Outcome};
use crate::script::{burst, gives, pauses, plain, values, Step};
use crate::signal::{GeneratorResult, ValueResult};
use crate::sink::{feed, never_stops, Sink};
use crate::sinks::{Collect, Countdown};
use vstd::prelude::*;

verus! {

/// The state a sink reaches by resuming a script until it is complete: run
/// after run, each from where the one before stopped.
pub open spec fn drain_of<T, S: Sink<T>>(steps: Seq<Step<T>>, s: S::State) -> S::State
    decreases steps.len(),
{
    let o = run_of::<T, S>(steps, s);
    if o.result == GeneratorResult::Complete || o.taken == 0 || o.taken > steps.len() {
        o.state
    } else {
        drain_of::<T, S>(steps.skip(o.taken as int), o.state)
    }
}

/// Feeding a sink two sequences of values, one after the other.
pub proof fn lemma_feed_concat<T, S: Sink<T>>(s: S::State, head: Seq<T>, tail: Seq<T>)
    ensures
        feed::<T, S>(s, head + tail) == feed::<T, S>(feed::<T, S>(s, head), tail),
    decreases head.len(),
{
    if head.len() > 0 {
        lemma_feed_concat::<T, S>(S::step(s, head[0]), head.skip(1), tail);
        assert((head + tail).skip(1) =~= head.skip(1) + tail);
    }
}

/// No loss, no duplicate, no reordering: a run hands its sink exactly the
/// values of the steps it uses up, in order, and the values of what is left
/// are those that were not handed over.
pub proof fn law_delivery<T, S: Sink<T>>(steps: Seq<Step<T>>, s: S::State)
    ensures
        ({
            let o = run_of::<T, S>(steps, s);
            &&& o.taken <= steps.len()
            &&& o.state == feed::<T, S>(s, values(steps.take(o.taken as int)))
            &&& values(steps) == values(steps.take(o.taken as int)) + values(
                steps.skip(o.taken as int),
            )
        }),
    decreases steps.len(),
{
    let o = run_of::<T, S>(steps, s);
    lemma_run_bounds::<T, S>(steps, s);
    let used = steps.take(o.taken as int);
    let left = steps.skip(o.taken as int);
    if steps.len() == 0 {
        assert(used =~= steps);
        assert(values(used) + values(left) =~= values(steps));
    } else {
        let tail = steps.skip(1);
        assert(used[0] == steps[0]);
        match steps[0] {
            Step::Pause => {
                assert(used.skip(1) =~= Seq::<Step<T>>::empty());
                assert(values(used.skip(1)) =~= Seq::<T>::empty());
                assert(values(used) + values(left) =~= values(steps));
            },
            Step::Give(v) => {
                if S::verdict(s, v) == ValueResult::Stop {
                    assert(used.skip(1) =~= Seq::<Step<T>>::empty());
                    assert(values(used.skip(1)) =~= Seq::<T>::empty());
                    assert(values(used) =~= seq![v]);
                    assert(seq![v].skip(1) =~= Seq::<T>::empty());
                    assert(feed::<T, S>(S::step(s, v), seq![v].skip(1)) == S::step(s, v));
                } else {
                    let t = S::step(s, v);
                    law_delivery::<T, S>(tail, t);
                    let o_tail = run_of::<T, S>(tail, t);
                    assert(used.skip(1) =~= tail.take(o_tail.taken as int));
                    assert(left =~= tail.skip(o_tail.taken as int));
                    assert(values(used) =~= seq![v] + values(tail.take(o_tail.taken as int)));
                    assert(values(used).skip(1) =~= values(tail.take(o_tail.taken as int)));
                    assert(values(used) + values(left) =~= values(steps));
                }
            },
            Step::Last(v) => {
                assert(used =~= steps);
                assert(left =~= Seq::<Step<T>>::empty());
                assert(values(used) + values(left) =~= values(steps));
                assert(seq![v].skip(1) =~= Seq::<T>::empty());
                assert(feed::<T, S>(S::step(s, v), seq![v].skip(1)) == S::step(s, v));
            },
        }
    }
}

/// Terminal idempotence: after a run that is complete nothing is left, and a
/// run on nothing is complete and leaves its sink, whichever it is, as it
/// was.
pub proof fn law_complete_is_terminal<T, S: Sink<T>, Next: Sink<T>>(
    steps: Seq<Step<T>>,
    s: S::State,
    later: Next::State,
)
    requires
        run_of::<T, S>(steps, s).result == GeneratorResult::Complete,
    ensures
        ({
            let left = steps.skip(run_of::<T, S>(steps, s).taken as int);
            &&& left.len() == 0
            &&& run_of::<T, Next>(left, later) == (Outcome {
                taken: 0,
                state: later,
                result: GeneratorResult::Complete,
            })
        }),
{
    lemma_run_bounds::<T, S>(steps, s);
}

/// An attempt to advance by `n` passes over no more than `n` values; what it
/// counts is the number of values among the steps it uses up; it falls short
/// of `n` only where the generator paused or had nothing left; and where it
/// counts `n` it is stopped, unless the `n`-th was the generator's last.
pub proof fn law_advance_counts<T>(steps: Seq<Step<T>>, n: usize)
    requires
        n > 0,
    ensures
        ({
            let o = run_of::<T, Countdown>(steps, n);
            let count = n - o.state;
            &&& 0 <= count <= n
            &&& o.taken <= steps.len()
            &&& count == values(steps.take(o.taken as int)).len()
            &&& count == n && plain(steps) ==> o.result == GeneratorResult::Stopped
            &&& count < n && o.result == GeneratorResult::Stopped ==> steps[o.taken - 1]
                == Step::<T>::Pause
        }),
    decreases steps.len(),
{
    let o = run_of::<T, Countdown>(steps, n);
    lemma_run_bounds::<T, Countdown>(steps, n);
    if steps.len() > 0 {
        let tail = steps.skip(1);
        let used = steps.take(o.taken as int);
        assert(used[0] == steps[0]);
        if plain(steps) {
            assert(!(steps[0] is Last));
            assert forall|i: int| 0 <= i < tail.len() implies !(#[trigger] tail[i] is Last) by {
                assert(tail[i] == steps[i + 1]);
            }
        }
        match steps[0] {
            Step::Pause => {
                assert(used.skip(1) =~= Seq::<Step<T>>::empty());
                assert(values(used.skip(1)) =~= Seq::<T>::empty());
            },
            Step::Give(v) => {
                if n == 1 {
                    assert(used.skip(1) =~= Seq::<Step<T>>::empty());
                    assert(values(used.skip(1)) =~= Seq::<T>::empty());
                } else {
                    let m = (n - 1) as usize;
                    law_advance_counts::<T>(tail, m);
                    let o_tail = run_of::<T, Countdown>(tail, m);
                    assert(used.skip(1) =~= tail.take(o_tail.taken as int));
                }
            },
            Step::Last(v) => {
                assert(used =~= steps);
            },
        }
    }
}

/// A run into a sink that does not ask to stop goes on to the first pause, or
/// to the end if there is none.
pub proof fn lemma_patient_run<T, S: Sink<T>>(steps: Seq<Step<T>>, s: S::State)
    requires
        never_stops::<T, S>(s, values(steps)),
    ensures
        ({
            let o = run_of::<T, S>(steps, s);
            &&& o.taken == burst(steps)
            &&& o.result == if pauses(steps) {
                GeneratorResult::Stopped
            } else {
                GeneratorResult::Complete
            }
        }),
    decreases steps.len(),
{
    if steps.len() > 0 {
        let tail = steps.skip(1);
        match steps[0] {
            Step::Give(v) => {
                assert(values(steps)[0] == v);
                assert(values(steps).skip(1) =~= values(tail));
                lemma_patient_run::<T, S>(tail, S::step(s, v));
            },
            _ => {},
        }
    }
}

/// Resuming until complete: however the sink's requests to stop, and the
/// generator's own pauses, cut the work into runs, the sink ends up having
/// taken every value of the script once, in order.
pub proof fn law_resume_loop<T, S: Sink<T>>(steps: Seq<Step<T>>, s: S::State)
    ensures
        drain_of::<T, S>(steps, s) == feed::<T, S>(s, values(steps)),
    decreases steps.len(),
{
    let o = run_of::<T, S>(steps, s);
    law_delivery::<T, S>(steps, s);
    lemma_run_bounds::<T, S>(steps, s);
    let used = values(steps.take(o.taken as int));
    let left = steps.skip(o.taken as int);
    if o.result != GeneratorResult::Complete {
        law_resume_loop::<T, S>(left, o.state);
        lemma_feed_concat::<T, S>(s, used, values(left));
    }
}

/// A collection without a limit, run over a script without pauses, takes
/// every item and the run is complete.
pub proof fn lemma_collect_gives<T>(items: Seq<T>, held: Seq<T>)
    ensures
        run_of::<T, Collect<T>>(gives(items), (held, None::<usize>)) == (Outcome {
            taken: items.len(),
            state: (held + items, None::<usize>),
            result: GeneratorResult::Complete,
        }),
    decreases items.len(),
{
    let steps = gives(items);
    if items.len() > 0 {
        assert(steps.skip(1) =~= gives(items.skip(1)));
        lemma_collect_gives::<T>(items.skip(1), held.push(items[0]));
        assert(held.push(items[0]) + items.skip(1) =~= held + items);
    }
}

/// A collection with limit `k` that holds nothing, run over a script without
/// pauses that has at least `k` items, takes the first `k` and stops there.
pub proof fn lemma_collect_first<T>(held: Seq<T>, items: Seq<T>, k: usize)
    requires
        held.len() < k <= held.len() + items.len(),
    ensures
        run_of::<T, Collect<T>>(gives(items), (held, Some(k))) == (Outcome {
            taken: (k - held.len()) as nat,
            state: (held + items.take(k - held.len()), Some(k)),
            result: GeneratorResult::Stopped,
        }),
    decreases items.len(),
{
    let steps = gives(items);
    assert(steps.skip(1) =~= gives(items.skip(1)));
    if held.len() + 1 >= k {
        assert(held.push(items[0]) =~= held + items.take(1));
    } else {
        lemma_collect_first::<T>(held.push(items[0]), items.skip(1), k);
        assert(held.push(items[0]) + items.skip(1).take(k - held.len() - 1) =~= held + items.take(
            k - held.len(),
        ));
    }
}

/// No-loss resumability: over a sequence of items, a run into a collection
/// that stops at the `k`-th value delivers the first `k` items and is
/// stopped; a second run, into a collection that never stops, delivers the
/// rest and is complete; the two collections together hold the sequence.
pub proof fn law_resume_after_stop<T>(items: Seq<T>, k: usize)
    requires
        0 < k <= items.len(),
    ensures
        ({
            let first = run_of::<T, Collect<T>>(gives(items), (Seq::empty(), Some(k)));
            let left = gives(items).skip(first.taken as int);
            let second = run_of::<T, Collect<T>>(left, (Seq::empty(), None::<usize>));
            &&& first.result == GeneratorResult::Stopped
            &&& first.state.0 == items.take(k as int)
            &&& second.result == GeneratorResult::Complete
            &&& second.state.0 == items.skip(k as int)
            &&& first.state.0 + second.state.0 == items
            &&& left.skip(second.taken as int).len() == 0
        }),
{
    let empty = Seq::<T>::empty();
    let rest = items.skip(k as int);
    lemma_collect_first::<T>(empty, items, k);
    lemma_collect_gives::<T>(rest, empty);
    assert(gives(items).skip(k as int) =~= gives(rest));
}

} // verus!
