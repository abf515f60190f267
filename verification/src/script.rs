//! Scripts: what a generator still has to do.
//!
//! A script is a finite sequence of steps. A `Give` stands for a value that
//! the generator will hand to its sink; a `Pause` for a point at which the
//! generator halts a run although the sink did not ask for it; a `Last` for
//! a value with which the generator is complete, whatever the sink answers
//! to it: what stands behind a `Last` is never done.

use vstd::prelude::*;

verus! {

/// One step of what a generator has left to do.
pub enum Step<T> {
    /// Hand this value to the sink, and halt if the sink asks for it.
    Give(T),
    /// Halt the run without a value.
    Pause,
    /// Hand this value to the sink and be complete, whatever the sink
    /// answers.
    Last(T),
}

/// The script that gives each of `items` in turn and never pauses.
pub open spec fn gives<T>(items: Seq<T>) -> Seq<Step<T>> {
    Seq::new(items.len(), |i: int| Step::Give(items[i]))
}

/// References to the elements of `items`, in order.
pub open spec fn refs<'a, T>(items: Seq<T>) -> Seq<&'a T> {
    Seq::new(items.len(), |i: int| &items[i])
}

/// No step of the script is a `Last`.
pub open spec fn plain<T>(steps: Seq<Step<T>>) -> bool {
    forall|i: int| 0 <= i < steps.len() ==> !(#[trigger] steps[i] is Last)
}

/// The script in which a sink's request to stop is heeded at every value: it
/// ends with the first `Last`, which becomes a `Give`.
pub open spec fn unlast<T>(steps: Seq<Step<T>>) -> Seq<Step<T>>
    decreases steps.len(),
{
    if steps.len() == 0 {
        Seq::empty()
    } else {
        match steps[0] {
            Step::Last(v) => seq![Step::Give(v)],
            _ => seq![steps[0]] + unlast(steps.skip(1)),
        }
    }
}

/// The values of a script, in order: those up to and including the first
/// `Last`.
pub open spec fn values<T>(steps: Seq<Step<T>>) -> Seq<T>
    decreases steps.len(),
{
    if steps.len() == 0 {
        Seq::empty()
    } else {
        match steps[0] {
            Step::Pause => values(steps.skip(1)),
            Step::Give(v) => seq![v] + values(steps.skip(1)),
            Step::Last(v) => seq![v],
        }
    }
}

/// The number of steps that a run takes if the sink never asks to stop: up to
/// and including the first pause, or all of them if a `Last` comes first.
pub open spec fn burst<T>(steps: Seq<Step<T>>) -> nat
    decreases steps.len(),
{
    if steps.len() == 0 {
        0
    } else {
        match steps[0] {
            Step::Pause => 1,
            Step::Give(_) => 1 + burst(steps.skip(1)),
            Step::Last(_) => steps.len(),
        }
    }
}

/// A run into a sink that never asks to stop ends at a pause.
pub open spec fn pauses<T>(steps: Seq<Step<T>>) -> bool
    decreases steps.len(),
{
    steps.len() > 0 && match steps[0] {
        Step::Pause => true,
        Step::Give(_) => pauses(steps.skip(1)),
        Step::Last(_) => false,
    }
}

/// The values that one run hands to a sink that never asks to stop: those up
/// to the first pause.
pub open spec fn first_run<T>(steps: Seq<Step<T>>) -> Seq<T> {
    values(steps.take(burst(steps) as int))
}

/// The values of a script are those of any of its prefixes followed by those
/// of the rest.
pub proof fn lemma_values_split<T>(steps: Seq<Step<T>>, k: int)
    requires
        0 <= k <= steps.len(),
        plain(steps.take(k)),
    ensures
        values(steps) == values(steps.take(k)) + values(steps.skip(k)),
    decreases steps.len(),
{
    if k == 0 {
        assert(steps.skip(0) =~= steps);
    } else {
        let tail = steps.skip(1);
        assert(steps.take(k).skip(1) =~= tail.take(k - 1));
        assert(steps.take(k)[0] == steps[0]);
        assert(plain(tail.take(k - 1))) by {
            assert forall|i: int| 0 <= i < tail.take(k - 1).len() implies !(
            #[trigger] tail.take(k - 1)[i] is Last) by {
                assert(tail.take(k - 1)[i] == steps.take(k)[i + 1]);
            }
        }
        lemma_values_split(tail, k - 1);
        assert(steps.skip(k) =~= tail.skip(k - 1));
    }
}

/// The values of two scripts, one after the other.
pub proof fn lemma_values_concat<T>(first: Seq<Step<T>>, second: Seq<Step<T>>)
    requires
        plain(first),
    ensures
        values(first + second) == values(first) + values(second),
{
    let all = first + second;
    assert(all.take(first.len() as int) =~= first);
    lemma_values_split(all, first.len() as int);
    assert(all.skip(first.len() as int) =~= second);
}

/// A script without pauses gives exactly its items.
pub proof fn lemma_values_gives<T>(items: Seq<T>)
    ensures
        values(gives(items)) == items,
    decreases items.len(),
{
    if items.len() > 0 {
        lemma_values_gives(items.skip(1));
        assert(gives(items).skip(1) =~= gives(items.skip(1)));
    }
}

/// One run over a script without pauses, into a sink that never asks to
/// stop, hands over every item.
pub proof fn lemma_first_run_gives<T>(items: Seq<T>)
    ensures
        burst(gives(items)) == items.len(),
        first_run(gives(items)) == items,
    decreases items.len(),
{
    let steps = gives(items);
    if items.len() > 0 {
        lemma_first_run_gives(items.skip(1));
        assert(steps.skip(1) =~= gives(items.skip(1)));
    }
    assert(steps.take(items.len() as int) =~= steps);
    lemma_values_gives(items);
}

/// A script without a `Last` is its own heedful script; every heedful script
/// is without a `Last`, and has the values of the script it was made of.
pub proof fn lemma_unlast<T>(steps: Seq<Step<T>>)
    ensures
        plain(unlast(steps)),
        values(unlast(steps)) == values(steps),
        plain(steps) ==> unlast(steps) == steps,
    decreases steps.len(),
{
    if steps.len() > 0 {
        let tail = steps.skip(1);
        lemma_unlast(tail);
        match steps[0] {
            Step::Last(v) => {
                let one = seq![Step::Give(v)];
                assert(one.skip(1) =~= Seq::<Step<T>>::empty());
                assert(values(one.skip(1)) =~= Seq::<T>::empty());
                assert(values(one) =~= seq![v]);
            },
            _ => {
                let made = seq![steps[0]] + unlast(tail);
                assert(made[0] == steps[0]);
                assert(made.skip(1) =~= unlast(tail));
                assert forall|i: int| 0 <= i < made.len() implies !(#[trigger] made[i] is Last) by {
                    if i > 0 {
                        assert(made[i] == unlast(tail)[i - 1]);
                    }
                }
                if plain(steps) {
                    assert forall|i: int| 0 <= i < tail.len() implies !(#[trigger] tail[i]
                        is Last) by {
                        assert(tail[i] == steps[i + 1]);
                    }
                    assert(made =~= steps);
                }
            },
        }
    } else {
        assert(unlast(steps) =~= steps);
    }
}

} // verus!
