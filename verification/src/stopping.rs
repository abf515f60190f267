//! A generator over a slice that pauses once of its own accord. It is the
//! simplest generator whose runs can end without the sink asking for it, and
//! serves to try adaptors against such sources.

use crate::generator::{run_of, Generator, Outcome};
use crate::script::{gives, refs, Step};
use crate::signal::{GeneratorResult, ValueResult};
use crate::sink::Sink;
use vstd::prelude::*;

verus! {

/// The script that gives `items` with one pause before the item at index
/// `stop_at`; without a pause where there is no such item.
pub open spec fn paused_once<T>(items: Seq<T>, stop_at: int) -> Seq<Step<T>> {
    if 0 <= stop_at < items.len() {
        gives(items.take(stop_at)) + seq![Step::Pause] + gives(items.skip(stop_at))
    } else {
        gives(items)
    }
}

/// Generates references to the elements of a slice, and pauses once before
/// the element that a countdown points at.
pub struct StoppingGen<'a, T> {
    stop_at: i32,
    data: &'a [T],
    index: usize,
}

impl<'a, T> StoppingGen<'a, T> {
    #[verifier::type_invariant]
    spec fn index_in_range(&self) -> bool {
        self.index <= self.data@.len()
    }

    /// The elements that are still to be given.
    pub closed spec fn items(&self) -> Seq<&'a T> {
        refs(self.data@.skip(self.index as int))
    }

    /// How many elements are given before the pause; negative where no pause
    /// is to come.
    pub closed spec fn countdown(&self) -> int {
        self.stop_at as int
    }

    /// A generator over all of `data` that pauses before the element at index
    /// `stop_at`.
    pub fn new(stop_at: i32, data: &'a [T]) -> (g: Self)
        ensures
            g.items() == refs::<T>(data@),
            g.countdown() == stop_at,
    {
        assert(data@.skip(0) =~= data@);
        StoppingGen { stop_at, data, index: 0 }
    }
}

impl<'a, T> Generator for StoppingGen<'a, T> {
    type Output = &'a T;

    open spec fn pending(&self) -> Seq<Step<&'a T>> {
        paused_once(self.items(), self.countdown())
    }

    fn run<S: Sink<&'a T>>(&mut self, sink: S) -> (ret: (GeneratorResult, S)) {
        proof {
            use_type_invariant(&*self);
        }
        let mut out = sink;
        let ghost used: nat = 0;
        let len = self.data.len();
        loop
            invariant
                self.index <= self.data@.len(),
                len == self.data@.len(),
                out.inv(),
                self.data == old(self).data,
                used <= old(self).pending().len(),
                self.pending() == old(self).pending().skip(used as int),
                run_of::<&'a T, S>(old(self).pending(), sink.state()) == (Outcome {
                    taken: run_of::<&'a T, S>(self.pending(), out.state()).taken + used,
                    ..run_of::<&'a T, S>(self.pending(), out.state())
                }),
            decreases self.pending().len(),
        {
            let ghost before = self.pending();
            let ghost items = self.items();
            if self.index >= len {
                proof {
                    assert(items =~= Seq::<&'a T>::empty());
                    assert(before =~= Seq::<Step<&'a T>>::empty());
                }
                return (GeneratorResult::Complete, out);
            }
            if self.stop_at == 0 {
                self.stop_at = -1;
                proof {
                    assert(items.take(0) =~= Seq::<&'a T>::empty());
                    assert(items.skip(0) =~= items);
                    assert(before[0] == Step::<&'a T>::Pause);
                    assert(self.pending() =~= before.skip(1));
                    assert(self.pending() =~= old(self).pending().skip((used + 1) as int));
                }
                return (GeneratorResult::Stopped, out);
            }
            if self.stop_at > 0 {
                self.stop_at = self.stop_at - 1;
            }
            let value = &self.data[self.index];
            self.index = self.index + 1;
            proof {
                assert(items[0] == value);
                assert(self.items() =~= items.skip(1));
                assert(before[0] == Step::Give(value));
                if 0 < self.countdown() + 1 < items.len() {
                    let j = self.countdown();
                    assert(items.take(j + 1).skip(1) =~= items.skip(1).take(j));
                    assert(items.skip(j + 1) =~= items.skip(1).skip(j));
                    assert(gives(items.take(j + 1)).skip(1) =~= gives(items.skip(1).take(j)));
                }
                assert(self.pending() =~= before.skip(1));
                used = used + 1;
                assert(self.pending() =~= old(self).pending().skip(used as int));
            }
            let verdict = out.accept(value);
            if verdict == ValueResult::Stop {
                return (GeneratorResult::Stopped, out);
            }
        }
    }
}

} // verus!
