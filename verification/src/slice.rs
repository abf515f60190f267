//! A generator over a slice, with a cursor at each end.

use crate::generator::{lemma_countdown_gives, run_of, Generator, Outcome, ReverseGenerator};
use crate::script::{gives, refs, Step};
use crate::signal::{GeneratorResult, ValueResult};
use crate::sink::Sink;
use vstd::prelude::*;

verus! {

/// Generates references to the elements of a slice, from either end.
pub struct SliceGenerator<'a, T> {
    slice: &'a [T],
    front: usize,
    back: usize,
}

impl<'a, T> SliceGenerator<'a, T> {
    /// The elements between the two cursors, which are still to be given.
    pub closed spec fn items(&self) -> Seq<&'a T> {
        refs(self.slice@.subrange(self.front as int, self.back as int))
    }

    #[verifier::type_invariant]
    spec fn cursors_in_order(&self) -> bool {
        self.front <= self.back <= self.slice@.len()
    }

    /// A generator over all of `slice`.
    pub fn new(slice: &'a [T]) -> (g: Self)
        ensures
            g.items() == refs::<T>(slice@),
    {
        assert(slice@.subrange(0, slice@.len() as int) =~= slice@);
        SliceGenerator { slice, front: 0, back: slice.len() }
    }
}

impl<'a, T> Generator for SliceGenerator<'a, T> {
    type Output = &'a T;

    open spec fn pending(&self) -> Seq<Step<&'a T>> {
        gives(self.items())
    }

    fn run<S: Sink<&'a T>>(&mut self, sink: S) -> (ret: (GeneratorResult, S)) {
        proof {
            use_type_invariant(&*self);
        }
        let mut out = sink;
        let ghost first = self.front;
        while self.front < self.back
            invariant
                self.front <= self.back <= self.slice@.len(),
                out.inv(),
                self.slice == old(self).slice,
                self.back == old(self).back,
                first == old(self).front,
                first <= self.front,
                self.pending() == old(self).pending().skip(self.front - first),
                run_of::<&'a T, S>(old(self).pending(), sink.state()) == (Outcome {
                    taken: run_of::<&'a T, S>(self.pending(), out.state()).taken + (self.front
                        - first) as nat,
                    ..run_of::<&'a T, S>(self.pending(), out.state())
                }),
            decreases self.back - self.front,
        {
            let ghost before = self.pending();
            let value = &self.slice[self.front];
            self.front = self.front + 1;
            assert(before[0] == Step::Give(value));
            assert(self.pending() =~= before.skip(1));
            assert(self.pending() =~= old(self).pending().skip(self.front - first));
            let verdict = out.accept(value);
            if verdict == ValueResult::Stop {
                return (GeneratorResult::Stopped, out);
            }
        }
        (GeneratorResult::Complete, out)
    }

    /// Moves the front cursor forward without visiting the elements.
    fn try_advance(&mut self, n: usize) -> (ret: (usize, GeneratorResult)) {
        proof {
            use_type_invariant(&*self);
            lemma_countdown_gives::<&'a T>(self.items(), n);
        }
        let available: usize = self.back - self.front;
        if n <= available {
            self.front = self.front + n;
            assert(self.pending() =~= old(self).pending().skip(n as int));
            (n, GeneratorResult::Stopped)
        } else {
            self.front = self.back;
            assert(self.pending() =~= old(self).pending().skip(available as int));
            (available, GeneratorResult::Complete)
        }
    }
}

impl<'a, T> ReverseGenerator for SliceGenerator<'a, T> {
    fn run_back<S: Sink<&'a T>>(&mut self, sink: S) -> (ret: (GeneratorResult, S)) {
        proof {
            use_type_invariant(&*self);
        }
        let mut out = sink;
        let ghost last = self.back;
        let ghost all = self.pending();
        while self.front < self.back
            invariant
                self.front <= self.back <= self.slice@.len(),
                out.inv(),
                self.slice == old(self).slice,
                self.front == old(self).front,
                last == old(self).back,
                self.back <= last,
                all == old(self).pending(),
                all.len() == last - self.front,
                self.pending() == all.take(all.len() - (last - self.back)),
                self.pending().reverse() == all.reverse().skip(last - self.back),
                run_of::<&'a T, S>(all.reverse(), sink.state()) == (Outcome {
                    taken: run_of::<&'a T, S>(self.pending().reverse(), out.state()).taken + (last
                        - self.back) as nat,
                    ..run_of::<&'a T, S>(self.pending().reverse(), out.state())
                }),
            decreases self.back - self.front,
        {
            let ghost before = self.pending();
            self.back = self.back - 1;
            let value = &self.slice[self.back];
            assert(before.reverse()[0] == Step::Give(value));
            assert(self.pending() =~= before.take(before.len() - 1));
            assert(self.pending().reverse() =~= before.reverse().skip(1));
            assert(before.take(before.len() - 1) =~= all.take(all.len() - (last - self.back)));
            assert(before.reverse().skip(1) =~= all.reverse().skip(last - self.back));
            let verdict = out.accept(value);
            if verdict == ValueResult::Stop {
                return (GeneratorResult::Stopped, out);
            }
        }
        (GeneratorResult::Complete, out)
    }

    /// Moves the back cursor backward without visiting the elements.
    fn try_advance_back(&mut self, n: usize) -> (ret: (usize, GeneratorResult)) {
        let ghost reversed = self.items().reverse();
        proof {
            use_type_invariant(&*self);
            lemma_countdown_gives::<&'a T>(reversed, n);
            assert(self.pending().reverse() =~= gives(reversed));
        }
        let available: usize = self.back - self.front;
        if n <= available {
            self.back = self.back - n;
            assert(self.pending() =~= old(self).pending().take(available - n));
            (n, GeneratorResult::Stopped)
        } else {
            self.back = self.front;
            assert(self.pending() =~= old(self).pending().take(0));
            (available, GeneratorResult::Complete)
        }
    }
}

} // verus!
