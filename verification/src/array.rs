//! A generator that owns an array and gives copies of its elements.

use crate::generator::{lemma_countdown_gives, run_of, Generator, Outcome};
use crate::into_generator::IntoGenerator;
use crate::script::{gives, refs, Step};
use crate::signal::{GeneratorResult, ValueResult};
use crate::sink::Sink;
use crate::slice::SliceGenerator;
use vstd::prelude::*;

verus! {

/// Generates the elements of an array that it owns, from the front.
pub struct ArrayGenerator<T, const N: usize> {
    data: [T; N],
    front: usize,
}

impl<T, const N: usize> ArrayGenerator<T, N> {
    #[verifier::type_invariant]
    spec fn cursor_in_range(&self) -> bool {
        self.front <= N
    }

    /// The elements that are still to be given.
    pub closed spec fn items(&self) -> Seq<T> {
        self.data@.skip(self.front as int)
    }

    /// A generator over all of `data`.
    pub fn new(data: [T; N]) -> (g: Self)
        ensures
            g.items() == data@,
    {
        assert(data@.skip(0) =~= data@);
        ArrayGenerator { data, front: 0 }
    }
}

impl<T: Copy, const N: usize> Generator for ArrayGenerator<T, N> {
    type Output = T;

    open spec fn pending(&self) -> Seq<Step<T>> {
        gives(self.items())
    }

    fn run<S: Sink<T>>(&mut self, sink: S) -> (ret: (GeneratorResult, S)) {
        proof {
            use_type_invariant(&*self);
        }
        let mut out = sink;
        let ghost first = self.front;
        while self.front < N
            invariant
                self.front <= N,
                out.inv(),
                self.data == old(self).data,
                first == old(self).front,
                first <= self.front,
                self.pending() == old(self).pending().skip(self.front - first),
                run_of::<T, S>(old(self).pending(), sink.state()) == (Outcome {
                    taken: run_of::<T, S>(self.pending(), out.state()).taken + (self.front
                        - first) as nat,
                    ..run_of::<T, S>(self.pending(), out.state())
                }),
            decreases N - self.front,
        {
            let ghost before = self.pending();
            let value = self.data[self.front];
            self.front = self.front + 1;
            assert(before[0] == Step::Give(value));
            assert(self.pending() =~= before.skip(1));
            assert(self.pending() =~= old(self).pending().skip(self.front - first));
            let verdict = out.accept(value);
            if verdict == ValueResult::Stop {
                return (GeneratorResult::Stopped, out);
            }
        }
        (GeneratorResult::Complete, out)
    }

    /// Moves the cursor forward without visiting the elements.
    fn try_advance(&mut self, n: usize) -> (ret: (usize, GeneratorResult)) {
        proof {
            use_type_invariant(&*self);
            lemma_countdown_gives::<T>(self.items(), n);
        }
        let available: usize = N - self.front;
        if n <= available {
            self.front = self.front + n;
            assert(self.pending() =~= old(self).pending().skip(n as int));
            (n, GeneratorResult::Stopped)
        } else {
            self.front = N;
            assert(self.pending() =~= old(self).pending().skip(available as int));
            (available, GeneratorResult::Complete)
        }
    }
}

impl<T: Copy, const N: usize> IntoGenerator for [T; N] {
    type Output = T;

    type IntoGen = ArrayGenerator<T, N>;

    open spec fn script(self) -> Seq<Step<T>> {
        gives(self@)
    }

    fn into_gen(self) -> (g: ArrayGenerator<T, N>) {
        ArrayGenerator::new(self)
    }
}

impl<'a, T> IntoGenerator for &'a [T] {
    type Output = &'a T;

    type IntoGen = SliceGenerator<'a, T>;

    open spec fn script(self) -> Seq<Step<&'a T>> {
        gives(refs(self@))
    }

    fn into_gen(self) -> (g: SliceGenerator<'a, T>) {
        SliceGenerator::new(self)
    }
}

impl<'a, T> IntoGenerator for &'a Vec<T> {
    type Output = &'a T;

    type IntoGen = SliceGenerator<'a, T>;

    open spec fn script(self) -> Seq<Step<&'a T>> {
        gives(refs(self@))
    }

    fn into_gen(self) -> (g: SliceGenerator<'a, T>) {
        SliceGenerator::new(self.as_slice())
    }
}

} // verus!
