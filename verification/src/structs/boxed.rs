//! `boxed`: a generator behind one type that does not name its own.

use crate::generator::{lemma_run_bounds, ran, run_of, Generator, Outcome};
use crate::script::Step;
use crate::signal::{GeneratorResult, ValueResult};
use crate::sink::Sink;
use crate::sinks::Probe;
use vstd::prelude::*;

verus! {

/// A generator that hands out its values one at a time, whatever its type.
pub trait Pull<T> {
    /// What is left to do.
    spec fn script(&self) -> Seq<Step<T>>;

    /// Works through one step: a run into a probe.
    fn pull(&mut self) -> (ret: (GeneratorResult, Option<T>))
        ensures
            ran::<T, Probe<T>>(
                old(self).script(),
                None::<T>,
                final(self).script(),
                ret.1,
                ret.0,
            ),
    ;
}

impl<G: Generator> Pull<G::Output> for G {
    open spec fn script(&self) -> Seq<Step<G::Output>> {
        self.pending()
    }

    fn pull(&mut self) -> (ret: (GeneratorResult, Option<G::Output>)) {
        let (result, probe) = self.run(Probe::new());
        (result, probe.into_value())
    }
}

/// A generator of values of type `T` whose own type is erased. It draws the
/// values from the generator it holds one at a time and hands them to the
/// sink itself: a run makes one call through the erased type for each value,
/// not one for the run. What is delivered, and how a run ends, is as if the
/// generator held had been run itself.
#[verifier::reject_recursive_types(T)]
pub struct BoxedGenerator<T> {
    source: Box<dyn Pull<T>>,
}

impl<T> BoxedGenerator<T> {
    /// `source`, boxed.
    pub fn new<G: Generator<Output = T> + 'static>(source: G) -> (g: Self)
        ensures
            g.pending() == source.pending(),
    {
        assert(source.script() == source.pending());
        BoxedGenerator { source: Box::new(source) }
    }
}

impl<T> Generator for BoxedGenerator<T> {
    type Output = T;

    closed spec fn pending(&self) -> Seq<Step<T>> {
        self.source.script()
    }

    fn run<S: Sink<T>>(&mut self, sink: S) -> (ret: (GeneratorResult, S)) {
        let mut out = sink;
        let ghost start = self.pending();
        let ghost used: nat = 0;
        loop
            invariant
                out.inv(),
                start == old(self).pending(),
                used <= start.len(),
                self.pending() == start.skip(used as int),
                run_of::<T, S>(start, sink.state()) == (Outcome {
                    taken: run_of::<T, S>(self.pending(), out.state()).taken + used,
                    ..run_of::<T, S>(self.pending(), out.state())
                }),
            decreases self.pending().len(),
        {
            let ghost before = self.pending();
            proof {
                lemma_run_bounds::<T, Probe<T>>(before, None::<T>);
            }
            let (result, pulled) = self.source.pull();
            match pulled {
                Some(value) => {
                    if result == GeneratorResult::Complete {
                        proof {
                            assert(before[0] == Step::Last(value));
                            assert(self.pending() =~= start.skip(
                                (used + before.len()) as int,
                            ));
                        }
                        out.accept(value);
                        return (GeneratorResult::Complete, out);
                    }
                    proof {
                        assert(before[0] == Step::Give(value));
                        used = used + 1;
                        assert(self.pending() =~= start.skip(used as int));
                    }
                    let verdict = out.accept(value);
                    if verdict == ValueResult::Stop {
                        return (GeneratorResult::Stopped, out);
                    }
                },
                None => {
                    proof {
                        if before.len() > 0 {
                            assert(self.pending() =~= start.skip((used + 1) as int));
                        } else {
                            assert(self.pending() =~= start.skip(used as int));
                        }
                    }
                    return (result, out);
                },
            }
        }
    }
}

} // verus!
