//! A generator made of a stepping function.

use crate::generator::{run_of, Generator, Outcome};
use crate::script::{gives, Step};
use crate::signal::{GeneratorResult, ValueResult};
use crate::sink::Sink;
use vstd::prelude::*;

verus! {

/// A stepping function: each call hands out the next value, and `None` when
/// there is none. What it will hand out is a function of its state.
pub trait Stepper {
    /// The type of the values.
    type Item;

    /// The values that are still to come, in order.
    spec fn rest(&self) -> Seq<Self::Item>;

    /// Hands out the next value, if there is one.
    fn next_value(&mut self) -> (r: Option<Self::Item>)
        ensures
            old(self).rest().len() == 0 ==> {
                &&& r == None::<Self::Item>
                &&& final(self).rest() == old(self).rest()
            },
            old(self).rest().len() > 0 ==> r == Some(old(self).rest()[0]) && final(self).rest()
                == old(self).rest().skip(1),
    ;
}

/// An optional value steps once, if it holds a value, and never again.
impl<T> Stepper for Option<T> {
    type Item = T;

    open spec fn rest(&self) -> Seq<T> {
        match self {
            Some(value) => seq![*value],
            None => Seq::empty(),
        }
    }

    fn next_value(&mut self) -> (r: Option<T>) {
        let taken: Option<T> = self.take();
        proof {
            if taken is Some {
                assert(seq![taken->0].skip(1) =~= Seq::<T>::empty());
            }
        }
        taken
    }
}

/// Delivers the values that a stepping function hands out, until it hands
/// out none.
pub struct FromFn<St> {
    stepper: St,
}

/// The generator that delivers what `stepper` hands out.
pub fn from_fn<St: Stepper>(stepper: St) -> (g: FromFn<St>)
    ensures
        g.pending() == gives(stepper.rest()),
{
    FromFn { stepper }
}

impl<St: Stepper> Generator for FromFn<St> {
    type Output = St::Item;

    closed spec fn pending(&self) -> Seq<Step<St::Item>> {
        gives(self.stepper.rest())
    }

    fn run<S: Sink<St::Item>>(&mut self, sink: S) -> (ret: (GeneratorResult, S)) {
        let mut out = sink;
        let ghost used: nat = 0;
        loop
            invariant
                out.inv(),
                used <= old(self).pending().len(),
                self.pending() == old(self).pending().skip(used as int),
                run_of::<St::Item, S>(old(self).pending(), sink.state()) == (Outcome {
                    taken: run_of::<St::Item, S>(self.pending(), out.state()).taken + used,
                    ..run_of::<St::Item, S>(self.pending(), out.state())
                }),
            decreases self.pending().len(),
        {
            let ghost before = self.pending();
            match self.stepper.next_value() {
                Some(value) => {
                    proof {
                        assert(before[0] == Step::Give(value));
                        assert(self.pending() =~= before.skip(1));
                        used = used + 1;
                        assert(self.pending() =~= old(self).pending().skip(used as int));
                    }
                    let verdict = out.accept(value);
                    if verdict == ValueResult::Stop {
                        return (GeneratorResult::Stopped, out);
                    }
                },
                None => {
                    return (GeneratorResult::Complete, out);
                },
            }
        }
    }
}

} // verus!
