//! Consumers of values.
//!
//! A sink is a deterministic machine: what it answers to a value, and what it
//! becomes by taking it, are functions of its abstract state and the value.

use crate::signal::ValueResult;
use vstd::prelude::*;

verus! {

/// What must hold of a sink for it to be driven.
pub trait Sound {
    /// The sink is in working order.
    spec fn inv(&self) -> bool;
}

/// A consumer that a generator drives values into.
pub trait Sink<T>: Sound {
    /// The abstract state that decides how the sink behaves.
    type State;

    /// The abstract state of this sink.
    spec fn state(&self) -> Self::State;

    /// The answer of a sink in state `s` to `value`.
    spec fn verdict(s: Self::State, value: T) -> ValueResult;

    /// The state of a sink that was in state `s` and has taken `value`.
    spec fn step(s: Self::State, value: T) -> Self::State;

    /// Takes one value and says whether the generator may go on.
    fn accept(&mut self, value: T) -> (r: ValueResult)
        requires
            old(self).inv(),
        ensures
            final(self).inv(),
            r == Self::verdict(old(self).state(), value),
            final(self).state() == Self::step(old(self).state(), value),
    ;
}

/// The state of a sink after it has taken all of `values`, whatever it answered.
pub open spec fn feed<T, S: Sink<T>>(s: S::State, values: Seq<T>) -> S::State
    decreases values.len(),
{
    if values.len() == 0 {
        s
    } else {
        feed::<T, S>(S::step(s, values[0]), values.skip(1))
    }
}

/// A sink in state `s` asks for more after each of `values`.
pub open spec fn never_stops<T, S: Sink<T>>(s: S::State, values: Seq<T>) -> bool
    decreases values.len(),
{
    values.len() > 0 ==> {
        &&& S::verdict(s, values[0]) == ValueResult::MoreValues
        &&& never_stops::<T, S>(S::step(s, values[0]), values.skip(1))
    }
}

} // verus!
