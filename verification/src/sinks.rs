//! Sinks that the library itself needs, and a few for its callers.

use crate::signal::ValueResult;
use crate::sink::{feed, never_stops, Sink, Sound};
use std::marker::PhantomData;
use vstd::prelude::*;

verus! {

/// Counts values down from a budget and asks to stop when it is used up.
pub struct Countdown {
    left: usize,
}

impl Countdown {
    /// A sink that stops at the `n`-th value it is given.
    pub fn new(n: usize) -> (c: Self)
        ensures
            c.budget() == n,
    {
        Countdown { left: n }
    }

    /// What is left of the budget.
    pub closed spec fn budget(&self) -> usize {
        self.left
    }

    /// What is left of the budget.
    pub fn left(&self) -> (r: usize)
        ensures
            r == self.budget(),
    {
        self.left
    }
}

impl Sound for Countdown {
    open spec fn inv(&self) -> bool {
        true
    }
}

impl<T> Sink<T> for Countdown {
    type State = usize;

    open spec fn state(&self) -> usize {
        self.budget()
    }

    open spec fn verdict(s: usize, value: T) -> ValueResult {
        if s <= 1 {
            ValueResult::Stop
        } else {
            ValueResult::MoreValues
        }
    }

    open spec fn step(s: usize, value: T) -> usize {
        if s == 0 {
            0
        } else {
            (s - 1) as usize
        }
    }

    fn accept(&mut self, value: T) -> (r: ValueResult) {
        if self.left > 0 {
            self.left = self.left - 1;
        }
        if self.left == 0 {
            ValueResult::Stop
        } else {
            ValueResult::MoreValues
        }
    }
}

/// Takes one value, keeps it, and asks to stop.
pub struct Probe<T> {
    value: Option<T>,
}

impl<T> Probe<T> {
    /// A probe that holds nothing yet.
    pub fn new() -> (p: Self)
        ensures
            p.held() == None::<T>,
    {
        Probe { value: None }
    }

    /// The value the probe holds, if it was given one.
    pub closed spec fn held(&self) -> Option<T> {
        self.value
    }

    /// Hands out the value the probe holds, if it was given one.
    pub fn into_value(self) -> (r: Option<T>)
        ensures
            r == self.held(),
    {
        self.value
    }
}

impl<T> Sound for Probe<T> {
    open spec fn inv(&self) -> bool {
        true
    }
}

impl<T> Sink<T> for Probe<T> {
    type State = Option<T>;

    open spec fn state(&self) -> Option<T> {
        self.held()
    }

    open spec fn verdict(s: Option<T>, value: T) -> ValueResult {
        ValueResult::Stop
    }

    open spec fn step(s: Option<T>, value: T) -> Option<T> {
        Some(value)
    }

    fn accept(&mut self, value: T) -> (r: ValueResult) {
        self.value = Some(value);
        ValueResult::Stop
    }
}

/// Keeps every value it is given, in order, and asks to stop once it holds as
/// many as its limit says, if it has one.
pub struct Collect<T> {
    items: Vec<T>,
    limit: Option<usize>,
}

impl<T> Collect<T> {
    /// An empty collection that never asks to stop.
    pub fn all() -> (c: Self)
        ensures
            c@ == Seq::<T>::empty(),
            c.limit() == None::<usize>,
    {
        Collect { items: Vec::new(), limit: None }
    }

    /// An empty collection that asks to stop with the value that brings it to
    /// `k` values.
    pub fn first(k: usize) -> (c: Self)
        ensures
            c@ == Seq::<T>::empty(),
            c.limit() == Some(k),
    {
        Collect { items: Vec::new(), limit: Some(k) }
    }

    /// The values held.
    pub closed spec fn view(&self) -> Seq<T> {
        self.items@
    }

    /// The number of values at which the collection asks to stop.
    pub closed spec fn limit(&self) -> Option<usize> {
        self.limit
    }

    /// Gives up the limit, if there was one.
    pub fn unlimited(self) -> (c: Self)
        ensures
            c@ == self@,
            c.limit() == None::<usize>,
    {
        Collect { items: self.items, limit: None }
    }

    /// The values held.
    pub fn as_slice(&self) -> (v: &[T])
        ensures
            v@ == self@,
    {
        self.items.as_slice()
    }

    /// Hands out the values held.
    pub fn into_vec(self) -> (v: Vec<T>)
        ensures
            v@ == self@,
    {
        self.items
    }
}

impl<T> Sound for Collect<T> {
    open spec fn inv(&self) -> bool {
        true
    }
}

impl<T> Sink<T> for Collect<T> {
    type State = (Seq<T>, Option<usize>);

    open spec fn state(&self) -> (Seq<T>, Option<usize>) {
        (self@, self.limit())
    }

    open spec fn verdict(s: (Seq<T>, Option<usize>), value: T) -> ValueResult {
        match s.1 {
            Some(k) => if s.0.len() + 1 >= k {
                ValueResult::Stop
            } else {
                ValueResult::MoreValues
            },
            None => ValueResult::MoreValues,
        }
    }

    open spec fn step(s: (Seq<T>, Option<usize>), value: T) -> (Seq<T>, Option<usize>) {
        (s.0.push(value), s.1)
    }

    fn accept(&mut self, value: T) -> (r: ValueResult) {
        self.items.push(value);
        match self.limit {
            Some(k) => if self.items.len() >= k {
                ValueResult::Stop
            } else {
                ValueResult::MoreValues
            },
            None => ValueResult::MoreValues,
        }
    }
}

/// `f` may be called on every value, and its contract leaves one answer for
/// each.
pub open spec fn answers<T, F: FnMut(T) -> ValueResult>(f: F) -> bool {
    &&& forall|x: T| call_requires(f, (x,))
    &&& forall|x: T, y: ValueResult, z: ValueResult|
        call_ensures(f, (x,), y) && call_ensures(f, (x,), z) ==> y == z
}

/// A function of one value that answers with a signal, as a sink. Its state
/// is the function itself.
#[verifier::reject_recursive_types(T)]
pub struct Call<T, F> {
    f: F,
    marker: PhantomData<T>,
}

impl<T, F: FnMut(T) -> ValueResult> Call<T, F> {
    /// The function that is held.
    pub closed spec fn inner(&self) -> F {
        self.f
    }

    /// `f` as a sink.
    pub fn new(f: F) -> (c: Self)
        requires
            answers::<T, F>(f),
        ensures
            c.inner() == f,
            c.inv(),
    {
        Call { f, marker: PhantomData }
    }
}

impl<T, F: FnMut(T) -> ValueResult> Sound for Call<T, F> {
    open spec fn inv(&self) -> bool {
        answers::<T, F>(self.inner())
    }
}

impl<T, F: FnMut(T) -> ValueResult> Sink<T> for Call<T, F> {
    type State = F;

    open spec fn state(&self) -> F {
        self.inner()
    }

    open spec fn verdict(s: F, value: T) -> ValueResult {
        choose|r: ValueResult| call_ensures(s, (value,), r)
    }

    open spec fn step(s: F, value: T) -> F {
        s
    }

    fn accept(&mut self, value: T) -> (r: ValueResult) {
        assert(call_requires(self.inner(), (value,)));
        let r: ValueResult = (self.f)(value);
        r
    }
}

/// Calls a function on every value and always asks for more. It keeps
/// account of the values it has called the function on.
#[verifier::reject_recursive_types(T)]
pub struct Each<T, F> {
    action: F,
    taken: Ghost<Seq<T>>,
}

impl<T, F: FnMut(T)> Each<T, F> {
    /// A sink that calls `action` on each value, and has not called it yet.
    pub fn new(action: F) -> (e: Self)
        requires
            forall|x: T| call_requires(action, (x,)),
        ensures
            e.action() == action,
            e.taken() == Seq::<T>::empty(),
            e.inv(),
    {
        Each { action, taken: Ghost(Seq::empty()) }
    }

    /// The function that is called.
    pub closed spec fn action(&self) -> F {
        self.action
    }

    /// The values that the function was called on, in order.
    pub closed spec fn taken(&self) -> Seq<T> {
        self.taken@
    }
}

/// The action may be called on every value, and what it ensures of a call
/// holds of each value that it was called on.
impl<T, F: FnMut(T)> Sound for Each<T, F> {
    open spec fn inv(&self) -> bool {
        &&& forall|x: T| call_requires(self.action(), (x,))
        &&& forall|i: int|
            0 <= i < self.taken().len() ==> call_ensures(
                self.action(),
                (#[trigger] self.taken()[i],),
                (),
            )
    }
}

impl<T, F: FnMut(T)> Sink<T> for Each<T, F> {
    type State = (F, Seq<T>);

    open spec fn state(&self) -> (F, Seq<T>) {
        (self.action(), self.taken())
    }

    open spec fn verdict(s: (F, Seq<T>), value: T) -> ValueResult {
        ValueResult::MoreValues
    }

    open spec fn step(s: (F, Seq<T>), value: T) -> (F, Seq<T>) {
        (s.0, s.1.push(value))
    }

    /// Calls the action on `value` and takes note of it: what the action
    /// ensures of a call on `value` holds afterwards.
    fn accept(&mut self, value: T) -> (r: ValueResult)
        ensures
            call_ensures(old(self).action(), (value,), ()),
    {
        assert(call_requires(self.action(), (value,)));
        let ghost seen = value;
        let ghost before = self.taken();
        (self.action)(value);
        self.taken = Ghost(before.push(seen));
        proof {
            assert forall|i: int| 0 <= i < self.taken().len() implies call_ensures(
                self.action(),
                (#[trigger] self.taken()[i],),
                (),
            ) by {
                if i < before.len() {
                    assert(self.taken()[i] == before[i]);
                    assert(old(self).taken()[i] == before[i]);
                }
            }
        }
        ValueResult::MoreValues
    }
}

/// A sink that calls a function on each value never asks to stop, and ends
/// up with the values added to its account.
pub proof fn lemma_each_feed<T, F: FnMut(T)>(action: F, taken: Seq<T>, items: Seq<T>)
    ensures
        never_stops::<T, Each<T, F>>((action, taken), items),
        feed::<T, Each<T, F>>((action, taken), items) == (action, taken + items),
    decreases items.len(),
{
    if items.len() > 0 {
        lemma_each_feed::<T, F>(action, taken.push(items[0]), items.skip(1));
        assert(taken.push(items[0]) + items.skip(1) =~= taken + items);
    } else {
        assert(taken + items =~= taken);
    }
}

} // verus!
