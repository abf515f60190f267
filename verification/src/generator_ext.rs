//! The fluent surface: each adaptor as a method that takes the generator and
//! wraps it, and the ways to drive a generator to its end.

use crate::accum::{Product, Sum};
use crate::function::{decisive, functional, ByFn, ByTest};
use crate::generator::{ran, Generator};
use crate::into_generator::IntoGenerator;
use crate::laws::{law_delivery, lemma_patient_run};
use crate::script::{burst, first_run, pauses, unlast, values};
use crate::signal::GeneratorResult;
use crate::sink::Sink;
use crate::sinks::{lemma_each_feed, Each};
use crate::structs::boxed::BoxedGenerator;
use crate::structs::chain::Chain;
use crate::structs::cloned::{cloned_steps, faithful_clone, Cloned};
use crate::structs::filter::{filter_steps, Filter};
use crate::structs::filter_map::{filter_map_steps, FilterMap};
use crate::structs::flatten::{flat_steps, Flatten};
use crate::structs::map::{map_steps, Mapped};
use crate::structs::skip::{skip_steps, Skip};
use crate::structs::take::{take_steps, Take};
use crate::structs::zip::{zip_steps, Zip};
use vstd::prelude::*;

verus! {

/// The adaptors and reductions, as methods of every generator of values of
/// type `T`.
pub trait GeneratorExt<T>: Generator<Output = T> {
    /// Runs the generator into `sink`, as `run` does. The contract names the
    /// type of the values by the trait's parameter, which serves where the
    /// generator's own type does not spell it out.
    fn drive<S: Sink<T>>(&mut self, sink: S) -> (ret: (GeneratorResult, S))
        requires
            sink.inv(),
        ensures
            ret.1.inv(),
            ran::<T, S>(
                old(self).pending(),
                sink.state(),
                final(self).pending(),
                ret.1.state(),
                ret.0,
            ),
    {
        self.run(sink)
    }

    /// The values, each transformed by `transform`. The function is called
    /// through a shared reference, so it keeps no state from call to call,
    /// and its contract must leave one result for each argument. What the
    /// script then gives is that result; `Mapped::new` with `ByFn::stating`
    /// names it.
    fn map<Out, F: Fn(T) -> Out>(self, transform: F) -> (g: Mapped<Self, ByFn<T, Out, F>>)
        requires
            functional::<T, Out, F>(transform),
        ensures
            g.pending() == map_steps(ByFn::<T, Out, F>::of(transform), self.pending()),
    {
        Mapped::new(self, ByFn::new(transform))
    }

    /// The values that satisfy `predicate`. The function is called through a
    /// shared reference, so it keeps no state from call to call, and its
    /// contract must leave one answer for each argument; `Filter::new` with
    /// `ByTest::stating` names it.
    fn filter<P: Fn(&T) -> bool>(self, predicate: P) -> (g: Filter<Self, ByTest<T, P>>)
        requires
            decisive::<T, P>(predicate),
        ensures
            g.pending() == filter_steps(ByTest::<T, P>::of(predicate), self.pending()),
    {
        Filter::new(self, ByTest::new(predicate))
    }

    /// What `transform` makes of the values, where it makes something. The
    /// function is called through a shared reference, so it keeps no state
    /// from call to call, and its contract must leave one result for each
    /// argument.
    fn filter_map<Out, F: Fn(T) -> Option<Out>>(self, transform: F) -> (g: FilterMap<
        Self,
        ByFn<T, Option<Out>, F>,
    >)
        requires
            functional::<T, Option<Out>, F>(transform),
        ensures
            g.pending() == filter_map_steps::<T, Out, ByFn<T, Option<Out>, F>>(
                ByFn::<T, Option<Out>, F>::of(transform),
                self.pending(),
            ),
    {
        FilterMap::new(self, ByFn::new(transform))
    }

    /// The values, and then those of `second`.
    fn chain<Second: Generator<Output = T>>(self, second: Second) -> (g: Chain<Self, Second>)
        ensures
            g.pending() == unlast(self.pending()) + second.pending(),
            g.in_first(),
    {
        Chain::new(self, second)
    }

    /// The values, each paired with a value of `right`.
    fn zip<Right: Generator>(self, right: Right) -> (g: Zip<Self, Right>)
        ensures
            g.pending() == zip_steps(self.pending(), right.pending()),
    {
        Zip::new(self, right)
    }

    /// The values of the generators made of the values.
    fn flatten(self) -> (g: Flatten<Self>) where T: IntoGenerator
        ensures
            g.pending() == flat_steps(self.pending()),
    {
        Flatten::new(self)
    }

    /// The first `n` values.
    fn take(self, n: usize) -> (g: Take<Self>)
        ensures
            g.pending() == take_steps(self.pending(), n as nat),
    {
        Take::new(self, n)
    }

    /// The values but the first `n`.
    fn skip(self, n: usize) -> (g: Skip<Self>)
        ensures
            g.pending() == skip_steps(self.pending(), n as nat),
    {
        Skip::new(self, n)
    }

    /// The generator behind a type that does not name its own.
    fn boxed(self) -> (g: BoxedGenerator<T>) where Self: 'static
        ensures
            g.pending() == self.pending(),
    {
        BoxedGenerator::new(self)
    }

    /// Runs the generator once and calls `action` on each value. The run ends
    /// at the first pause of the generator, or when nothing is left: `action`
    /// cannot ask to stop. What `action` ensures of a call holds of each value
    /// that the run gave.
    fn for_each<F: FnMut(T)>(&mut self, action: F) -> (r: GeneratorResult)
        requires
            forall|x: T| call_requires(action, (x,)),
        ensures
            final(self).pending() == old(self).pending().skip(burst(old(self).pending()) as int),
            r == if pauses(old(self).pending()) {
                GeneratorResult::Stopped
            } else {
                GeneratorResult::Complete
            },
            forall|i: int|
                0 <= i < first_run(old(self).pending()).len() ==> call_ensures(
                    action,
                    (#[trigger] first_run(old(self).pending())[i],),
                    (),
                ),
    {
        let ghost start = (action, Seq::<T>::empty());
        proof {
            lemma_each_feed::<T, F>(action, Seq::empty(), values(self.pending()));
            lemma_patient_run::<T, Each<T, F>>(self.pending(), start);
            law_delivery::<T, Each<T, F>>(self.pending(), start);
            lemma_each_feed::<T, F>(action, Seq::empty(), first_run(self.pending()));
        }
        let (result, each) = self.run(Each::new(action));
        proof {
            assert(each.taken() =~= first_run(old(self).pending()));
        }
        result
    }

    /// The sum of the values that one run gives.
    fn sum<N: Sum<T>>(self) -> (r: N)
        requires
            N::sum_of(first_run(self.pending())) is Some,
        ensures
            N::sum_of(first_run(self.pending())) == Some(r),
    {
        N::sum(self)
    }

    /// The product of the values that one run gives.
    fn product<N: Product<T>>(self) -> (r: N)
        requires
            N::product_of(first_run(self.pending())) is Some,
        ensures
            N::product_of(first_run(self.pending())) == Some(r),
    {
        N::product(self)
    }
}

impl<T, G: Generator<Output = T>> GeneratorExt<T> for G {

}

/// `cloned`, as a method of every generator of references.
pub trait ClonedExt<'a, U: 'a + Clone>: Generator<Output = &'a U> {
    /// The values behind the references that the generator yields.
    fn cloned(self) -> (g: Cloned<Self, U>)
        requires
            faithful_clone::<U>(),
        ensures
            g.pending() == cloned_steps(self.pending()),
    {
        Cloned::new(self)
    }
}

impl<'a, U: 'a + Clone, G: Generator<Output = &'a U>> ClonedExt<'a, U> for G {

}

} // verus!
