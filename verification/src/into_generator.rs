//! Values that can be made into generators.

use crate::generator::Generator;
use crate::script::Step;
use vstd::prelude::*;

verus! {

/// A value that can be made into a generator.
pub trait IntoGenerator: Sized {
    /// The type of the values of the generator.
    type Output;

    /// The type of the generator.
    type IntoGen: Generator<Output = Self::Output>;

    /// What the generator made of this value has to do.
    spec fn script(self) -> Seq<Step<Self::Output>>;

    /// Makes the generator.
    fn into_gen(self) -> (g: Self::IntoGen)
        ensures
            g.pending() == self.script(),
    ;
}

impl<G: Generator> IntoGenerator for G {
    type Output = G::Output;

    type IntoGen = G;

    open spec fn script(self) -> Seq<Step<G::Output>> {
        self.pending()
    }

    fn into_gen(self) -> (g: G) {
        self
    }
}

} // verus!
