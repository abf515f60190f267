//! One of two generators behind one type.

use crate::generator::{Generator, ReverseGenerator};
use crate::script::Step;
use crate::signal::GeneratorResult;
use crate::sink::Sink;
use either::Either;
use vstd::prelude::*;

verus! {

/// `either::Either`: an enum of two variants, `Left` with a value of the first
/// type and `Right` with a value of the second. Nothing more is claimed of it.
#[verifier::external_type_specification]
#[verifier::reject_recursive_types(L)]
#[verifier::reject_recursive_types(R)]
pub struct ExEither<L, R>(Either<L, R>);

impl<L, R> Generator for Either<L, R> where L: Generator, R: Generator<Output = L::Output> {
    type Output = L::Output;

    open spec fn pending(&self) -> Seq<Step<L::Output>> {
        match self {
            Either::Left(left) => left.pending(),
            Either::Right(right) => right.pending(),
        }
    }

    fn run<S: Sink<L::Output>>(&mut self, sink: S) -> (ret: (GeneratorResult, S)) {
        match self {
            Either::Left(left) => left.run(sink),
            Either::Right(right) => right.run(sink),
        }
    }

    fn try_advance(&mut self, n: usize) -> (ret: (usize, GeneratorResult)) {
        match self {
            Either::Left(left) => left.try_advance(n),
            Either::Right(right) => right.try_advance(n),
        }
    }
}

impl<L, R> ReverseGenerator for Either<L, R> where
    L: ReverseGenerator,
    R: ReverseGenerator<Output = L::Output>,
 {
    fn run_back<S: Sink<L::Output>>(&mut self, sink: S) -> (ret: (GeneratorResult, S)) {
        match self {
            Either::Left(left) => left.run_back(sink),
            Either::Right(right) => right.run_back(sink),
        }
    }

    fn try_advance_back(&mut self, n: usize) -> (ret: (usize, GeneratorResult)) {
        match self {
            Either::Left(left) => left.try_advance_back(n),
            Either::Right(right) => right.try_advance_back(n),
        }
    }
}

} // verus!
