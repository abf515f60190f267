//! Push-style generators: a producer drives its values into a consumer and
//! hands control back when it is told to stop, or when it has nothing left.
//!
//! A [`Generator`] is run into a [`Sink`]. The sink answers each value with a
//! [`ValueResult`]; the run ends with a [`GeneratorResult`] and hands the sink
//! back. A run that was stopped is resumed by running the generator again.
//!
//! What a generator has left to do is its script (`script`), and what a run
//! does is one rule for all generators (`generator::run_of`). Each adaptor in
//! `structs` states its script as a function of the scripts of its sources.
//! `laws` holds what follows for every generator and every sink.

pub mod accum;
pub mod array;
pub mod choice;
pub mod function;
pub mod generator;
pub mod generator_ext;
pub mod into_generator;
pub mod laws;
pub mod script;
pub mod signal;
pub mod sink;
pub mod sinks;
pub mod slice;
pub mod stopping;
pub mod structs;

pub use crate::generator::{Generator, ReverseGenerator};
pub use crate::generator_ext::{ClonedExt, GeneratorExt};
pub use crate::into_generator::IntoGenerator;
pub use crate::script::Step;
pub use crate::signal::{GeneratorResult, ValueResult};
pub use crate::sink::{Sink, Sound};
pub use crate::slice::SliceGenerator;
pub use crate::structs::from_fn::from_fn;
pub use either::Either;
