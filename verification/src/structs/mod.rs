//! The adaptors.

pub mod boxed;
pub mod chain;
pub mod cloned;
pub mod filter;
pub mod filter_map;
pub mod flatten;
pub mod from_fn;
pub mod map;
pub mod skip;
pub mod take;
pub mod zip;

pub use crate::structs::boxed::BoxedGenerator;
pub use crate::structs::chain::Chain;
pub use crate::structs::cloned::Cloned;
pub use crate::structs::filter::Filter;
pub use crate::structs::filter_map::FilterMap;
pub use crate::structs::flatten::Flatten;
pub use crate::structs::from_fn::{from_fn, FromFn, Stepper};
pub use crate::structs::map::Mapped;
pub use crate::structs::skip::Skip;
pub use crate::structs::take::Take;
pub use crate::structs::zip::Zip;
