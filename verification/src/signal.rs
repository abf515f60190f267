//! The two signals of the protocol: what a consumer answers after each value,
//! and how a run of a generator ends.

use vstd::prelude::*;
use vstd::std_specs::convert::FromSpecImpl;

verus! {

/// The answer of a consumer to one value.
#[derive(Ord, PartialOrd, Eq, PartialEq, Structural, Copy, Clone, Debug)]
pub enum ValueResult {
    /// The generator must halt at once.
    Stop,
    /// The generator may deliver the next value.
    MoreValues,
}

/// The outcome of one run of a generator.
#[derive(Ord, PartialOrd, Eq, PartialEq, Structural, Copy, Clone, Debug)]
pub enum GeneratorResult {
    /// The run was paused; a later run continues where this one left off.
    Stopped,
    /// Everything has been delivered; no later run delivers anything.
    Complete,
}

impl From<bool> for ValueResult {
    /// `true` asks for more values, `false` asks the generator to stop.
    fn from(value: bool) -> (r: Self) {
        if !value {
            ValueResult::Stop
        } else {
            ValueResult::MoreValues
        }
    }
}

impl FromSpecImpl<bool> for ValueResult {
    open spec fn obeys_from_spec() -> bool {
        true
    }

    open spec fn from_spec(value: bool) -> Self {
        if value {
            ValueResult::MoreValues
        } else {
            ValueResult::Stop
        }
    }
}

impl From<bool> for GeneratorResult {
    /// `true` means complete, `false` means stopped.
    fn from(b: bool) -> (r: Self) {
        if !b {
            GeneratorResult::Stopped
        } else {
            GeneratorResult::Complete
        }
    }
}

impl FromSpecImpl<bool> for GeneratorResult {
    open spec fn obeys_from_spec() -> bool {
        true
    }

    open spec fn from_spec(b: bool) -> Self {
        if b {
            GeneratorResult::Complete
        } else {
            GeneratorResult::Stopped
        }
    }
}

} // verus!
