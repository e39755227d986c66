//! The error kinds that the engine reports instead of panicking.

use vstd::prelude::*;

verus! {

/// Every failure of the engine is a contract violation on malformed input,
/// surfaced as a typed, recoverable value: the engine itself never panics.
#[derive(Clone, Copy, Debug, PartialEq, Eq, Structural)]
pub enum Error {
    /// A mutation chance outside the unit interval.
    InvalidConfig,
    /// A character outside `a`-`z` and `A`-`Z` in a DNA token.
    InvalidDna,
    /// Selection over zero individuals.
    EmptyPopulation,
    /// An input vector of the wrong width, or crossover over parents of
    /// unequal length.
    ArityMismatch,
    /// A flat parameter sequence whose length does not match the topology:
    /// it either runs out early or leaves values unconsumed.
    DataExhausted,
}

} // verus!
