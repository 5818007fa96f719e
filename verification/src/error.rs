//! What can go wrong before the first generation runs.

use vstd::prelude::*;

verus! {

/// A grid that cannot be set up.
#[derive(Debug, Clone, Copy, PartialEq, Eq, Structural)]
pub enum PopulationError {
    /// Two cells were given the same coordinate; `first` and `second` are
    /// the positions of the two in the population, `first < second`.
    DuplicateCoordinate { first: usize, second: usize },
    /// The batching policy asks for no share or for batches without a cell,
    /// so that a round would never end.
    InvalidBatch,
    /// The spacing of the long-range links is not positive.
    InvalidSpacing { spacing: i32 },
}

/// A rule whose constants make no sense.
#[derive(Debug, Clone, Copy, PartialEq, Eq, Structural)]
pub enum RuleConfigurationError {
    /// The palette of a cyclic rule holds no colour.
    EmptyPalette,
    /// The threshold of a cyclic rule is 0, so that no neighbour would be
    /// needed for a cell to move on.
    ZeroThreshold,
    /// A colour index from outside the palette.
    IndexOutOfPalette { index: usize, palette: usize },
    /// A chance of more than a million millionths.
    InvalidProbability { millionths: u32 },
}

} // verus!
