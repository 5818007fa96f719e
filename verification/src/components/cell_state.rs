//! The transition-rule abstraction and the rule families built on it.

use vstd::prelude::*;


pub mod cyclic_color_cell_state;
pub mod immigration_state;
pub mod sir;
pub mod sir_cohort;
pub mod wire_world_cell_state;


pub use cyclic_color_cell_state::CyclicColorCellState;
pub use immigration_state::ImmigrationCellState;
pub use sir::{SirRates, SirState};
pub use sir_cohort::{Draws, SirCohort};
pub use wire_world_cell_state::WireWorldCellState;

verus! {

/// The state of a cell together with the rule that drives it.
///
/// A rule may draw random numbers, so nothing is asked of what
/// `new_cell_state` hands back: each rule says in its own contract which
/// states it can. [`allows`] speaks of that contract.
pub trait CellState: Sized + Copy + PartialEq {
    /// The state of the following generation for a cell in state `self`
    /// whose existing neighbours hold `neighbor_cells`.
    fn new_cell_state(&self, neighbor_cells: &[Self]) -> Self;
}

/// Whether a cell in state `state`, whose existing neighbours hold
/// `neighbors`, may enter `next` in the following generation: whether the
/// contract of the rule lets `new_cell_state` hand `next` back.
pub open spec fn allows<S: CellState>(state: S, neighbors: Seq<S>, next: S) -> bool {
    exists|around: &[S]|
        around@ == neighbors && #[trigger] call_ensures(
            S::new_cell_state,
            (&state, around),
            next,
        )
}

/// Whether the rule of `S` leaves nothing to chance: a cell and a
/// neighbourhood allow one next state only.
pub open spec fn deterministic<S: CellState>() -> bool {
    forall|state: S, neighbors: Seq<S>, a: S, b: S|
        #![trigger allows(state, neighbors, a), allows(state, neighbors, b)]
        allows(state, neighbors, a) && allows(state, neighbors, b) ==> a == b
}

} // verus!
