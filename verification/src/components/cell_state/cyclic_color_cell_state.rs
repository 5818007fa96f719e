//! Cyclic colours: every colour is eaten by its successor.

use crate::components::cell_state;
use crate::components::cell_state::CellState;
use crate::error::RuleConfigurationError;
use vstd::prelude::*;
use vstd::std_specs::cmp::PartialEqSpecImpl;

verus! {

/// The state of a cyclic cellular automaton: an index into a palette of
/// `PALETTE` colours that follow one another in a cycle.
///
/// A cell moves on to the next colour of the cycle when at least
/// `THRESHOLD` of its neighbours hold that colour already. Otherwise it
/// keeps its colour.
#[derive(Debug, Clone, Copy, Eq)]
pub struct CyclicColorCellState<const PALETTE: usize, const THRESHOLD: usize>(pub usize);

impl<const PALETTE: usize, const THRESHOLD: usize> PartialEq for CyclicColorCellState<
    PALETTE,
    THRESHOLD,
> {
    fn eq(&self, other: &Self) -> (same: bool) {
        self.0 == other.0
    }
}

impl<const PALETTE: usize, const THRESHOLD: usize> PartialEqSpecImpl for CyclicColorCellState<
    PALETTE,
    THRESHOLD,
> {
    open spec fn obeys_eq_spec() -> bool {
        true
    }

    open spec fn eq_spec(&self, other: &Self) -> bool {
        *self == *other
    }
}

impl<const PALETTE: usize, const THRESHOLD: usize> CyclicColorCellState<PALETTE, THRESHOLD> {
    /// The state with the colour `index`. A rule without colours or
    /// without a threshold is refused, and so is an index that the palette
    /// does not hold.
    pub fn new(index: usize) -> (result: Result<Self, RuleConfigurationError>)
        ensures
            result == if PALETTE == 0 {
                Err::<Self, RuleConfigurationError>(RuleConfigurationError::EmptyPalette)
            } else if THRESHOLD == 0 {
                Err(RuleConfigurationError::ZeroThreshold)
            } else if index >= PALETTE {
                Err(RuleConfigurationError::IndexOutOfPalette { index, palette: PALETTE })
            } else {
                Ok(CyclicColorCellState(index))
            },
    {
        if PALETTE == 0 {
            Err(RuleConfigurationError::EmptyPalette)
        } else if THRESHOLD == 0 {
            Err(RuleConfigurationError::ZeroThreshold)
        } else if index >= PALETTE {
            Err(RuleConfigurationError::IndexOutOfPalette { index, palette: PALETTE })
        } else {
            Ok(CyclicColorCellState(index))
        }
    }

    /// The number of colours in the palette.
    pub fn max_index() -> (colors: usize)
        ensures
            colors == PALETTE,
    {
        PALETTE
    }

    /// The colour that follows `index` in the cycle. After the last colour
    /// of the palette, and after any index outside it, comes the first.
    pub open spec fn successor(index: usize) -> usize {
        if index + 1 < PALETTE {
            (index + 1) as usize
        } else {
            0
        }
    }

    /// The number of `cells` that hold the colour `index`.
    pub open spec fn holders(cells: Seq<Self>, index: usize) -> nat {
        cells.filter(|c: Self| c.0 == index).len()
    }

    /// The state that follows `self` when the existing neighbours hold
    /// `neighbors`.
    pub open spec fn next_state(self, neighbors: Seq<Self>) -> Self {
        let next = Self::successor(self.0);
        if Self::holders(neighbors, next) >= THRESHOLD {
            CyclicColorCellState(next)
        } else {
            self
        }
    }

    /// Counts the `cells` that hold the colour `index`.
    fn count_holders(cells: &[Self], index: usize) -> (count: usize)
        ensures
            count == Self::holders(cells@, index),
    {
        let mut count: usize = 0;
        let mut i: usize = 0;
        while i < cells.len()
            invariant
                i <= cells.len(),
                count <= i,
                count == Self::holders(cells@.take(i as int), index),
            decreases cells.len() - i,
        {
            proof {
                let holds = |c: Self| c.0 == index;
                cells@.take(i as int).lemma_filter_len_push(holds, cells@[i as int]);
                assert(cells@.take(i as int + 1) =~= cells@.take(i as int).push(cells@[i as int]));
            }
            if cells[i].0 == index {
                count = count + 1;
            }
            i = i + 1;
        }
        assert(cells@.take(cells.len() as int) =~= cells@);
        count
    }

    /// A state of the palette is followed by a state of the palette.
    pub proof fn lemma_next_state_in_palette(self, neighbors: Seq<Self>)
        requires
            self.0 < PALETTE,
        ensures
            self.next_state(neighbors).0 < PALETTE,
    {
    }

    /// The rule allows the state that `next_state` names, and no other.
    pub proof fn lemma_allows_next_state_only(self, neighbors: Seq<Self>, next: Self)
        requires
            cell_state::allows(self, neighbors, next),
        ensures
            next == self.next_state(neighbors),
    {
    }

    /// The rule leaves nothing to chance.
    pub proof fn lemma_rule_is_deterministic()
        ensures
            cell_state::deterministic::<Self>(),
    {
        assert forall|state: Self, neighbors: Seq<Self>, a: Self, b: Self|
            #![trigger
                cell_state::allows(state, neighbors, a),
                cell_state::allows(state, neighbors, b)
            ]
            cell_state::allows(state, neighbors, a)
                && cell_state::allows(state, neighbors, b) implies a == b by {
            state.lemma_allows_next_state_only(neighbors, a);
            state.lemma_allows_next_state_only(neighbors, b);
        }
    }

    /// `==` tells whether two states are the same value.
    pub proof fn lemma_eq_is_identity()
        ensures
            vstd::laws_eq::obeys_concrete_eq::<Self>(),
    {
        reveal(vstd::laws_eq::obeys_concrete_eq);
    }
}

impl<const PALETTE: usize, const THRESHOLD: usize> CellState for CyclicColorCellState<
    PALETTE,
    THRESHOLD,
> {
    fn new_cell_state(&self, neighbor_cells: &[Self]) -> (next: Self)
        ensures
            next == self.next_state(neighbor_cells@),
    {
        let new_index = if PALETTE > 0 && self.0 < PALETTE - 1 {
            self.0 + 1
        } else {
            0
        };
        if Self::count_holders(neighbor_cells, new_index) >= THRESHOLD {
            CyclicColorCellState(new_index)
        } else {
            *self
        }
    }
}

} // verus!
