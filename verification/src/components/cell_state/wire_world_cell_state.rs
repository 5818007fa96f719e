//! Wireworld: electrons travelling along conductors.

use crate::components::cell_state;
use crate::components::cell_state::CellState;
use vstd::prelude::*;
use vstd::std_specs::cmp::PartialEqSpecImpl;

verus! {

/// Wireworld is a cellular automaton that simulates electronic devices and
/// logic gates by having cells represent electrons traveling across
/// conductors. It uses three cell states and the following rules:
///
/// - Electron heads (`ElectronHead`) become electron tails in the succeeding
///   generation.
/// - Electron tails (`ElectronTail`) become conductors.
/// - Conductors (`Conductor`) become electron heads if exactly one or two
///   neighboring cells are electron heads. Otherwise, they remain as
///   conductors.
#[derive(Copy, Clone, Debug, Eq)]
pub enum WireWorldCellState {
    /// Conductor cell state
    Conductor,
    /// Electron head cell state
    ElectronHead,
    /// Electron tail cell state
    ElectronTail,
}

impl PartialEq for WireWorldCellState {
    fn eq(&self, other: &Self) -> (same: bool) {
        match (self, other) {
            (WireWorldCellState::Conductor, WireWorldCellState::Conductor) => true,
            (WireWorldCellState::ElectronHead, WireWorldCellState::ElectronHead) => true,
            (WireWorldCellState::ElectronTail, WireWorldCellState::ElectronTail) => true,
            _ => false,
        }
    }
}

impl PartialEqSpecImpl for WireWorldCellState {
    open spec fn obeys_eq_spec() -> bool {
        true
    }

    open spec fn eq_spec(&self, other: &Self) -> bool {
        *self == *other
    }
}

impl Default for WireWorldCellState {
    fn default() -> (state: Self)
        ensures
            state == WireWorldCellState::Conductor,
    {
        WireWorldCellState::Conductor
    }
}

impl WireWorldCellState {
    /// The number of electron heads among `cells`.
    pub open spec fn electron_heads(cells: Seq<Self>) -> nat {
        cells.filter(|c: Self| c is ElectronHead).len()
    }

    /// The state that follows `self` when the existing neighbours hold
    /// `neighbors`.
    pub open spec fn next_state(self, neighbors: Seq<Self>) -> Self {
        match self {
            WireWorldCellState::Conductor => {
                let heads = Self::electron_heads(neighbors);
                if heads == 1 || heads == 2 {
                    WireWorldCellState::ElectronHead
                } else {
                    WireWorldCellState::Conductor
                }
            },
            WireWorldCellState::ElectronHead => WireWorldCellState::ElectronTail,
            WireWorldCellState::ElectronTail => WireWorldCellState::Conductor,
        }
    }

    /// Counts the electron heads among `cells`.
    fn count_electron_heads(cells: &[Self]) -> (count: usize)
        ensures
            count == Self::electron_heads(cells@),
    {
        let mut count: usize = 0;
        let mut i: usize = 0;
        while i < cells.len()
            invariant
                i <= cells.len(),
                count <= i,
                count == Self::electron_heads(cells@.take(i as int)),
            decreases cells.len() - i,
        {
            proof {
                let head = |c: Self| c is ElectronHead;
                cells@.take(i as int).lemma_filter_len_push(head, cells@[i as int]);
                assert(cells@.take(i as int + 1) =~= cells@.take(i as int).push(cells@[i as int]));
            }
            if let WireWorldCellState::ElectronHead = cells[i] {
                count = count + 1;
            }
            i = i + 1;
        }
        assert(cells@.take(cells.len() as int) =~= cells@);
        count
    }

    /// An electron head turns into a tail and then into a conductor,
    /// whatever its neighbours hold in either generation.
    pub proof fn lemma_electron_head_decays(first: Seq<Self>, second: Seq<Self>)
        ensures
            WireWorldCellState::ElectronHead.next_state(first) == WireWorldCellState::ElectronTail,
            WireWorldCellState::ElectronHead.next_state(first).next_state(second)
                == WireWorldCellState::Conductor,
    {
    }

    /// The rule allows the state that `next_state` names, and no other.
    pub proof fn lemma_allows_next_state_only(self, neighbors: Seq<Self>, next: Self)
        requires
            cell_state::allows(self, neighbors, next),
        ensures
            next == self.next_state(neighbors),
    {
    }

    /// The rule leaves nothing to chance.
    pub proof fn lemma_rule_is_deterministic()
        ensures
            cell_state::deterministic::<Self>(),
    {
        assert forall|state: Self, neighbors: Seq<Self>, a: Self, b: Self|
            #![trigger
                cell_state::allows(state, neighbors, a),
                cell_state::allows(state, neighbors, b)
            ]
            cell_state::allows(state, neighbors, a)
                && cell_state::allows(state, neighbors, b) implies a == b by {
            state.lemma_allows_next_state_only(neighbors, a);
            state.lemma_allows_next_state_only(neighbors, b);
        }
    }

    /// `==` tells whether two states are the same value.
    pub proof fn lemma_eq_is_identity()
        ensures
            vstd::laws_eq::obeys_concrete_eq::<Self>(),
    {
        reveal(vstd::laws_eq::obeys_concrete_eq);
    }
}

impl CellState for WireWorldCellState {
    fn new_cell_state(&self, neighbor_cells: &[Self]) -> (next: Self)
        ensures
            next == self.next_state(neighbor_cells@),
    {
        match self {
            WireWorldCellState::Conductor => {
                let electron_head_count = Self::count_electron_heads(neighbor_cells);
                if electron_head_count == 1 || electron_head_count == 2 {
                    WireWorldCellState::ElectronHead
                } else {
                    WireWorldCellState::Conductor
                }
            },
            WireWorldCellState::ElectronHead => WireWorldCellState::ElectronTail,
            WireWorldCellState::ElectronTail => WireWorldCellState::Conductor,
        }
    }
}

} // verus!
