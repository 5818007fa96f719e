//! The immigration game: Conway's game of life with two kinds of live cell.

use crate::components::cell_state;
use crate::components::cell_state::CellState;
use vstd::prelude::*;
use vstd::std_specs::cmp::PartialEqSpecImpl;

verus! {

/// Classic cellular automation state and rules following Conway's game of
/// life variation: The immigration game.
///
/// - Any live cell with fewer than two live neighbours dies, as if by
///   underpopulation.
/// - Any live cell with two or three live neighbours lives on to the next
///   generation.
/// - Any live cell with more than three live neighbours dies, as if by
///   overpopulation.
/// - Any dead cell with exactly three live neighbours becomes a live cell,
///   as if by reproduction and takes the state of the majority of the live
///   neighbors.
#[derive(Debug, Clone, Copy, Eq)]
pub enum ImmigrationCellState {
    /// A dead cell
    Dead,
    /// Alive cell with a boolean sub-state
    Alive(bool),
}

impl PartialEq for ImmigrationCellState {
    fn eq(&self, other: &Self) -> (same: bool) {
        match (self, other) {
            (ImmigrationCellState::Dead, ImmigrationCellState::Dead) => true,
            (ImmigrationCellState::Alive(a), ImmigrationCellState::Alive(b)) => *a == *b,
            _ => false,
        }
    }
}

impl PartialEqSpecImpl for ImmigrationCellState {
    open spec fn obeys_eq_spec() -> bool {
        true
    }

    open spec fn eq_spec(&self, other: &Self) -> bool {
        *self == *other
    }
}

impl Default for ImmigrationCellState {
    fn default() -> (state: Self)
        ensures
            state == ImmigrationCellState::Dead,
    {
        ImmigrationCellState::Dead
    }
}

impl ImmigrationCellState {
    /// Is the cell considered alive
    pub fn is_alive(&self) -> (alive: bool)
        ensures
            alive == (*self is Alive),
    {
        match self {
            ImmigrationCellState::Alive(_) => true,
            ImmigrationCellState::Dead => false,
        }
    }

    /// The index of the material that shows the cell: 0 for a dead cell, 1
    /// for a live cell with sub-state `true`, 2 for one with `false`.
    pub fn material_index(&self) -> (index: usize)
        ensures
            index == match *self {
                ImmigrationCellState::Dead => 0usize,
                ImmigrationCellState::Alive(true) => 1usize,
                ImmigrationCellState::Alive(false) => 2usize,
            },
    {
        match self {
            ImmigrationCellState::Dead => 0,
            ImmigrationCellState::Alive(b) => if *b {
                1
            } else {
                2
            },
        }
    }

    /// The number of live cells among `cells`.
    pub open spec fn alive_count(cells: Seq<Self>) -> nat {
        cells.filter(|c: Self| c is Alive).len()
    }

    /// The number of live cells among `cells` whose sub-state is `kind`.
    pub open spec fn kind_count(cells: Seq<Self>, kind: bool) -> nat {
        cells.filter(|c: Self| c == ImmigrationCellState::Alive(kind)).len()
    }

    /// The sub-state that most live cells among `cells` hold. Where the two
    /// kinds are level, which can only happen with an even number of live
    /// cells, it is `false`.
    pub open spec fn majority_kind(cells: Seq<Self>) -> bool {
        Self::kind_count(cells, true) > Self::kind_count(cells, false)
    }

    /// The state that follows `self` when the existing neighbours hold
    /// `neighbors`.
    pub open spec fn next_state(self, neighbors: Seq<Self>) -> Self {
        let alive = Self::alive_count(neighbors);
        match self {
            ImmigrationCellState::Alive(_) => if alive == 2 || alive == 3 {
                self
            } else {
                ImmigrationCellState::Dead
            },
            ImmigrationCellState::Dead => if alive == 3 {
                ImmigrationCellState::Alive(Self::majority_kind(neighbors))
            } else {
                ImmigrationCellState::Dead
            },
        }
    }

    /// Every live cell is of one kind or the other.
    pub proof fn lemma_kinds_partition_alive(cells: Seq<Self>)
        ensures
            Self::alive_count(cells) == Self::kind_count(cells, true) + Self::kind_count(
                cells,
                false,
            ),
        decreases cells.len(),
    {
        let alive = |c: Self| c is Alive;
        let yes = |c: Self| c == ImmigrationCellState::Alive(true);
        let no = |c: Self| c == ImmigrationCellState::Alive(false);
        if cells.len() == 0 {
            assert(cells.filter(alive).len() == 0) by {
                cells.lemma_filter_len(alive);
            }
            assert(cells.filter(yes).len() == 0) by {
                cells.lemma_filter_len(yes);
            }
            assert(cells.filter(no).len() == 0) by {
                cells.lemma_filter_len(no);
            }
        } else {
            let front = cells.drop_last();
            let last = cells.last();
            Self::lemma_kinds_partition_alive(front);
            assert(cells =~= front.push(last));
            front.lemma_filter_len_push(alive, last);
            front.lemma_filter_len_push(yes, last);
            front.lemma_filter_len_push(no, last);
        }
    }

    /// Counts the live cells among `cells`, and those of them whose sub-state
    /// is `true`.
    fn count_alive(cells: &[Self]) -> (counts: (usize, usize))
        ensures
            counts.0 == Self::alive_count(cells@),
            counts.1 == Self::kind_count(cells@, true),
    {
        let mut alive: usize = 0;
        let mut alive_true: usize = 0;
        let mut i: usize = 0;
        while i < cells.len()
            invariant
                i <= cells.len(),
                alive_true <= alive <= i,
                alive == Self::alive_count(cells@.take(i as int)),
                alive_true == Self::kind_count(cells@.take(i as int), true),
            decreases cells.len() - i,
        {
            proof {
                let seen = cells@.take(i as int);
                let is_alive = |c: Self| c is Alive;
                let is_true = |c: Self| c == ImmigrationCellState::Alive(true);
                seen.lemma_filter_len_push(is_alive, cells@[i as int]);
                seen.lemma_filter_len_push(is_true, cells@[i as int]);
                assert(cells@.take(i as int + 1) =~= seen.push(cells@[i as int]));
            }
            match cells[i] {
                ImmigrationCellState::Dead => {},
                ImmigrationCellState::Alive(kind) => {
                    alive = alive + 1;
                    if kind {
                        alive_true = alive_true + 1;
                    }
                },
            }
            i = i + 1;
        }
        assert(cells@.take(cells.len() as int) =~= cells@);
        (alive, alive_true)
    }

    /// A dead cell with exactly three live neighbours, two of them of one
    /// kind, comes alive with that kind.
    pub proof fn lemma_birth_inherits_majority(neighbors: Seq<Self>, kind: bool)
        requires
            Self::alive_count(neighbors) == 3,
            Self::kind_count(neighbors, kind) == 2,
        ensures
            ImmigrationCellState::Dead.next_state(neighbors) == ImmigrationCellState::Alive(kind),
    {
        Self::lemma_kinds_partition_alive(neighbors);
    }

    /// The rule allows the state that `next_state` names, and no other.
    pub proof fn lemma_allows_next_state_only(self, neighbors: Seq<Self>, next: Self)
        requires
            cell_state::allows(self, neighbors, next),
        ensures
            next == self.next_state(neighbors),
    {
    }

    /// The rule leaves nothing to chance.
    pub proof fn lemma_rule_is_deterministic()
        ensures
            cell_state::deterministic::<Self>(),
    {
        assert forall|state: Self, neighbors: Seq<Self>, a: Self, b: Self|
            #![trigger
                cell_state::allows(state, neighbors, a),
                cell_state::allows(state, neighbors, b)
            ]
            cell_state::allows(state, neighbors, a)
                && cell_state::allows(state, neighbors, b) implies a == b by {
            state.lemma_allows_next_state_only(neighbors, a);
            state.lemma_allows_next_state_only(neighbors, b);
        }
    }

    /// `==` tells whether two states are the same value.
    pub proof fn lemma_eq_is_identity()
        ensures
            vstd::laws_eq::obeys_concrete_eq::<Self>(),
    {
        reveal(vstd::laws_eq::obeys_concrete_eq);
    }
}

impl CellState for ImmigrationCellState {
    fn new_cell_state(&self, neighbor_cells: &[Self]) -> (next: Self)
        ensures
            next == self.next_state(neighbor_cells@),
    {
        let (alive_cells_count, alive_true_count) = Self::count_alive(neighbor_cells);
        proof {
            Self::lemma_kinds_partition_alive(neighbor_cells@);
        }
        if self.is_alive() {
            if alive_cells_count == 2 || alive_cells_count == 3 {
                *self
            } else {
                ImmigrationCellState::Dead
            }
        } else if alive_cells_count == 3 {
            ImmigrationCellState::Alive(alive_true_count >= 2)
        } else {
            ImmigrationCellState::Dead
        }
    }
}

} // verus!
