//! The generation scheduler.
//!
//! A [`Simulation`] owns the cells, the current snapshot of their states and
//! the spatial index. Each tick freezes the snapshot, computes the next state
//! of every cell of the current batch from it, and then commits those states
//! in one go.

use crate::batch::BatchPolicy;
use crate::components::cell::Cell;
use crate::components::cell_state;
use crate::components::cell_state::CellState;
use crate::error::PopulationError;
use crate::resources::cell_map;
use crate::resources::cell_map::CellMap;
use vstd::prelude::*;

verus! {

/// What is fixed when a simulation is set up.
#[derive(Debug, Clone, Copy, PartialEq, Eq, Structural)]
pub struct SimulationConfig {
    /// How the population is shared out over the ticks of a round.
    pub batching: BatchPolicy,
    /// The least time between two generations, in nanoseconds. With 0 every
    /// tick runs one.
    pub min_interval_nanos: u64,
}

impl Default for SimulationConfig {
    fn default() -> (config: Self)
        ensures
            config == (SimulationConfig { batching: BatchPolicy::Off, min_interval_nanos: 0 }),
    {
        SimulationConfig { batching: BatchPolicy::Off, min_interval_nanos: 0 }
    }
}

/// What one tick did.
#[derive(Debug)]
pub struct TickReport {
    /// Whether a generation was computed and committed. It is not where the
    /// least interval between generations has not passed yet.
    pub committed: bool,
    /// The ids of the cells whose state is another than before the tick, in
    /// rising order.
    pub changed: Vec<usize>,
}

/// The cells of a population, in its order.
pub open spec fn cells_of<C, S>(population: Seq<(C, S)>) -> Seq<C> {
    population.map_values(|pair: (C, S)| pair.0)
}

/// The states of a population, in its order.
pub open spec fn states_of<C, S>(population: Seq<(C, S)>) -> Seq<S> {
    population.map_values(|pair: (C, S)| pair.1)
}

/// Whether the first `count` of `cells` lie at `count` different
/// coordinates.
pub open spec fn distinct<C: Cell>(cells: Seq<C>, count: int) -> bool {
    forall|i: int, j: int|
        0 <= i < j < count ==> (#[trigger] cells[i]).position() != (#[trigger] cells[j]).position()
}

/// Whether `index` files every cell of `cells` under its coordinate, and
/// nothing else.
pub open spec fn indexes<C: Cell>(index: Map<C::Coordinates, usize>, cells: Seq<C>) -> bool {
    &&& forall|id: int|
        0 <= id < cells.len() ==> index.contains_key((#[trigger] cells[id]).position())
            && index[cells[id].position()] == id
    &&& forall|c: C::Coordinates| #[trigger]
        index.contains_key(c) ==> index[c] < cells.len() && cells[index[c] as int].position() == c
}

/// The states that the neighbours of the cell `id` hold in `snapshot`, in
/// the order of the topology. Neighbouring coordinates without a cell
/// contribute nothing.
pub open spec fn neighbor_states<C: Cell, S>(
    cells: Seq<C>,
    index: Map<C::Coordinates, usize>,
    snapshot: Seq<S>,
    id: int,
) -> Seq<S> {
    cell_map::found(index, C::neighbors_of(cells[id].position())).map_values(
        |n: usize| snapshot[n as int],
    )
}

/// Whether `after` is a snapshot that the rule allows to follow `before`
/// when the cells `lo .. hi` get their turn: each of them holds a state that
/// the rule allows for its own state and those of its neighbours in
/// `before`, and every other cell holds the state it held.
pub open spec fn follows<C: Cell, S: CellState>(
    cells: Seq<C>,
    index: Map<C::Coordinates, usize>,
    before: Seq<S>,
    after: Seq<S>,
    lo: int,
    hi: int,
) -> bool {
    &&& after.len() == before.len()
    &&& forall|id: int|
        lo <= id < hi ==> cell_state::allows(
            before[id],
            neighbor_states(cells, index, before, id),
            #[trigger] after[id],
        )
    &&& forall|id: int|
        0 <= id < before.len() && !(lo <= id < hi) ==> #[trigger] after[id] == before[id]
}

/// Whether `ids` lists, in rising order, the cells whose state in `after`
/// is another than in `before`.
pub open spec fn lists_changes<S>(ids: Seq<usize>, before: Seq<S>, after: Seq<S>) -> bool {
    &&& forall|i: int, j: int| 0 <= i < j < ids.len() ==> ids[i] < ids[j]
    &&& forall|id: usize|
        ids.contains(id) <==> id < before.len() && before[id as int] != after[id as int]
}

/// Parts a population into its cells and their states.
fn unzip<C, S>(population: Vec<(C, S)>) -> (parts: (Vec<C>, Vec<S>))
    ensures
        parts.0@ == cells_of(population@),
        parts.1@ == states_of(population@),
{
    let mut cells: Vec<C> = Vec::new();
    let mut states: Vec<S> = Vec::new();
    let ghost all = population@;
    for pair in it: population
        invariant
            it.seq() == all,
            cells@ == cells_of(all.take(it.index() as int)),
            states@ == states_of(all.take(it.index() as int)),
    {
        proof {
            let i = it.index() as int;
            assert(all.take(i + 1) =~= all.take(i).push(all[i]));
        }
        let (cell, state) = pair;
        cells.push(cell);
        states.push(state);
    }
    assert(all.take(all.len() as int) =~= all);
    (cells, states)
}

/// A grid of cells under one transition rule, advanced tick by tick.
pub struct Simulation<C: Cell, S: CellState> {
    cells: Vec<C>,
    states: Vec<S>,
    changed: Vec<bool>,
    map: CellMap<C::Coordinates>,
    batching: BatchPolicy,
    turn: usize,
    min_interval: u64,
    waited: u64,
}

impl<C: Cell, S: CellState> Simulation<C, S> {
    /// Whether the parts of the simulation fit together: every cell has a
    /// state and a flag, the index files the cells and nothing else, and the
    /// policy is valid with the next turn inside its round. `populate`
    /// establishes this and every method keeps it.
    pub closed spec fn wf(&self) -> bool {
        &&& self.states.len() == self.cells.len()
        &&& self.changed.len() == self.cells.len()
        &&& indexes(self.map@, self.cells@)
        &&& self.batching.valid()
        &&& self.turn < self.batching.round_len(self.cells.len() as nat)
    }

    /// The cells, by id. They never change.
    pub closed spec fn cells(&self) -> Seq<C> {
        self.cells@
    }

    /// The current snapshot: the state of each cell, by id.
    pub closed spec fn states(&self) -> Seq<S> {
        self.states@
    }

    /// For each cell, whether its state has changed since the flag was last
    /// taken.
    pub closed spec fn flags(&self) -> Seq<bool> {
        self.changed@
    }

    /// The spatial index: the id of the cell at each occupied coordinate.
    pub closed spec fn index(&self) -> Map<C::Coordinates, usize> {
        self.map@
    }

    /// The batching policy.
    pub closed spec fn policy(&self) -> BatchPolicy {
        self.batching
    }

    /// The number within its round of the batch that comes next.
    pub closed spec fn turn(&self) -> nat {
        self.turn as nat
    }

    /// The least time between two generations.
    pub closed spec fn min_interval(&self) -> nat {
        self.min_interval as nat
    }

    /// The time that has passed since the last generation, as far as ticks
    /// have reported it.
    pub closed spec fn waited(&self) -> nat {
        self.waited as nat
    }

    /// The ids of the first cell of the batch that comes next and of the
    /// first cell behind it.
    pub open spec fn batch(&self) -> (int, int) {
        (
            self.policy().bound(self.cells().len(), self.turn()) as int,
            self.policy().bound(self.cells().len(), self.turn() + 1) as int,
        )
    }

    /// Whether `self` is what a tick that commits a generation makes of
    /// `before`: the grid and the policy are the same, the snapshot follows
    /// that of `before` for the batch that was due, and the turn has moved
    /// on.
    pub open spec fn succeeds(&self, before: &Self) -> bool {
        &&& self.cells() == before.cells()
        &&& self.index() == before.index()
        &&& self.policy() == before.policy()
        &&& follows(
            before.cells(),
            before.index(),
            before.states(),
            self.states(),
            before.batch().0,
            before.batch().1,
        )
        &&& self.turn() == (before.turn() + 1) % before.policy().round_len(before.cells().len())
    }

    /// What a well-formed simulation is made of.
    pub proof fn lemma_well_formed(&self)
        requires
            self.wf(),
        ensures
            self.states().len() == self.cells().len(),
            self.flags().len() == self.cells().len(),
            indexes(self.index(), self.cells()),
            self.policy().valid(),
            self.turn() < self.policy().round_len(self.cells().len()),
    {
    }

    /// Sets up a simulation of `population`, whose cells get their ids in
    /// the order given, starting at 0. Every change flag starts raised, since
    /// nobody has read the states yet.
    ///
    /// An invalid batching policy is refused, and so is a population with
    /// two cells at one coordinate: the error names the first cell whose
    /// coordinate was taken, and the cell that had it.
    pub fn populate(population: Vec<(C, S)>, config: SimulationConfig) -> (result: Result<
        Self,
        PopulationError,
    >)
        ensures
            match result {
                Ok(sim) => {
                    &&& config.batching.valid()
                    &&& distinct(cells_of(population@), population@.len() as int)
                    &&& sim.wf()
                    &&& sim.cells() == cells_of(population@)
                    &&& sim.states() == states_of(population@)
                    &&& sim.flags() == Seq::new(population@.len(), |id: int| true)
                    &&& indexes(sim.index(), sim.cells())
                    &&& sim.policy() == config.batching
                    &&& sim.turn() == 0
                    &&& sim.min_interval() == config.min_interval_nanos
                    &&& sim.waited() == 0
                },
                Err(PopulationError::InvalidBatch) => !config.batching.valid(),
                Err(PopulationError::DuplicateCoordinate { first, second }) => {
                    &&& config.batching.valid()
                    &&& first < second < population@.len()
                    &&& cells_of(population@)[first as int].position() == cells_of(
                        population@,
                    )[second as int].position()
                    &&& distinct(cells_of(population@), second as int)
                },
                Err(PopulationError::InvalidSpacing { .. }) => false,
            },
    {
        if !config.batching.is_valid() {
            return Err(PopulationError::InvalidBatch);
        }
        let (cells, states) = unzip(population);
        let count = cells.len();
        let mut map: CellMap<C::Coordinates> = CellMap::new();
        let mut changed: Vec<bool> = Vec::new();
        let mut id: usize = 0;
        while id < count
            invariant
                config.batching.valid(),
                cells@ == cells_of(population@),
                id <= count == cells.len(),
                changed@ == Seq::new(id as nat, |k: int| true),
                indexes(map@, cells@.take(id as int)),
                distinct(cells@, id as int),
            decreases count - id,
        {
            let coords = cells[id].coords();
            match map.get_cell(coords) {
                Some(first) => {
                    proof {
                        assert(map@.contains_key(*coords));
                        assert(cells@.take(id as int)[first as int] == cells@[first as int]);
                    }
                    return Err(PopulationError::DuplicateCoordinate { first, second: id });
                },
                None => {},
            }
            proof {
                let seen = cells@.take(id as int);
                assert forall|i: int| 0 <= i < id implies (#[trigger] cells@[i]).position()
                    != cells@[id as int].position() by {
                    assert(seen[i].position() == cells@[i].position());
                }
            }
            map.insert_cell(*coords, id);
            changed.push(true);
            id = id + 1;
            proof {
                let seen = cells@.take(id as int);
                let before = cells@.take(id - 1);
                assert forall|k: int| 0 <= k < seen.len() implies map@.contains_key(
                    (#[trigger] seen[k]).position(),
                ) && map@[seen[k].position()] == k by {
                    if k < id - 1 {
                        assert(before[k].position() == seen[k].position());
                    }
                }
                assert forall|c: C::Coordinates| #[trigger] map@.contains_key(c) implies map@[c]
                    < seen.len() && seen[map@[c] as int].position() == c by {
                    if c != cells@[id - 1].position() {
                        assert(before[map@[c] as int] == seen[map@[c] as int]);
                    }
                }
                assert(changed@ =~= Seq::new(id as nat, |k: int| true));
            }
        }
        proof {
            assert(cells@.take(count as int) =~= cells@);
            config.batching.lemma_round_len_bounds(count as nat);
        }
        Ok(
            Simulation {
                cells,
                states,
                changed,
                map,
                batching: config.batching,
                turn: 0,
                min_interval: config.min_interval_nanos,
                waited: 0,
            },
        )
    }

    /// Advances the simulation by one tick, `elapsed_nanos` after the tick
    /// before.
    ///
    /// Where less than the least interval has passed since the last
    /// generation, nothing is computed and the time is added up. Otherwise
    /// the snapshot is frozen, the rule is applied to every cell of the batch
    /// that is due, reading the frozen snapshot only, and the new states are
    /// committed together. Cells outside the batch keep their state. The
    /// flag of each cell whose state has changed is raised.
    pub fn tick(&mut self, elapsed_nanos: u64) -> (report: TickReport)
        requires
            old(self).wf(),
        ensures
            final(self).wf(),
            final(self).cells() == old(self).cells(),
            final(self).index() == old(self).index(),
            final(self).policy() == old(self).policy(),
            final(self).min_interval() == old(self).min_interval(),
            report.committed == (old(self).waited() + elapsed_nanos >= old(self).min_interval()),
            !report.committed ==> {
                &&& final(self).states() == old(self).states()
                &&& final(self).flags() == old(self).flags()
                &&& final(self).turn() == old(self).turn()
                &&& final(self).waited() == old(self).waited() + elapsed_nanos
                &&& report.changed@.len() == 0
            },
            report.committed ==> {
                &&& final(self).succeeds(old(self))
                &&& final(self).flags().len() == old(self).flags().len()
                &&& forall|id: int|
                    0 <= id < old(self).flags().len() && old(self).flags()[id]
                        ==> #[trigger] final(self).flags()[id]
                &&& forall|i: int, j: int|
                    0 <= i < j < report.changed@.len() ==> report.changed@[i] < report.changed@[j]
                &&& forall|i: int|
                    0 <= i < report.changed@.len() ==> old(self).batch().0
                        <= #[trigger] report.changed@[i] < old(self).batch().1
                &&& vstd::laws_eq::obeys_concrete_eq::<S>() ==> {
                    &&& lists_changes(report.changed@, old(self).states(), final(self).states())
                    &&& forall|id: int|
                        0 <= id < old(self).flags().len() ==> #[trigger] final(self).flags()[id]
                            == (old(self).flags()[id] || final(self).states()[id] != old(
                            self,
                        ).states()[id])
                }
                &&& final(self).waited() == 0
            },
    {
        let waited = self.waited.saturating_add(elapsed_nanos);
        if waited < self.min_interval {
            self.waited = waited;
            return TickReport { committed: false, changed: Vec::new() };
        }
        let count = self.cells.len();
        let (lo, hi) = self.batching.batch_bounds(count, self.turn);
        let next = self.compute(lo, hi);
        let changed = self.commit(lo, next);
        let rounds = self.batching.round_length(count);
        proof {
            if self.turn + 1 < rounds {
                vstd::arithmetic::div_mod::lemma_small_mod((self.turn + 1) as nat, rounds as nat);
            } else {
                vstd::arithmetic::div_mod::lemma_mod_self_0(rounds as int);
            }
        }
        self.turn = if self.turn + 1 == rounds {
            0
        } else {
            self.turn + 1
        };
        self.waited = 0;
        TickReport { committed: true, changed }
    }

    /// The compute phase: the next state of each of the cells `lo .. hi`,
    /// from the current snapshot, which is only read.
    fn compute(&self, lo: usize, hi: usize) -> (next: Vec<S>)
        requires
            self.wf(),
            lo <= hi <= self.cells.len(),
        ensures
            next.len() == hi - lo,
            forall|k: int|
                0 <= k < hi - lo ==> cell_state::allows(
                    self.states@[lo + k],
                    neighbor_states(self.cells@, self.map@, self.states@, lo + k),
                    #[trigger] next[k],
                ),
    {
        let mut next: Vec<S> = Vec::new();
        let mut id: usize = lo;
        while id < hi
            invariant
                self.wf(),
                lo <= id <= hi <= self.cells.len(),
                next.len() == id - lo,
                forall|k: int|
                    0 <= k < id - lo ==> cell_state::allows(
                        self.states@[lo + k],
                        neighbor_states(self.cells@, self.map@, self.states@, lo + k),
                        #[trigger] next[k],
                    ),
            decreases hi - id,
        {
            let coords = self.cells[id].neighbor_coordinates();
            let ids = self.map.get_cell_entities(coords.as_slice());
            proof {
                cell_map::lemma_found_in_range(
                    self.map@,
                    coords@,
                    self.states.len() as int,
                );
            }
            let neighbors = self.gather(&ids);
            let state = self.states[id].new_cell_state(neighbors.as_slice());
            proof {
                assert(neighbors@ =~= neighbor_states(
                    self.cells@,
                    self.map@,
                    self.states@,
                    id as int,
                ));
            }
            next.push(state);
            id = id + 1;
        }
        next
    }

    /// Copies the states of the cells `ids` out of the current snapshot.
    fn gather(&self, ids: &Vec<usize>) -> (states: Vec<S>)
        requires
            forall|k: int| 0 <= k < ids.len() ==> #[trigger] ids[k] < self.states.len(),
        ensures
            states.len() == ids.len(),
            forall|k: int| 0 <= k < ids.len() ==> #[trigger] states[k] == self.states@[ids[k] as int],
    {
        let mut states: Vec<S> = Vec::with_capacity(ids.len());
        let mut k: usize = 0;
        while k < ids.len()
            invariant
                k <= ids.len(),
                states.len() == k,
                forall|j: int| 0 <= j < ids.len() ==> #[trigger] ids[j] < self.states.len(),
                forall|j: int| 0 <= j < k ==> #[trigger] states[j] == self.states@[ids[j] as int],
            decreases ids.len() - k,
        {
            states.push(self.states[ids[k]]);
            k = k + 1;
        }
        states
    }

    /// The commit phase: writes `next` over the states of the cells from
    /// `lo` on, raises the flags of those that changed and lists them.
    fn commit(&mut self, lo: usize, next: Vec<S>) -> (changed: Vec<usize>)
        requires
            old(self).wf(),
            lo + next.len() <= old(self).cells.len(),
        ensures
            final(self).wf(),
            final(self).cells == old(self).cells,
            final(self).map == old(self).map,
            final(self).batching == old(self).batching,
            final(self).turn == old(self).turn,
            final(self).min_interval == old(self).min_interval,
            final(self).waited == old(self).waited,
            final(self).states.len() == old(self).states.len(),
            forall|id: int|
                0 <= id < old(self).states.len() ==> #[trigger] final(self).states@[id] == if lo
                    <= id < lo + next.len() {
                    next[id - lo]
                } else {
                    old(self).states@[id]
                },
            forall|id: int|
                0 <= id < old(self).changed.len() && old(self).changed@[id]
                    ==> #[trigger] final(self).changed@[id],
            forall|i: int, j: int| 0 <= i < j < changed@.len() ==> changed@[i] < changed@[j],
            forall|i: int| 0 <= i < changed@.len() ==> lo <= #[trigger] changed@[i] < lo + next.len(),
            vstd::laws_eq::obeys_concrete_eq::<S>() ==> {
                &&& lists_changes(changed@, old(self).states@, final(self).states@)
                &&& forall|id: int|
                    0 <= id < old(self).changed.len() ==> #[trigger] final(self).changed@[id] == (
                    old(self).changed@[id] || final(self).states@[id] != old(self).states@[id])
            },
    {
        let mut changed: Vec<usize> = Vec::new();
        let mut k: usize = 0;
        while k < next.len()
            invariant
                self.wf(),
                self.cells == old(self).cells,
                self.map == old(self).map,
                self.batching == old(self).batching,
                self.turn == old(self).turn,
                self.min_interval == old(self).min_interval,
                self.waited == old(self).waited,
                self.states.len() == old(self).states.len() == self.cells.len(),
                self.changed.len() == old(self).changed.len() == self.cells.len(),
                k <= next.len(),
                lo + next.len() <= self.cells.len(),
                forall|id: int|
                    0 <= id < self.states.len() ==> #[trigger] self.states@[id] == if lo <= id < lo
                        + k {
                        next[id - lo]
                    } else {
                        old(self).states@[id]
                    },
                forall|id: int|
                    0 <= id < self.changed.len() && old(self).changed@[id]
                        ==> #[trigger] self.changed@[id],
                forall|i: int, j: int| 0 <= i < j < changed.len() ==> changed[i] < changed[j],
                forall|i: int| 0 <= i < changed.len() ==> lo <= #[trigger] changed[i] < lo + k,
                vstd::laws_eq::obeys_concrete_eq::<S>() ==> {
                    &&& forall|id: usize|
                        changed@.contains(id) <==> lo <= id < lo + k && old(
                            self,
                        ).states@[id as int] != self.states@[id as int]
                    &&& forall|id: int|
                        0 <= id < self.changed.len() ==> #[trigger] self.changed@[id] == (old(
                            self,
                        ).changed@[id] || self.states@[id] != old(self).states@[id])
                },
            decreases next.len() - k,
        {
            let id = lo + k;
            let state = next[k];
            let ghost listed = changed@;
            let ghost written = self.states@;
            proof {
                reveal(vstd::laws_eq::obeys_concrete_eq);
            }
            let differs = state != self.states[id];
            if differs {
                self.changed.set(id, true);
                changed.push(id);
                proof {
                    assert forall|x: usize| #[trigger]
                        changed@.contains(x) <==> listed.contains(x) || x == id by {
                        if listed.contains(x) {
                            let at = choose|at: int| 0 <= at < listed.len() && listed[at] == x;
                            assert(changed@[at] == x);
                        }
                        if x == id {
                            assert(changed@[listed.len() as int] == x);
                        }
                    }
                }
            }
            self.states.set(id, state);
            k = k + 1;
            proof {
                if vstd::laws_eq::obeys_concrete_eq::<S>() {
                    assert forall|x: usize|
                        changed@.contains(x) <==> lo <= x < lo + k && old(self).states@[x as int]
                            != self.states@[x as int] by {
                        if x != id {
                            if x < written.len() {
                                assert(self.states@[x as int] == written[x as int]);
                            }
                            assert(changed@.contains(x) <==> listed.contains(x));
                        } else {
                            assert(!listed.contains(x));
                            assert(changed@.contains(x) <==> differs);
                        }
                    }
                }
            }
        }
        changed
    }

    /// The number of cells.
    pub fn len(&self) -> (len: usize)
        requires
            self.wf(),
        ensures
            len == self.cells().len(),
            len == self.states().len(),
            len == self.flags().len(),
    {
        self.cells.len()
    }

    /// The state of the cell `id` in the current snapshot.
    pub fn state(&self, id: usize) -> (state: Option<S>)
        ensures
            state == if id < self.states().len() {
                Some(self.states()[id as int])
            } else {
                None
            },
    {
        if id < self.states.len() {
            Some(self.states[id])
        } else {
            None
        }
    }

    /// The cell `id`.
    pub fn cell(&self, id: usize) -> (cell: Option<&C>)
        ensures
            cell == if id < self.cells().len() {
                Some(&self.cells()[id as int])
            } else {
                None
            },
    {
        if id < self.cells.len() {
            Some(&self.cells[id])
        } else {
            None
        }
    }

    /// The id of the cell at `coords`, if one lives there.
    pub fn resolve(&self, coords: &C::Coordinates) -> (id: Option<usize>)
        requires
            self.wf(),
        ensures
            id == if self.index().contains_key(*coords) {
                Some(self.index()[*coords])
            } else {
                None
            },
            id matches Some(id) ==> id < self.cells().len() && self.cells()[id as int].position()
                == *coords,
            id is None ==> forall|other: int|
                0 <= other < self.cells().len() ==> (#[trigger] self.cells()[other]).position()
                    != *coords,
    {
        self.map.get_cell(coords)
    }

    /// Whether the state of the cell `id` has changed since its flag was
    /// last taken.
    pub fn is_changed(&self, id: usize) -> (changed: bool)
        ensures
            changed == (id < self.flags().len() && self.flags()[id as int]),
    {
        id < self.changed.len() && self.changed[id]
    }

    /// Reads the change flag of the cell `id` and lowers it.
    pub fn take_changed(&mut self, id: usize) -> (changed: bool)
        requires
            old(self).wf(),
        ensures
            final(self).wf(),
            changed == (id < old(self).flags().len() && old(self).flags()[id as int]),
            final(self).flags() == if id < old(self).flags().len() {
                old(self).flags().update(id as int, false)
            } else {
                old(self).flags()
            },
            final(self).cells() == old(self).cells(),
            final(self).states() == old(self).states(),
            final(self).index() == old(self).index(),
            final(self).policy() == old(self).policy(),
            final(self).turn() == old(self).turn(),
            final(self).min_interval() == old(self).min_interval(),
            final(self).waited() == old(self).waited(),
    {
        if id < self.changed.len() {
            let changed = self.changed[id];
            self.changed.set(id, false);
            changed
        } else {
            false
        }
    }
}

} // verus!
