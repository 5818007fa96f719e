//! Rounds of ticks, and what batching does to a generation.
//!
//! A tick is described by the relation `follows` between the snapshot before
//! it and the snapshot after it. The lemmas here hold of every pair, and of
//! every run, of snapshots that this relation admits; by
//! `lemma_ticks_make_a_round` the ticks of a `Simulation` give such a run.

use crate::batch::BatchPolicy;
use crate::components::cell::Cell;
use crate::components::cell_state;
use crate::components::cell_state::CellState;
use crate::resources::cell_map;
use crate::simulation;
use vstd::prelude::*;

verus! {

/// Snapshot isolation: what a tick commits depends on the snapshot before
/// it alone. Under a rule without chance, two ticks that start from one
/// snapshot and give the same cells their turn end in the same snapshot, in
/// whatever order each of them visits the cells.
pub proof fn lemma_generation_is_unique<C: Cell, S: CellState>(
    cells: Seq<C>,
    index: Map<C::Coordinates, usize>,
    before: Seq<S>,
    first: Seq<S>,
    second: Seq<S>,
    lo: int,
    hi: int,
)
    requires
        cell_state::deterministic::<S>(),
        simulation::follows(cells, index, before, first, lo, hi),
        simulation::follows(cells, index, before, second, lo, hi),
    ensures
        first == second,
{
    assert forall|id: int| 0 <= id < first.len() implies first[id] == second[id] by {
        if lo <= id < hi {
            let around = simulation::neighbor_states(cells, index, before, id);
            assert(cell_state::allows(before[id], around, first[id]));
            assert(cell_state::allows(before[id], around, second[id]));
        }
    }
    assert(first =~= second);
}

/// Whether tick number `turn` of a round takes `trace[turn]` to
/// `trace[turn + 1]`.
pub open spec fn round_step<C: Cell, S: CellState>(
    cells: Seq<C>,
    index: Map<C::Coordinates, usize>,
    policy: BatchPolicy,
    trace: Seq<Seq<S>>,
    turn: int,
) -> bool {
    simulation::follows(
        cells,
        index,
        trace[turn],
        trace[turn + 1],
        policy.bound(cells.len(), turn as nat) as int,
        policy.bound(cells.len(), (turn + 1) as nat) as int,
    )
}

/// Whether `trace` holds the snapshots of one round of ticks: the one the
/// round starts from, and the one after each of its ticks.
pub open spec fn is_round<C: Cell, S: CellState>(
    cells: Seq<C>,
    index: Map<C::Coordinates, usize>,
    policy: BatchPolicy,
    trace: Seq<Seq<S>>,
) -> bool {
    &&& trace.len() == policy.round_len(cells.len()) + 1
    &&& trace[0].len() == cells.len()
    &&& forall|turn: int|
        0 <= turn < policy.round_len(cells.len()) ==> #[trigger] round_step(
            cells,
            index,
            policy,
            trace,
            turn,
        )
}

/// Whether simulation number `tick + 1` of `run` is what a committing tick
/// makes of simulation number `tick`.
pub open spec fn run_step<C: Cell, S: CellState>(
    run: Seq<simulation::Simulation<C, S>>,
    tick: int,
) -> bool {
    run[tick + 1].succeeds(&run[tick])
}

/// The snapshots of `run`, in its order.
pub open spec fn snapshots<C: Cell, S: CellState>(
    run: Seq<simulation::Simulation<C, S>>,
) -> Seq<Seq<S>> {
    run.map_values(|sim: simulation::Simulation<C, S>| sim.states())
}

/// From the start of a round, as many committing ticks as the round is
/// long make a round: what is proved of rounds holds of them.
pub proof fn lemma_ticks_make_a_round<C: Cell, S: CellState>(
    run: Seq<simulation::Simulation<C, S>>,
)
    requires
        run.len() >= 1,
        run[0].wf(),
        run[0].turn() == 0,
        run.len() == run[0].policy().round_len(run[0].cells().len()) + 1,
        forall|tick: int| 0 <= tick < run.len() - 1 ==> #[trigger] run_step(run, tick),
    ensures
        is_round(run[0].cells(), run[0].index(), run[0].policy(), snapshots(run)),
        run[run.len() - 1].turn() == 0,
{
    let cells = run[0].cells();
    let index = run[0].index();
    let policy = run[0].policy();
    let rounds = policy.round_len(cells.len());
    run[0].lemma_well_formed();
    lemma_run_prefix(run, rounds);
    assert forall|turn: int| 0 <= turn < rounds implies #[trigger] round_step(
        cells,
        index,
        policy,
        snapshots(run),
        turn,
    ) by {
        lemma_run_prefix(run, turn as nat);
        vstd::arithmetic::div_mod::lemma_small_mod(turn as nat, rounds);
        assert(run_step(run, turn));
        assert(snapshots(run)[turn] == run[turn].states());
        assert(snapshots(run)[turn + 1] == run[turn + 1].states());
    }
}

/// Through a round the grid and the policy stay, and the turn counts the
/// ticks.
proof fn lemma_run_prefix<C: Cell, S: CellState>(
    run: Seq<simulation::Simulation<C, S>>,
    upto: nat,
)
    requires
        run.len() >= 1,
        run[0].turn() == 0,
        run[0].policy().round_len(run[0].cells().len()) >= 1,
        run.len() == run[0].policy().round_len(run[0].cells().len()) + 1,
        forall|tick: int| 0 <= tick < run.len() - 1 ==> #[trigger] run_step(run, tick),
        upto <= run[0].policy().round_len(run[0].cells().len()),
    ensures
        run[upto as int].cells() == run[0].cells(),
        run[upto as int].index() == run[0].index(),
        run[upto as int].policy() == run[0].policy(),
        run[upto as int].turn() == upto % run[0].policy().round_len(run[0].cells().len()),
    decreases upto,
{
    let rounds = run[0].policy().round_len(run[0].cells().len());
    if upto == 0 {
        vstd::arithmetic::div_mod::lemma_small_mod(0, rounds);
    } else {
        let last = (upto - 1) as nat;
        lemma_run_prefix(run, last);
        assert(run_step(run, last as int));
        vstd::arithmetic::div_mod::lemma_small_mod(last, rounds);
        if upto < rounds {
            vstd::arithmetic::div_mod::lemma_small_mod(upto, rounds);
        } else {
            vstd::arithmetic::div_mod::lemma_mod_self_0(rounds as int);
        }
    }
}

/// Up to the tick `upto` of a round, a cell whose turn has not come holds
/// the state it started with, and a cell whose turn has passed holds the
/// state that its turn gave it.
proof fn lemma_round_prefix<C: Cell, S: CellState>(
    cells: Seq<C>,
    index: Map<C::Coordinates, usize>,
    policy: BatchPolicy,
    trace: Seq<Seq<S>>,
    id: int,
    turn: nat,
    upto: nat,
)
    requires
        policy.valid(),
        is_round(cells, index, policy, trace),
        0 <= id < cells.len(),
        turn < policy.round_len(cells.len()),
        policy.in_batch(cells.len(), turn, id as nat),
        upto <= policy.round_len(cells.len()),
    ensures
        trace[upto as int].len() == cells.len(),
        upto <= turn ==> trace[upto as int][id] == trace[0][id],
        upto > turn ==> trace[upto as int][id] == trace[turn as int + 1][id],
    decreases upto,
{
    if upto > 0 {
        let last = (upto - 1) as nat;
        lemma_round_prefix(cells, index, policy, trace, id, turn, last);
        assert(round_step(cells, index, policy, trace, last as int));
        if last != turn {
            if last < turn {
                policy.lemma_bounds_monotone(cells.len(), last + 1, turn);
            } else {
                policy.lemma_bounds_monotone(cells.len(), turn + 1, last);
            }
            assert(trace[last as int + 1][id] == trace[last as int][id]);
        }
    }
}

/// Batching completeness, first half: in a round every cell is computed
/// once. Before its turn a cell holds the state it started the round with,
/// its turn gives it a state that the rule allows on the snapshot of that
/// tick, and it holds that state to the end of the round.
pub proof fn lemma_round_computes_each_cell_once<C: Cell, S: CellState>(
    cells: Seq<C>,
    index: Map<C::Coordinates, usize>,
    policy: BatchPolicy,
    trace: Seq<Seq<S>>,
    id: int,
) -> (turn: nat)
    requires
        policy.valid(),
        is_round(cells, index, policy, trace),
        0 <= id < cells.len(),
    ensures
        turn < policy.round_len(cells.len()),
        policy.in_batch(cells.len(), turn, id as nat),
        forall|other: nat| #[trigger]
            policy.in_batch(cells.len(), other, id as nat) ==> other == turn,
        forall|tick: int| 0 <= tick <= turn ==> (#[trigger] trace[tick])[id] == trace[0][id],
        cell_state::allows(
            trace[turn as int][id],
            simulation::neighbor_states(cells, index, trace[turn as int], id),
            trace[turn as int + 1][id],
        ),
        forall|tick: int|
            turn < tick <= policy.round_len(cells.len()) ==> (#[trigger] trace[tick])[id]
                == trace[turn as int + 1][id],
{
    policy.lemma_one_turn_per_round(cells.len(), id as nat);
    let turn = choose|turn: nat|
        turn < policy.round_len(cells.len()) && #[trigger] policy.in_batch(
            cells.len(),
            turn,
            id as nat,
        );
    assert forall|tick: int| 0 <= tick <= policy.round_len(cells.len()) implies (tick <= turn
        ==> (#[trigger] trace[tick])[id] == trace[0][id]) && (tick > turn ==> trace[tick][id]
        == trace[turn as int + 1][id]) by {
        lemma_round_prefix(cells, index, policy, trace, id, turn, tick as nat);
    }
    assert(round_step(cells, index, policy, trace, turn as int));
    turn
}

/// Batching completeness, second half: under a rule without chance, a round
/// of batched ticks ends in the snapshot that one tick over the whole
/// population would have reached, if and only if every cell was given, at
/// its turn, a state that the rule also allows on the snapshot the round
/// started from. Where a neighbour that had its turn earlier has changed in
/// between, the rule may not allow it.
pub proof fn lemma_round_matches_whole_generation<C: Cell, S: CellState>(
    cells: Seq<C>,
    index: Map<C::Coordinates, usize>,
    policy: BatchPolicy,
    trace: Seq<Seq<S>>,
    whole: Seq<S>,
)
    requires
        cell_state::deterministic::<S>(),
        policy.valid(),
        is_round(cells, index, policy, trace),
        simulation::follows(cells, index, trace[0], whole, 0, cells.len() as int),
    ensures
        trace[policy.round_len(cells.len()) as int] == whole <==> forall|id: int, turn: nat|
            0 <= id < cells.len() && #[trigger] policy.in_batch(cells.len(), turn, id as nat)
                ==> cell_state::allows(
                trace[0][id],
                simulation::neighbor_states(cells, index, trace[0], id),
                trace[turn as int + 1][id],
            ),
{
    let rounds = policy.round_len(cells.len());
    let end = trace[rounds as int];
    let agrees = forall|id: int, turn: nat|
        0 <= id < cells.len() && #[trigger] policy.in_batch(cells.len(), turn, id as nat)
            ==> cell_state::allows(
            trace[0][id],
            simulation::neighbor_states(cells, index, trace[0], id),
            trace[turn as int + 1][id],
        );
    if agrees {
        assert forall|id: int| 0 <= id < cells.len() implies end[id] == whole[id] by {
            let turn = lemma_round_computes_each_cell_once(cells, index, policy, trace, id);
            let around = simulation::neighbor_states(cells, index, trace[0], id);
            assert(end[id] == trace[turn as int + 1][id]);
            assert(cell_state::allows(
                trace[0][id],
                around,
                trace[turn as int + 1][id],
            ));
            assert(cell_state::allows(trace[0][id], around, whole[id]));
        }
        lemma_round_lengths(cells, index, policy, trace, rounds);
        assert(end =~= whole);
    }
    if end == whole {
        assert forall|id: int, turn: nat|
            0 <= id < cells.len() && #[trigger] policy.in_batch(
                cells.len(),
                turn,
                id as nat,
            ) implies cell_state::allows(
            trace[0][id],
            simulation::neighbor_states(cells, index, trace[0], id),
            trace[turn as int + 1][id],
        ) by {
            let own = lemma_round_computes_each_cell_once(cells, index, policy, trace, id);
            assert(own == turn);
            assert(trace[rounds as int][id] == trace[turn as int + 1][id]);
        }
    }
}

/// Whether no cell has a neighbour that gets its turn earlier in the round
/// and that a tick over the whole population, ending in `whole`, would
/// change from its state in `start`.
pub open spec fn earlier_neighbors_rest<C: Cell, S>(
    cells: Seq<C>,
    index: Map<C::Coordinates, usize>,
    policy: BatchPolicy,
    start: Seq<S>,
    whole: Seq<S>,
) -> bool {
    forall|id: int, k: int, turn: nat, earlier: nat|
        #![trigger
            policy.in_batch(cells.len(), turn, id as nat),
            policy.in_batch(
                cells.len(),
                earlier,
                cell_map::found(index, C::neighbors_of(cells[id].position()))[k] as nat,
            )
        ]
        {
            let around = cell_map::found(
                index,
                C::neighbors_of(cells[id].position()),
            );
            0 <= id < cells.len() && 0 <= k < around.len() && earlier < turn && policy.in_batch(
                cells.len(),
                turn,
                id as nat,
            ) && policy.in_batch(cells.len(), earlier, around[k] as nat) ==> whole[around[k] as int]
                == start[around[k] as int]
        }
}

/// Under the condition of `earlier_neighbors_rest`, the turn of a cell
/// gives it the state that the tick over the whole population gives it.
proof fn lemma_turn_matches_whole<C: Cell, S: CellState>(
    cells: Seq<C>,
    index: Map<C::Coordinates, usize>,
    policy: BatchPolicy,
    trace: Seq<Seq<S>>,
    whole: Seq<S>,
    id: int,
    turn: nat,
)
    requires
        cell_state::deterministic::<S>(),
        policy.valid(),
        simulation::indexes(index, cells),
        is_round(cells, index, policy, trace),
        simulation::follows(cells, index, trace[0], whole, 0, cells.len() as int),
        earlier_neighbors_rest(cells, index, policy, trace[0], whole),
        0 <= id < cells.len(),
        turn < policy.round_len(cells.len()),
        policy.in_batch(cells.len(), turn, id as nat),
    ensures
        trace[turn as int + 1][id] == whole[id],
    decreases turn,
{
    let around = cell_map::found(index, C::neighbors_of(cells[id].position()));
    let then = trace[turn as int];
    cell_map::lemma_found_in_range(index, C::neighbors_of(cells[id].position()), cells.len() as int);
    lemma_round_prefix(cells, index, policy, trace, id, turn, turn);
    assert forall|k: int| 0 <= k < around.len() implies then[around[k] as int]
        == trace[0][around[k] as int] by {
        let other = around[k] as int;
        let own = lemma_round_computes_each_cell_once(cells, index, policy, trace, other);
        lemma_round_prefix(cells, index, policy, trace, other, own, turn);
        if own < turn {
            lemma_turn_matches_whole(cells, index, policy, trace, whole, other, own);
        }
    }
    assert(simulation::neighbor_states(cells, index, then, id) =~= simulation::neighbor_states(
        cells,
        index,
        trace[0],
        id,
    ));
    assert(round_step(cells, index, policy, trace, turn as int));
    let seen = simulation::neighbor_states(cells, index, trace[0], id);
    assert(cell_state::allows(trace[0][id], seen, trace[turn as int + 1][id]));
    assert(cell_state::allows(trace[0][id], seen, whole[id]));
}

/// Batching completeness, for grids that can be checked beforehand: under
/// a rule without chance, a round of batched ticks ends in the snapshot
/// that one tick over the whole population would have reached, as long as
/// no cell that this tick changes has a neighbour that comes later in the
/// round.
pub proof fn lemma_resting_round_matches_whole_generation<C: Cell, S: CellState>(
    cells: Seq<C>,
    index: Map<C::Coordinates, usize>,
    policy: BatchPolicy,
    trace: Seq<Seq<S>>,
    whole: Seq<S>,
)
    requires
        cell_state::deterministic::<S>(),
        policy.valid(),
        simulation::indexes(index, cells),
        is_round(cells, index, policy, trace),
        simulation::follows(cells, index, trace[0], whole, 0, cells.len() as int),
        earlier_neighbors_rest(cells, index, policy, trace[0], whole),
    ensures
        trace[policy.round_len(cells.len()) as int] == whole,
{
    let rounds = policy.round_len(cells.len());
    let end = trace[rounds as int];
    lemma_round_lengths(cells, index, policy, trace, rounds);
    assert forall|id: int| 0 <= id < cells.len() implies end[id] == whole[id] by {
        let turn = lemma_round_computes_each_cell_once(cells, index, policy, trace, id);
        lemma_turn_matches_whole(cells, index, policy, trace, whole, id, turn);
    }
    assert(end =~= whole);
}

/// Every snapshot of a round has a state for every cell.
proof fn lemma_round_lengths<C: Cell, S: CellState>(
    cells: Seq<C>,
    index: Map<C::Coordinates, usize>,
    policy: BatchPolicy,
    trace: Seq<Seq<S>>,
    upto: nat,
)
    requires
        is_round(cells, index, policy, trace),
        upto <= policy.round_len(cells.len()),
    ensures
        trace[upto as int].len() == cells.len(),
    decreases upto,
{
    if upto > 0 {
        lemma_round_lengths(cells, index, policy, trace, (upto - 1) as nat);
        assert(round_step(cells, index, policy, trace, upto - 1));
    }
}

} // verus!
