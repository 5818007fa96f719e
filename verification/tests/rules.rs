use bevy_life::{
    CellState, CyclicColorCellState, Draws, ImmigrationCellState, RuleConfigurationError,
    SirCohort, SirRates, SirState, WireWorldCellState,
};

use ImmigrationCellState::{Alive, Dead};
use SirState::{Infectious, Recovered, Susceptible};
use WireWorldCellState::{Conductor, ElectronHead, ElectronTail};

#[test]
fn wire_world_electron_head_becomes_tail_then_conductor() {
    let crowded = [ElectronHead, ElectronHead, ElectronTail, Conductor];
    for around in [&[][..], &crowded[..], &[ElectronHead][..]] {
        let tail = ElectronHead.new_cell_state(around);
        assert_eq!(tail, ElectronTail);
        for later in [&[][..], &crowded[..], &[ElectronHead, ElectronHead][..]] {
            assert_eq!(tail.new_cell_state(later), Conductor);
        }
    }
}

#[test]
fn wire_world_conductor_counts_electron_heads() {
    assert_eq!(Conductor.new_cell_state(&[]), Conductor);
    assert_eq!(Conductor.new_cell_state(&[Conductor, ElectronTail]), Conductor);
    assert_eq!(Conductor.new_cell_state(&[ElectronHead]), ElectronHead);
    assert_eq!(
        Conductor.new_cell_state(&[ElectronTail, ElectronHead, Conductor, ElectronHead]),
        ElectronHead
    );
    assert_eq!(
        Conductor.new_cell_state(&[ElectronHead, ElectronHead, ElectronHead]),
        Conductor
    );
    assert_eq!(Conductor.new_cell_state(&[ElectronHead; 8]), Conductor);
}

#[test]
fn wire_world_default_is_conductor() {
    assert_eq!(WireWorldCellState::default(), Conductor);
}

#[test]
fn wire_world_states_compare_by_value() {
    assert!(ElectronHead == ElectronHead);
    assert!(ElectronHead != ElectronTail);
    assert!(Conductor != ElectronHead);
}

#[test]
fn immigration_birth_inherits_the_majority() {
    assert_eq!(
        Dead.new_cell_state(&[Alive(true), Alive(false), Alive(true), Dead]),
        Alive(true)
    );
    assert_eq!(
        Dead.new_cell_state(&[Alive(false), Dead, Alive(true), Dead, Alive(true)]),
        Alive(true)
    );
    assert_eq!(
        Dead.new_cell_state(&[Alive(false), Alive(true), Alive(false)]),
        Alive(false)
    );
    assert_eq!(Dead.new_cell_state(&[Alive(true); 3]), Alive(true));
    assert_eq!(Dead.new_cell_state(&[Alive(false); 3]), Alive(false));
}

#[test]
fn immigration_dead_cell_needs_exactly_three() {
    assert_eq!(Dead.new_cell_state(&[]), Dead);
    assert_eq!(Dead.new_cell_state(&[Alive(true), Alive(true)]), Dead);
    assert_eq!(Dead.new_cell_state(&[Alive(true); 4]), Dead);
    assert_eq!(Dead.new_cell_state(&[Dead; 8]), Dead);
}

#[test]
fn immigration_live_cell_survives_with_two_or_three() {
    assert_eq!(Alive(true).new_cell_state(&[Alive(false), Alive(false)]), Alive(true));
    assert_eq!(
        Alive(false).new_cell_state(&[Alive(true), Dead, Alive(true), Alive(true)]),
        Alive(false)
    );
    assert_eq!(Alive(true).new_cell_state(&[Alive(true)]), Dead);
    assert_eq!(Alive(true).new_cell_state(&[]), Dead);
    assert_eq!(Alive(false).new_cell_state(&[Alive(false); 4]), Dead);
    assert_eq!(Alive(false).new_cell_state(&[Alive(true); 8]), Dead);
}

#[test]
fn immigration_is_alive_and_default() {
    assert!(Alive(true).is_alive());
    assert!(Alive(false).is_alive());
    assert!(!Dead.is_alive());
    assert_eq!(ImmigrationCellState::default(), Dead);
    assert!(!ImmigrationCellState::default().is_alive());
}

#[test]
fn immigration_material_indices() {
    assert_eq!(Dead.material_index(), 0);
    assert_eq!(Alive(true).material_index(), 1);
    assert_eq!(Alive(false).material_index(), 2);
}

type Nine = CyclicColorCellState<9, 1>;

type Picky = CyclicColorCellState<4, 3>;

#[test]
fn cyclic_color_advances_when_a_neighbor_holds_the_successor() {
    assert_eq!(Nine::max_index(), 9);
    let cell = Nine::new(3).unwrap();
    assert_eq!(cell.new_cell_state(&[CyclicColorCellState(4)]), CyclicColorCellState(4));
    assert_eq!(
        cell.new_cell_state(&[CyclicColorCellState(2), CyclicColorCellState(5)]),
        CyclicColorCellState(3)
    );
    assert_eq!(cell.new_cell_state(&[]), CyclicColorCellState(3));
}

#[test]
fn cyclic_color_wraps_after_the_last_color() {
    let last = Nine::new(8).unwrap();
    assert_eq!(last.new_cell_state(&[CyclicColorCellState(0)]), CyclicColorCellState(0));
    assert_eq!(last.new_cell_state(&[CyclicColorCellState(8)]), CyclicColorCellState(8));
}

#[test]
fn cyclic_color_waits_for_the_threshold() {
    let cell = Picky::new(1).unwrap();
    let two = [CyclicColorCellState(2), CyclicColorCellState(2), CyclicColorCellState(3)];
    assert_eq!(cell.new_cell_state(&two), CyclicColorCellState(1));
    let three = [
        CyclicColorCellState(2),
        CyclicColorCellState(0),
        CyclicColorCellState(2),
        CyclicColorCellState(2),
    ];
    assert_eq!(cell.new_cell_state(&three), CyclicColorCellState(2));
}

#[test]
fn cyclic_color_refuses_bad_constants() {
    assert_eq!(
        CyclicColorCellState::<0, 1>::new(0),
        Err(RuleConfigurationError::EmptyPalette)
    );
    assert_eq!(
        CyclicColorCellState::<5, 0>::new(0),
        Err(RuleConfigurationError::ZeroThreshold)
    );
    assert_eq!(
        Nine::new(9),
        Err(RuleConfigurationError::IndexOutOfPalette { index: 9, palette: 9 })
    );
    assert_eq!(Nine::new(8), Ok(CyclicColorCellState(8)));
}

fn cohort(susceptible: u64, infectious: u64, recovered: u64) -> SirCohort {
    SirCohort { susceptible, infectious, recovered }
}

#[test]
fn cohort_keeps_its_size() {
    let before = cohort(500, 10, 490);
    let after = before
        .apply(Draws { recoveries: 4, waned: 1, infections: 7 })
        .unwrap();
    assert_eq!(after, cohort(494, 13, 493));
    assert_eq!(after.total(), before.total());
    assert_eq!(after.total(), 1000);
    let drained = before
        .apply(Draws { recoveries: 10, waned: 490, infections: 500 })
        .unwrap();
    assert_eq!(drained, cohort(490, 500, 10));
    assert_eq!(drained.total(), 1000);
    let idle = before.apply(Draws { recoveries: 0, waned: 0, infections: 0 }).unwrap();
    assert_eq!(idle, before);
}

#[test]
fn cohort_refuses_draws_beyond_a_compartment() {
    let before = cohort(5, 2, 1);
    assert_eq!(before.apply(Draws { recoveries: 3, waned: 0, infections: 0 }), None);
    assert_eq!(before.apply(Draws { recoveries: 0, waned: 2, infections: 0 }), None);
    assert_eq!(before.apply(Draws { recoveries: 0, waned: 0, infections: 6 }), None);
    assert_eq!(
        before.apply(Draws { recoveries: 2, waned: 1, infections: 5 }),
        Some(cohort(1, 5, 2))
    );
}

#[test]
fn cohort_refuses_a_compartment_beyond_u64() {
    let before = cohort(u64::MAX, 0, u64::MAX);
    assert_eq!(before.total(), 2 * (u64::MAX as u128));
    assert_eq!(before.apply(Draws { recoveries: 0, waned: 1, infections: 0 }), None);
    assert_eq!(
        before.apply(Draws { recoveries: 0, waned: 1, infections: 1 }),
        Some(cohort(u64::MAX, 1, u64::MAX - 1))
    );
}

#[test]
fn cohort_infection_odds() {
    let cell = cohort(500, 10, 490);
    assert_eq!(cell.infection_odds(80), Some((1440, 160_000)));
    assert_eq!(cell.infection_odds(0), Some((720, 160_000)));
    // 9 * (80 + around) <= 160_000 holds up to around = 17_697
    assert_eq!(cell.infection_odds(17_697), Some((159_993, 160_000)));
    assert_eq!(cell.infection_odds(17_698), None);
    assert_eq!(cell.infection_odds(u128::MAX), None);
    assert_eq!(cohort(0, 0, 0).infection_odds(0), Some((0, 1)));
    assert_eq!(cohort(0, 0, 0).infection_odds(1_000), Some((0, 1)));
    assert_eq!(cohort(0, 9, 0).infection_odds(0), Some((648, 1440)));
}

#[test]
fn cohort_sums_the_infectious_around() {
    assert_eq!(SirCohort::neighbor_infectious(&[]), 0);
    let around = [cohort(1, 2, 3), cohort(0, 40, 0), cohort(7, 0, 7)];
    assert_eq!(SirCohort::neighbor_infectious(&around), 42);
    let heavy = [cohort(0, u64::MAX, 0); 3];
    assert_eq!(SirCohort::neighbor_infectious(&heavy), 3 * (u64::MAX as u128));
}

#[test]
fn sir_rates_refuse_a_chance_above_certainty() {
    assert_eq!(
        SirRates::new(1_000_001, 0, 0),
        Err(RuleConfigurationError::InvalidProbability { millionths: 1_000_001 })
    );
    assert_eq!(
        SirRates::new(0, 2_000_000, 3_000_000),
        Err(RuleConfigurationError::InvalidProbability { millionths: 2_000_000 })
    );
    assert_eq!(
        SirRates::new(5, 1_000_000, u32::MAX),
        Err(RuleConfigurationError::InvalidProbability { millionths: u32::MAX })
    );
    assert!(SirRates::new(1_000_000, 1_000_000, 1_000_000).is_ok());
    assert!(SirRates::new(0, 0, 0).is_ok());
}

#[test]
fn sir_state_follows_the_draw() {
    let rates = SirRates::new(10, 500_000, 400_000).unwrap();
    let two = [Infectious, Susceptible, Infectious, Recovered];
    // immunity wanes below the chance of waning, whoever is around
    assert_eq!(Recovered.step(&two, &rates, 9), Susceptible);
    assert_eq!(Recovered.step(&two, &rates, 10), Recovered);
    assert_eq!(Recovered.step(&[], &rates, 0), Susceptible);
    // recovery
    assert_eq!(Infectious.step(&two, &rates, 499_999), Recovered);
    assert_eq!(Infectious.step(&two, &rates, 500_000), Infectious);
    // infection grows with the infectious neighbours
    assert_eq!(Susceptible.step(&[], &rates, 0), Susceptible);
    assert_eq!(Susceptible.step(&[Recovered, Susceptible], &rates, 0), Susceptible);
    assert_eq!(Susceptible.step(&[Infectious], &rates, 399_999), Infectious);
    assert_eq!(Susceptible.step(&[Infectious], &rates, 400_000), Susceptible);
    assert_eq!(Susceptible.step(&two, &rates, 799_999), Infectious);
    assert_eq!(Susceptible.step(&two, &rates, 800_000), Susceptible);
    assert_eq!(Susceptible.step(&[Infectious; 3], &rates, 999_999), Infectious);
    assert_eq!(Susceptible.step(&[Infectious; 3], &rates, u32::MAX), Susceptible);
}

#[test]
fn sir_state_without_chances_never_changes() {
    let never = SirRates::new(0, 0, 0).unwrap();
    for state in [Susceptible, Infectious, Recovered] {
        assert_eq!(state.step(&[Infectious; 8], &never, 0), state);
    }
    let always = SirRates::new(1_000_000, 1_000_000, 1_000_000).unwrap();
    assert_eq!(Susceptible.step(&[Infectious], &always, 999_999), Infectious);
    assert_eq!(Infectious.step(&[], &always, 999_999), Recovered);
    assert_eq!(Recovered.step(&[], &always, 999_999), Susceptible);
}
