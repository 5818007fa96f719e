//! Building blocks for cellular automata: grid topologies, transition rules,
//! a spatial index and a generation scheduler.

pub mod batch;
pub mod components;
pub mod error;
pub mod math;
pub mod resources;
pub mod rounds;
pub mod simulation;

pub use batch::BatchPolicy;
pub use components::{
    Cell, CellState, ComplexCell2d, CyclicColorCellState, Draws, HexagonCell2d,
    ImmigrationCellState, MooreCell2d, SirCohort, SirRates, SirState, WireWorldCellState,
};
pub use error::{PopulationError, RuleConfigurationError};
pub use math::{Coord2, Coord3, Coordinates};
pub use resources::CellMap;
pub use simulation::{Simulation, SimulationConfig, TickReport};
