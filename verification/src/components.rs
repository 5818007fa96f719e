//! Cells and the states they hold.

pub mod cell;
pub mod cell_state;

pub use cell::{Cell, ComplexCell2d, HexagonCell2d, MooreCell2d};
pub use cell_state::{
    CellState, CyclicColorCellState, Draws, ImmigrationCellState, SirCohort, SirRates, SirState,
    WireWorldCellState,
};
