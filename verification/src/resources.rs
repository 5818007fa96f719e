//! Shared lookup structures.

pub mod cell_map;

pub use cell_map::CellMap;
