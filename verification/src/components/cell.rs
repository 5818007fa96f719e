//! The topology abstraction and the grids built on it.

use crate::math::Coordinates;
use vstd::prelude::*;

pub mod complex_2d_cell;
pub mod hexagon_2d_cell;
pub mod moore_2d_cell;

pub use complex_2d_cell::ComplexCell2d;
pub use hexagon_2d_cell::HexagonCell2d;
pub use moore_2d_cell::MooreCell2d;

verus! {

/// A cell of a grid: it knows where it lies and which coordinates border it.
///
/// The neighbours are a function of the coordinate alone. Whether a cell
/// lives at each of them is for the spatial index to say.
pub trait Cell: Sized {
    /// The kind of coordinate the grid uses.
    type Coordinates: Coordinates;

    /// Where the cell lies.
    spec fn position(&self) -> Self::Coordinates;

    /// The coordinates that border `coords`, in the order of the topology.
    spec fn neighbors_of(coords: Self::Coordinates) -> Seq<Self::Coordinates>;

    /// Retrieves the cell coordinates
    fn coords(&self) -> (coords: &Self::Coordinates)
        ensures
            *coords == self.position(),
    ;

    /// Retrieves the coordinates of the neighbor cells
    fn neighbor_coordinates(&self) -> (neighbors: Vec<Self::Coordinates>)
        ensures
            neighbors@ == Self::neighbors_of(self.position()),
    ;
}

} // verus!
