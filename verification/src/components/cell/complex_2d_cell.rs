//! The square grid with long-range links at regular hubs.

use crate::components::cell::moore_2d_cell::MooreCell2d;
use crate::components::cell::Cell;
use crate::error::PopulationError;
use crate::math;
use crate::math::{divides, Coord2};
use vstd::prelude::*;

verus! {

/// The spacing of the long-range links that a [`ComplexCell2d`] uses.
pub const R: i32 = 20;

/// Complex 2D cell. It has 8 [Moore]-cell neighbors + periodically 4
/// long-range contacts (uses `Coord2` coordinates).
///
/// ```ascii
/// +-------+-------+-------+
/// |       |       |       |
/// | -1,1  |  0,1  |  1,1  |
/// |       |       |       |
/// +-------+-------+-------+
/// |       |       |       |
/// | -1,0  |  0,0  |  1,0  |
/// |       |       |       |
/// +-------+-------+-------+
/// |       |       |       |
/// | -1,-1 |  0,-1 |  1,-1 |
/// |       |       |       |
/// +-------+-------+-------+
/// ```
/// ```ascii
///         +-------+
///         |       |
///         |  0,R  |
///         |       |
/// +-------+-------+-------+
/// |       |       |       |
/// | -R,0  |  0,0  |  R,0  |
/// |       |       |       |
/// +-------+-------+-------+
///         |       |
///         |  0,-R |
///         |       |
///         +-------+
/// ```
/// [Moore]: https://en.wikipedia.org/wiki/Moore_neighborhood
#[derive(Debug, Clone, Copy)]
pub struct ComplexCell2d {
    /// The 2D cell coordinates
    pub coords: Coord2,
}

impl ComplexCell2d {
    /// Instantiates a new cell with `coords` values
    #[must_use]
    pub fn new(coords: Coord2) -> (cell: Self)
        ensures
            cell.coords == coords,
    {
        Self { coords }
    }

    /// Whether `c` is a hub of the links of spacing `spacing`: both of its
    /// components are multiples of `spacing`.
    pub open spec fn is_hub(c: Coord2, spacing: i32) -> bool {
        math::is_multiple(c.x as int, spacing as int) && math::is_multiple(
            c.y as int,
            spacing as int,
        )
    }

    /// The four ends of the long-range links of a hub `c`: left, top, right,
    /// bottom, each `spacing` away.
    pub open spec fn long_range(c: Coord2, spacing: i32) -> Seq<Coord2> {
        seq![
            c.step(-spacing, 0),
            c.step(0, spacing as int),
            c.step(spacing as int, 0),
            c.step(0, -spacing),
        ]
    }

    /// The neighbours of `c` where the links are `spacing` apart: the eight
    /// around it, and for a hub the four ends of its links after them.
    pub open spec fn neighbors_at(c: Coord2, spacing: i32) -> Seq<Coord2> {
        if Self::is_hub(c, spacing) {
            MooreCell2d::ring(c) + Self::long_range(c, spacing)
        } else {
            MooreCell2d::ring(c)
        }
    }

    /// Lists the neighbours of `coords` on a grid whose long-range links are
    /// `spacing` apart. A spacing that is not positive is refused.
    pub fn neighbors_with_spacing(coords: Coord2, spacing: i32) -> (result: Result<
        Vec<Coord2>,
        PopulationError,
    >)
        ensures
            spacing <= 0 ==> result == Err::<Vec<Coord2>, PopulationError>(
                PopulationError::InvalidSpacing { spacing },
            ),
            spacing > 0 ==> result is Ok && result->Ok_0@ == Self::neighbors_at(coords, spacing),
    {
        if spacing <= 0 {
            return Err(PopulationError::InvalidSpacing { spacing });
        }
        let mut neighbors = MooreCell2d::ring_around(coords);
        if divides(spacing, coords.x) && divides(spacing, coords.y) {
            neighbors.push(coords.translate(Coord2::new(-spacing, 0)));
            neighbors.push(coords.translate(Coord2::new(0, spacing)));
            neighbors.push(coords.translate(Coord2::new(spacing, 0)));
            neighbors.push(coords.translate(Coord2::new(0, -spacing)));
            assert(neighbors@ =~= Self::neighbors_at(coords, spacing));
        }
        Ok(neighbors)
    }
}

impl Cell for ComplexCell2d {
    type Coordinates = Coord2;

    open spec fn position(&self) -> Coord2 {
        self.coords
    }

    open spec fn neighbors_of(coords: Coord2) -> Seq<Coord2> {
        Self::neighbors_at(coords, R)
    }

    fn coords(&self) -> (coords: &Coord2) {
        &self.coords
    }

    fn neighbor_coordinates(&self) -> (neighbors: Vec<Coord2>) {
        match Self::neighbors_with_spacing(self.coords, R) {
            Ok(neighbors) => neighbors,
            Err(_) => Vec::new(),
        }
    }
}

} // verus!
