//! The square grid in which a cell touches the eight around it.

use crate::components::cell::Cell;
use crate::math::Coord2;
use vstd::prelude::*;

verus! {

/// [Moore] 2D cell. It has 8 neighbors and uses `Coord2` coordinates.
///
/// ```ascii
/// +-------+-------+-------+
/// |       |       |       |
/// | -1,1  |  0,1  |  1,1  |
/// |       |       |       |
/// +-------+-------+-------+
/// |       |       |       |
/// | -1,0  |  0,0  |  1,0  |
/// |       |       |       |
/// +-------+-------+-------+
/// |       |       |       |
/// | -1,-1 |  0,-1 |  1,-1 |
/// |       |       |       |
/// +-------+-------+-------+
/// ```
///
/// [Moore]: https://en.wikipedia.org/wiki/Moore_neighborhood
#[derive(Debug, Clone, Copy)]
pub struct MooreCell2d {
    /// The 2D cell coordinates
    pub coords: Coord2,
}

impl MooreCell2d {
    /// Instantiates a new cell with `coords` values
    #[must_use]
    pub fn new(coords: Coord2) -> (cell: Self)
        ensures
            cell.coords == coords,
    {
        Self { coords }
    }

    /// The eight coordinates around `c`: left, top left, top, top right,
    /// right, bottom right, bottom, bottom left.
    pub open spec fn ring(c: Coord2) -> Seq<Coord2> {
        seq![
            c.step(-1, 0),
            c.step(-1, 1),
            c.step(0, 1),
            c.step(1, 1),
            c.step(1, 0),
            c.step(1, -1),
            c.step(0, -1),
            c.step(-1, -1),
        ]
    }

    /// Lists the eight coordinates around `c`.
    pub(crate) fn ring_around(c: Coord2) -> (ring: Vec<Coord2>)
        ensures
            ring@ == Self::ring(c),
    {
        let mut ring: Vec<Coord2> = Vec::with_capacity(12);
        ring.push(c.translate(Coord2::new(-1, 0)));
        ring.push(c.translate(Coord2::new(-1, 1)));
        ring.push(c.translate(Coord2::new(0, 1)));
        ring.push(c.translate(Coord2::new(1, 1)));
        ring.push(c.translate(Coord2::new(1, 0)));
        ring.push(c.translate(Coord2::new(1, -1)));
        ring.push(c.translate(Coord2::new(0, -1)));
        ring.push(c.translate(Coord2::new(-1, -1)));
        assert(ring@ =~= Self::ring(c));
        ring
    }
}

impl Cell for MooreCell2d {
    type Coordinates = Coord2;

    open spec fn position(&self) -> Coord2 {
        self.coords
    }

    open spec fn neighbors_of(coords: Coord2) -> Seq<Coord2> {
        Self::ring(coords)
    }

    fn coords(&self) -> (coords: &Coord2) {
        &self.coords
    }

    fn neighbor_coordinates(&self) -> (neighbors: Vec<Coord2>) {
        Self::ring_around(self.coords)
    }
}

} // verus!
