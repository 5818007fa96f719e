//! The hexagonal grid in cubic coordinates.

use crate::components::cell::Cell;
use crate::math::Coord3;
use vstd::prelude::*;

verus! {

/// Hexagonal 2D cell. It has 6 neighbors and uses `Coord3` coordinates (Cubic
/// coordinates).
///
/// ```ascii
///               X
///             _____
///            /     \
///           /       \
///     ,----(  0,1,-1 )----.
///    /      \       /      \
///   /        \_____/        \
///   \ -1,1,0 /     \ 1,0,-1  /
///    \      /       \      /
///     )----(  0,0,0  )----(
///    /      \       /      \
///   /        \_____/        \
///   \ -1,0,1 /     \ 1,-1,0  /
/// Y  \      /       \      /  Z
///     `----(  0,-1,1 )----'
///           \       /
///            \_____/
/// ```
///
/// Callers keep `x + y + z == 0`; it is not checked again here.
#[derive(Debug, Clone, Copy)]
pub struct HexagonCell2d {
    /// The 2D cell coordinates
    pub coords: Coord3,
}

impl HexagonCell2d {
    /// Instantiates a new cell with `coords` values
    #[must_use]
    pub fn new(coords: Coord3) -> (cell: Self)
        ensures
            cell.coords == coords,
    {
        Self { coords }
    }

    /// The six coordinates around `c`, one for each rotation of a pair of
    /// axes.
    pub open spec fn ring(c: Coord3) -> Seq<Coord3> {
        seq![
            c.step(0, 1, -1),
            c.step(1, 0, -1),
            c.step(1, -1, 0),
            c.step(0, -1, 1),
            c.step(-1, 0, 1),
            c.step(-1, 1, 0),
        ]
    }

    /// A step to a neighbour stays in the plane of the grid, as long as no
    /// component leaves `i32`.
    pub proof fn lemma_ring_keeps_plane(c: Coord3, i: int)
        requires
            c.x + c.y + c.z == 0,
            i32::MIN < c.x < i32::MAX,
            i32::MIN < c.y < i32::MAX,
            i32::MIN < c.z < i32::MAX,
            0 <= i < 6,
        ensures
            Self::ring(c)[i].x + Self::ring(c)[i].y + Self::ring(c)[i].z == 0,
    {
    }
}

impl Cell for HexagonCell2d {
    type Coordinates = Coord3;

    open spec fn position(&self) -> Coord3 {
        self.coords
    }

    open spec fn neighbors_of(coords: Coord3) -> Seq<Coord3> {
        Self::ring(coords)
    }

    fn coords(&self) -> (coords: &Coord3) {
        &self.coords
    }

    fn neighbor_coordinates(&self) -> (neighbors: Vec<Coord3>) {
        let c = self.coords;
        let mut ring: Vec<Coord3> = Vec::with_capacity(6);
        ring.push(c.translate(Coord3::new(0, 1, -1)));
        ring.push(c.translate(Coord3::new(1, 0, -1)));
        ring.push(c.translate(Coord3::new(1, -1, 0)));
        ring.push(c.translate(Coord3::new(0, -1, 1)));
        ring.push(c.translate(Coord3::new(-1, 0, 1)));
        ring.push(c.translate(Coord3::new(-1, 1, 0)));
        assert(ring@ =~= Self::ring(c));
        ring
    }
}

} // verus!
