//! Integer grid coordinates.

use bevy::prelude::{IVec2, IVec3};
use vstd::prelude::*;

verus! {

/// A coordinate that the spatial index can file under an integer.
pub trait Coordinates: Sized + Copy {
    /// The integer that stands for `self` in the spatial index.
    spec fn key(self) -> u128;

    /// Two coordinates with one key are one coordinate.
    proof fn lemma_key_injective(a: Self, b: Self)
        requires
            a.key() == b.key(),
        ensures
            a == b,
    ;

    /// Computes the key of `self`.
    fn index_key(&self) -> (key: u128)
        ensures
            key == self.key(),
    ;
}

/// The distance of `v` from `i32::MIN`, which lies in `0 ..= u32::MAX`.
pub open spec fn rank(v: i32) -> int {
    v - i32::MIN
}

/// Whether `v` is a multiple of the positive number `unit`.
pub open spec fn is_multiple(v: int, unit: int) -> bool {
    v % unit == 0
}

/// A number and its negative are multiples of the same units.
proof fn lemma_multiple_of_negative(v: int, unit: int)
    requires
        unit > 0,
    ensures
        is_multiple(-v, unit) == is_multiple(v, unit),
{
    vstd::arithmetic::div_mod::lemma_fundamental_div_mod(v, unit);
    vstd::arithmetic::div_mod::lemma_fundamental_div_mod(-v, unit);
    if v % unit == 0 {
        assert(-v == (-(v / unit)) * unit) by (nonlinear_arith)
            requires
                v == unit * (v / unit) + v % unit,
                v % unit == 0,
        ;
        vstd::arithmetic::div_mod::lemma_mod_multiples_basic(-(v / unit), unit);
    }
    if (-v) % unit == 0 {
        assert(v == (-((-v) / unit)) * unit) by (nonlinear_arith)
            requires
                -v == unit * ((-v) / unit) + (-v) % unit,
                (-v) % unit == 0,
        ;
        vstd::arithmetic::div_mod::lemma_mod_multiples_basic(-((-v) / unit), unit);
    }
}

/// Tells whether `v` is a multiple of `unit`.
pub(crate) fn divides(unit: i32, v: i32) -> (yes: bool)
    requires
        unit > 0,
    ensures
        yes == is_multiple(v as int, unit as int),
{
    proof {
        lemma_multiple_of_negative(v as int, unit as int);
    }
    v % unit == 0
}

/// Computes `rank`.
fn rank_of(v: i32) -> (r: u128)
    ensures
        r == rank(v),
        r <= u32::MAX,
{
    (v as i64 - i32::MIN as i64) as u128
}

/// A point of a two-dimensional integer grid.
#[derive(Debug, Clone, Copy, PartialEq, Eq, Hash, Structural)]
pub struct Coord2 {
    pub x: i32,
    pub y: i32,
}

impl Coord2 {
    /// The point `(x, y)`.
    #[must_use]
    pub fn new(x: i32, y: i32) -> (point: Self)
        ensures
            point == (Coord2 { x, y }),
    {
        Coord2 { x, y }
    }

    /// The point reached from `self` by the step `delta`, each component
    /// wrapping around at the bounds of `i32`.
    pub open spec fn shifted(self, delta: Coord2) -> Coord2 {
        Coord2 {
            x: vstd::wrapping::i32_specs::wrapping_add(self.x, delta.x),
            y: vstd::wrapping::i32_specs::wrapping_add(self.y, delta.y),
        }
    }

    /// The point `dx` to the right of `self` and `dy` above it.
    pub open spec fn step(self, dx: int, dy: int) -> Coord2 {
        self.shifted(Coord2 { x: dx as i32, y: dy as i32 })
    }

    /// Moves `self` by `delta`.
    ///
    /// Trusted: the sum is taken by `bevy::prelude::IVec2::wrapping_add`,
    /// which adds the two vectors component by component with
    /// `i32::wrapping_add` and so never fails.
    #[verifier::external_body]
    pub(crate) fn translate(self, delta: Coord2) -> (moved: Coord2)
        ensures
            moved == self.shifted(delta),
    {
        let sum = IVec2::new(self.x, self.y).wrapping_add(IVec2::new(delta.x, delta.y));
        Coord2 { x: sum.x, y: sum.y }
    }

    /// Away from the bounds of `i32` a step is plain addition.
    pub proof fn lemma_shifted_in_range(self, delta: Coord2)
        requires
            i32::MIN <= self.x + delta.x <= i32::MAX,
            i32::MIN <= self.y + delta.y <= i32::MAX,
        ensures
            self.shifted(delta).x == self.x + delta.x,
            self.shifted(delta).y == self.y + delta.y,
    {
    }
}

impl Coordinates for Coord2 {
    open spec fn key(self) -> u128 {
        (rank(self.x) * 0x1_0000_0000 + rank(self.y)) as u128
    }

    proof fn lemma_key_injective(a: Self, b: Self) {
    }

    fn index_key(&self) -> (key: u128) {
        rank_of(self.x) * 0x1_0000_0000 + rank_of(self.y)
    }
}

/// A point of a three-dimensional integer grid. Hexagonal grids use the
/// plane `x + y + z == 0` of it (cubic coordinates).
#[derive(Debug, Clone, Copy, PartialEq, Eq, Hash, Structural)]
pub struct Coord3 {
    pub x: i32,
    pub y: i32,
    pub z: i32,
}

impl Coord3 {
    /// The point `(x, y, z)`.
    #[must_use]
    pub fn new(x: i32, y: i32, z: i32) -> (point: Self)
        ensures
            point == (Coord3 { x, y, z }),
    {
        Coord3 { x, y, z }
    }

    /// The point reached from `self` by the step `delta`, each component
    /// wrapping around at the bounds of `i32`.
    pub open spec fn shifted(self, delta: Coord3) -> Coord3 {
        Coord3 {
            x: vstd::wrapping::i32_specs::wrapping_add(self.x, delta.x),
            y: vstd::wrapping::i32_specs::wrapping_add(self.y, delta.y),
            z: vstd::wrapping::i32_specs::wrapping_add(self.z, delta.z),
        }
    }

    /// The point reached from `self` by `dx`, `dy` and `dz` along the axes.
    pub open spec fn step(self, dx: int, dy: int, dz: int) -> Coord3 {
        self.shifted(Coord3 { x: dx as i32, y: dy as i32, z: dz as i32 })
    }

    /// Moves `self` by `delta`.
    ///
    /// Trusted: the sum is taken by `bevy::prelude::IVec3::wrapping_add`,
    /// which adds the two vectors component by component with
    /// `i32::wrapping_add` and so never fails.
    #[verifier::external_body]
    pub(crate) fn translate(self, delta: Coord3) -> (moved: Coord3)
        ensures
            moved == self.shifted(delta),
    {
        let sum = IVec3::new(self.x, self.y, self.z).wrapping_add(
            IVec3::new(delta.x, delta.y, delta.z),
        );
        Coord3 { x: sum.x, y: sum.y, z: sum.z }
    }

    /// Away from the bounds of `i32` a step is plain addition.
    pub proof fn lemma_shifted_in_range(self, delta: Coord3)
        requires
            i32::MIN <= self.x + delta.x <= i32::MAX,
            i32::MIN <= self.y + delta.y <= i32::MAX,
            i32::MIN <= self.z + delta.z <= i32::MAX,
        ensures
            self.shifted(delta).x == self.x + delta.x,
            self.shifted(delta).y == self.y + delta.y,
            self.shifted(delta).z == self.z + delta.z,
    {
    }
}

impl Coordinates for Coord3 {
    open spec fn key(self) -> u128 {
        ((rank(self.x) * 0x1_0000_0000 + rank(self.y)) * 0x1_0000_0000 + rank(self.z)) as u128
    }

    proof fn lemma_key_injective(a: Self, b: Self) {
    }

    fn index_key(&self) -> (key: u128) {
        (rank_of(self.x) * 0x1_0000_0000 + rank_of(self.y)) * 0x1_0000_0000 + rank_of(self.z)
    }
}

} // verus!
