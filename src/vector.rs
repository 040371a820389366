//! Integer three-component vectors: positions and per-tick displacements.

use vstd::prelude::*;

verus! {

/// Bound on every coordinate, half-extent and per-tick movement component
/// kept by the library (2^30 world units). Sums and products of a few such
/// values stay well inside `i64`.
pub const WORLD_BOUND: i64 = 1_073_741_824;

/// Absolute value of a mathematical integer.
pub open spec fn abs(v: int) -> int {
    if v < 0 { -v } else { v }
}

/// A position or displacement in world units; `z` is carried along
/// unchanged by the planar geometry.
#[derive(Clone, Copy, Debug, PartialEq, Eq, Structural)]
pub struct Vec3 {
    pub x: i64,
    pub y: i64,
    pub z: i64,
}

impl Vec3 {
    /// Every component lies within `bound` of the origin.
    pub open spec fn within(self, bound: int) -> bool {
        &&& abs(self.x as int) <= bound
        &&& abs(self.y as int) <= bound
        &&& abs(self.z as int) <= bound
    }

    /// Every component lies within the world bound.
    pub open spec fn in_world(self) -> bool {
        self.within(WORLD_BOUND as int)
    }

    pub open spec fn is_zero_spec(self) -> bool {
        self.x == 0 && self.y == 0 && self.z == 0
    }

    pub fn new(x: i64, y: i64, z: i64) -> (r: Vec3)
        ensures
            r.x == x && r.y == y && r.z == z,
    {
        Vec3 { x, y, z }
    }

    /// The zero vector, which marks an actor that does not move this tick.
    pub fn zero() -> (r: Vec3)
        ensures
            r.is_zero_spec(),
    {
        Vec3 { x: 0, y: 0, z: 0 }
    }

    pub fn is_zero(&self) -> (r: bool)
        ensures
            r == self.is_zero_spec(),
    {
        self.x == 0 && self.y == 0 && self.z == 0
    }
}

} // verus!
