//! Per-actor motion: the displacement for this tick and a scalar speed.

use vstd::prelude::*;
use crate::vector::Vec3;

verus! {

/// The motion of an actor. `movement` is this tick's displacement, already
/// scaled by the elapsed time; the zero vector marks an actor that does not
/// move this tick. `velocity` is the scalar speed that steering and
/// projectile dropoff work with.
#[derive(Clone, Copy, Debug, PartialEq, Eq, Structural)]
pub struct Path {
    pub movement: Vec3,
    pub velocity: i64,
}

impl Path {
    pub open spec fn wf(self) -> bool {
        self.movement.in_world()
    }

    pub open spec fn is_moving_spec(self) -> bool {
        !self.movement.is_zero_spec()
    }

    /// A resting path with the given speed.
    pub fn new(velocity: i64) -> (r: Path)
        ensures
            r.movement.is_zero_spec(),
            r.velocity == velocity,
            r.wf(),
    {
        Path { movement: Vec3::zero(), velocity }
    }

    /// Whether the actor moves this tick: its movement is not the zero
    /// vector.
    pub fn is_moving(&self) -> (r: bool)
        ensures
            r == self.is_moving_spec(),
    {
        !self.movement.is_zero()
    }
}

} // verus!
