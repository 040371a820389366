//! The pursuit target of an AI-controlled actor.

use vstd::prelude::*;
use crate::vector::Vec3;

verus! {

/// The squared distance between two points.
pub open spec fn distance_squared(a: Vec3, b: Vec3) -> int {
    (a.x - b.x) * (a.x - b.x) + (a.y - b.y) * (a.y - b.y) + (a.z - b.z) * (a.z - b.z)
}

/// The point an AI-controlled actor pursues, if any.
#[derive(Clone, Copy, Debug, PartialEq, Eq, Structural)]
pub struct Target {
    pub point: Option<Vec3>,
}

fn square(v: i128) -> (r: i128)
    requires
        -0x1_0000_0000 <= v <= 0x1_0000_0000,
    ensures
        r == v * v,
        0 <= r <= 0x1_0000_0000_0000_0000,
{
    assert(0 <= v * v <= 0x1_0000_0000_0000_0000) by (nonlinear_arith)
        requires
            -0x1_0000_0000 <= v <= 0x1_0000_0000,
    ;
    v * v
}

impl Target {
    pub fn new(point: Option<Vec3>) -> (r: Target)
        ensures
            r.point == point,
    {
        Target { point }
    }

    pub fn set_target(&mut self, point: Vec3)
        ensures
            final(self).point == Some(point),
    {
        self.point = Some(point);
    }

    pub fn remove_target(&mut self)
        ensures
            final(self).point.is_none(),
    {
        self.point = None;
    }

    pub fn has_target(&self) -> (r: bool)
        ensures
            r == self.point.is_some(),
    {
        self.point.is_some()
    }

    /// Perception of the player: an actor at `own` targets the player at
    /// `player` while it is within `range`, and drops its target otherwise.
    pub fn detect_player(&mut self, own: Vec3, player: Vec3, range: i64)
        requires
            own.in_world(),
            player.in_world(),
            range >= 0,
        ensures
            final(self).point == (if distance_squared(own, player) > range * range {
                None
            } else {
                Some(player)
            }),
    {
        let dx = square(own.x as i128 - player.x as i128);
        let dy = square(own.y as i128 - player.y as i128);
        let dz = square(own.z as i128 - player.z as i128);
        let r = range as i128;
        assert(0 <= r * r <= 0x4000_0000_0000_0000_0000_0000_0000_0000) by (nonlinear_arith)
            requires
                0 <= r <= i64::MAX,
        ;
        if dx + dy + dz > r * r {
            self.remove_target();
        } else {
            self.set_target(player);
        }
    }
}

} // verus!
