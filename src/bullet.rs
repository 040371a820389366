//! Projectiles: the segment a bullet sweeps in one tick against the boxes
//! it may hit, and the quadratically growing dropoff of its speed.

use vstd::prelude::*;
use crate::aabb::AABB;
use crate::path::Path;
use crate::vector::{abs, Vec3, WORLD_BOUND};

verus! {

/// The deceleration state of a projectile: `value` grows by `increment`
/// every tick, and the speed drops by `dt * value²`.
#[derive(Clone, Copy, Debug, PartialEq, Eq, Structural)]
pub struct BulletDropoff {
    pub value: i64,
    pub increment: i64,
}

impl BulletDropoff {
    /// A fresh dropoff, starting at zero.
    pub fn new(increment: i64) -> (r: BulletDropoff)
        ensures
            r.value == 0,
            r.increment == increment,
    {
        BulletDropoff { value: 0, increment }
    }

    /// How much the speed drops in a tick of length `dt`.
    pub open spec fn decrement(self, dt: int) -> int {
        dt * self.value * self.value
    }
}

/// `m` with each component multiplied by `k`.
pub open spec fn scaled(m: Vec3, k: int) -> Vec3 {
    Vec3 { x: (m.x * k) as i64, y: (m.y * k) as i64, z: (m.z * k) as i64 }
}

/// Every component of `m` times `k` stays within the world bound.
pub open spec fn scaled_fits(m: Vec3, k: int) -> bool {
    &&& abs(m.x * k) <= WORLD_BOUND
    &&& abs(m.y * k) <= WORLD_BOUND
    &&& abs(m.z * k) <= WORLD_BOUND
}

/// One tick of projectile deceleration: the speed drops by
/// `dt * dropoff²`, the dropoff grows by its increment, and the movement
/// is multiplied by the new speed. The speed never rises, and falls when
/// both the tick length and the dropoff are positive.
pub fn lower_bullet_velocity(path: &mut Path, dropoff: &mut BulletDropoff, dt: i64)
    requires
        dt >= 0,
        old(dropoff).value >= 0,
        old(dropoff).increment >= 0,
        old(dropoff).value + old(dropoff).increment <= i64::MAX,
        old(dropoff).decrement(dt as int) <= i64::MAX,
        old(path).velocity - old(dropoff).decrement(dt as int) >= i64::MIN,
        scaled_fits(old(path).movement, old(path).velocity - old(dropoff).decrement(dt as int)),
    ensures
        final(path).velocity == old(path).velocity - old(dropoff).decrement(dt as int),
        final(path).movement == scaled(old(path).movement, final(path).velocity as int),
        final(path).wf(),
        final(dropoff).value == old(dropoff).value + old(dropoff).increment,
        final(dropoff).increment == old(dropoff).increment,
        final(path).velocity <= old(path).velocity,
        dt > 0 && old(dropoff).value > 0 ==> final(path).velocity < old(path).velocity,
{
    let v = dropoff.value;
    let decrement: i64 = if v == 0 {
        assert(dt * v * v == 0) by (nonlinear_arith)
            requires
                v == 0,
        ;
        0
    } else {
        assert(0 <= dt * v <= dt * v * v) by (nonlinear_arith)
            requires
                dt >= 0,
                v >= 1,
        ;
        dt * v * v
    };
    if dt > 0 && v > 0 {
        assert(dt * v * v > 0) by (nonlinear_arith)
            requires
                dt > 0,
                v > 0,
        ;
    }
    let speed = path.velocity - decrement;
    let m = path.movement;
    path.movement = Vec3 { x: m.x * speed, y: m.y * speed, z: m.z * speed };
    path.velocity = speed;
    dropoff.value = v + dropoff.increment;
}

impl Path {
    /// Whether a projectile has come to rest: its speed is no longer
    /// positive.
    pub fn is_stopped(&self) -> (r: bool)
        ensures
            r == (self.velocity <= 0),
    {
        self.velocity <= 0
    }

    /// Slows the path down by `penalty`, as a projectile that hit something.
    pub fn slow_down(&mut self, penalty: i64)
        requires
            old(self).velocity - penalty >= i64::MIN,
            old(self).velocity - penalty <= i64::MAX,
        ensures
            final(self).velocity == old(self).velocity - penalty,
            final(self).movement == old(self).movement,
    {
        self.velocity = self.velocity - penalty;
    }
}

/// The indices `k < n` of the boxes against which the segment from `c` to
/// `e` passes the clip on both axes (see `AABB::intersects_spec`), in
/// increasing order.
pub open spec fn hits_upto(targets: Seq<AABB>, c: Vec3, e: Vec3, n: int) -> Seq<usize>
    decreases n,
{
    if n <= 0 {
        seq![]
    } else if targets[n - 1].intersects_spec(c, e) {
        hits_upto(targets, c, e, n - 1).push((n - 1) as usize)
    } else {
        hits_upto(targets, c, e, n - 1)
    }
}

/// The indices of the boxes that a bullet at `position`, moving by
/// `movement` this tick, hits: those against which the segment it sweeps
/// passes the clip on both axes.
pub fn check_for_collisions(position: Vec3, movement: Vec3, targets: &Vec<AABB>) -> (r: Vec<usize>)
    requires
        position.in_world(),
        movement.in_world(),
        forall|k: int| 0 <= k < targets@.len() ==> #[trigger] targets@[k].wf(),
    ensures
        r@ == hits_upto(
            targets@,
            position,
            Vec3 {
                x: (position.x + movement.x) as i64,
                y: (position.y + movement.y) as i64,
                z: (position.z + movement.z) as i64,
            },
            targets@.len() as int,
        ),
{
    let end = Vec3 { x: position.x + movement.x, y: position.y + movement.y, z: position.z + movement.z };
    let mut hits: Vec<usize> = Vec::new();
    let mut k: usize = 0;
    while k < targets.len()
        invariant
            k <= targets.len(),
            position.in_world(),
            end.within(2 * WORLD_BOUND),
            end == (Vec3 {
                x: (position.x + movement.x) as i64,
                y: (position.y + movement.y) as i64,
                z: (position.z + movement.z) as i64,
            }),
            forall|l: int| 0 <= l < targets@.len() ==> #[trigger] targets@[l].wf(),
            hits@ == hits_upto(targets@, position, end, k as int),
        decreases targets.len() - k,
    {
        assert(targets@[k as int].wf());
        if targets[k].intersect_line(position, end) {
            hits.push(k);
        }
        k += 1;
    }
    hits
}

} // verus!
