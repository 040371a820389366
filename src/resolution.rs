//! The per-tick collision pass over all actors: detection over every
//! unordered pair, a list of pending corrections keyed by actor index,
//! their application, integration of the movement of the actors left
//! uncorrected, and confinement to the screen.

use vstd::prelude::*;
use crate::aabb::AABB;
use crate::path::Path;
use crate::vector::{abs, Vec3, WORLD_BOUND};

verus! {

/// A physical actor: its box (whose center is the actor's position) and
/// its motion.
#[derive(Clone, Copy, Debug, PartialEq, Eq, Structural)]
pub struct Actor {
    pub aabb: AABB,
    pub path: Path,
}

/// A translation to add to the position of the actor at index `actor`.
/// It takes the place of that actor's movement for this tick: a corrected
/// actor is not integrated.
#[derive(Clone, Copy, Debug, PartialEq, Eq, Structural)]
pub struct Correction {
    pub actor: usize,
    pub translation: Vec3,
}

impl Actor {
    pub open spec fn wf(self) -> bool {
        self.aabb.wf() && self.path.wf()
    }
}

pub open spec fn all_wf(s: Seq<Actor>) -> bool {
    forall|i: int| 0 <= i < s.len() ==> #[trigger] s[i].wf()
}

/// The correction that brings actor `k` to the position `q`.
pub open spec fn correction_to(k: usize, a: Actor, q: Vec3) -> Correction {
    let p = a.aabb.point;
    Correction {
        actor: k,
        translation: Vec3 { x: (q.x - p.x) as i64, y: (q.y - p.y) as i64, z: (q.z - p.z) as i64 },
    }
}

/// The correction that the pair of actors `a` (index `i`) and `b` (index
/// `j`) calls for: a resting pair pushes `a` out of `b`; a moving actor
/// stops where it first touches a resting one; two moving actors are left
/// alone.
pub open spec fn pair_correction_spec(a: Actor, i: usize, b: Actor, j: usize) -> Option<Correction> {
    match (a.path.is_moving_spec(), b.path.is_moving_spec()) {
        (false, false) => match a.aabb.static_static_spec(b.aabb) {
            Some(q) => Some(correction_to(i, a, q)),
            None => None,
        },
        (true, false) => match a.aabb.swept_spec(a.path.movement, b.aabb) {
            Some(q) => Some(correction_to(i, a, q)),
            None => None,
        },
        (false, true) => match b.aabb.swept_spec(b.path.movement, a.aabb) {
            Some(q) => Some(correction_to(j, b, q)),
            None => None,
        },
        (true, true) => None,
    }
}

pub open spec fn has_actor(cs: Seq<Correction>, k: usize) -> bool {
    exists|i: int| 0 <= i < cs.len() && #[trigger] cs[i].actor == k
}

/// No two corrections name the same actor.
pub open spec fn unique_actors(cs: Seq<Correction>) -> bool {
    forall|a: int, b: int| 0 <= a < b < cs.len() ==> #[trigger] cs[a].actor != #[trigger] cs[b].actor
}

/// `cs` with every correction for the actor of `c` replaced by `c`.
pub open spec fn replace_correction(cs: Seq<Correction>, c: Correction) -> Seq<Correction> {
    cs.map_values(|e: Correction| if e.actor == c.actor { c } else { e })
}

/// Adds `c` to the pending corrections; a later correction for an actor
/// replaces the one it already has, in its place.
pub open spec fn add_correction(cs: Seq<Correction>, c: Option<Correction>) -> Seq<Correction> {
    match c {
        Some(c) => if has_actor(cs, c.actor) { replace_correction(cs, c) } else { cs.push(c) },
        None => cs,
    }
}

/// The pending corrections after the pairs from `(i, j)` onwards, in
/// lexicographic order, have been examined on top of `acc`; for an actor
/// that several pairs correct, the last pair's correction stands.
pub open spec fn detect_from(s: Seq<Actor>, acc: Seq<Correction>, i: int, j: int) -> Seq<Correction>
    decreases s.len() - i, s.len() - j,
{
    if i < 0 || j < 0 || i >= s.len() {
        acc
    } else if j >= s.len() {
        detect_from(s, acc, i + 1, i + 2)
    } else {
        detect_from(s, add_correction(acc, pair_correction_spec(s[i], i as usize, s[j], j as usize)), i, j + 1)
    }
}

/// The corrections that detection yields over all unordered pairs, at most
/// one per actor: the one from the last pair that corrects it.
pub open spec fn detect_spec(s: Seq<Actor>) -> Seq<Correction> {
    detect_from(s, seq![], 0, 1)
}

/// `p + t` when it lies within the world bound.
pub open spec fn shifted(p: Vec3, t: Vec3) -> Option<Vec3> {
    let x = p.x + t.x;
    let y = p.y + t.y;
    let z = p.z + t.z;
    if abs(x) <= WORLD_BOUND && abs(y) <= WORLD_BOUND && abs(z) <= WORLD_BOUND {
        Some(Vec3 { x: x as i64, y: y as i64, z: z as i64 })
    } else {
        None
    }
}

/// The actor moved to `p`.
pub open spec fn placed(a: Actor, p: Vec3) -> Actor {
    Actor { aabb: AABB { point: p, ..a.aabb }, ..a }
}

/// Applies one correction; one that names no actor, or would carry its
/// actor out of the world, is dropped.
pub open spec fn apply_one(s: Seq<Actor>, c: Correction) -> Seq<Actor> {
    if c.actor < s.len() {
        let a = s[c.actor as int];
        match shifted(a.aabb.point, c.translation) {
            Some(p) => s.update(c.actor as int, placed(a, p)),
            None => s,
        }
    } else {
        s
    }
}

/// Applies the corrections in order.
pub open spec fn apply_all(s: Seq<Actor>, cs: Seq<Correction>) -> Seq<Actor>
    decreases cs.len(),
{
    if cs.len() == 0 {
        s
    } else {
        apply_one(apply_all(s, cs.drop_last()), cs.last())
    }
}

/// The actor after its movement is added to its position; a move that
/// would leave the world counts as no movement.
pub open spec fn integrated(a: Actor) -> Actor {
    match shifted(a.aabb.point, a.path.movement) {
        Some(p) => placed(a, p),
        None => a,
    }
}

/// `v` clamped to `[-limit, limit]`.
pub open spec fn clamp_spec(v: int, limit: int) -> int {
    if v > limit {
        limit
    } else if v < -limit {
        -limit
    } else {
        v
    }
}

/// The actor pushed back inside a screen of the given half-size, with a
/// tolerance of the actor's own half-extent.
pub open spec fn confined(a: Actor, half_width: int, half_height: int) -> Actor {
    let p = a.aabb.point;
    placed(a, Vec3 {
        x: clamp_spec(p.x as int, half_width + a.aabb.half_width) as i64,
        y: clamp_spec(p.y as int, half_height + a.aabb.half_height) as i64,
        z: p.z,
    })
}

/// The actors after integration of the movement of those that `cs` does
/// not correct.
pub open spec fn integrate_uncorrected(s: Seq<Actor>, cs: Seq<Correction>) -> Seq<Actor> {
    Seq::new(s.len(), |i: int| if has_actor(cs, i as usize) { s[i] } else { integrated(s[i]) })
}

/// One tick of the collision pass: detect, correct, integrate the actors
/// left uncorrected, confine.
pub open spec fn tick_spec(s: Seq<Actor>, half_width: int, half_height: int) -> Seq<Actor> {
    let pending = detect_spec(s);
    let moved = integrate_uncorrected(apply_all(s, pending), pending);
    Seq::new(moved.len(), |i: int| confined(moved[i], half_width, half_height))
}

fn shift_within_world(p: Vec3, t: Vec3) -> (r: Option<Vec3>)
    requires
        p.in_world(),
    ensures
        r == shifted(p, t),
{
    let reach: i64 = 2 * WORLD_BOUND;
    if t.x > reach || t.x < -reach || t.y > reach || t.y < -reach || t.z > reach || t.z < -reach {
        return None;
    }
    let x = p.x + t.x;
    let y = p.y + t.y;
    let z = p.z + t.z;
    if x > WORLD_BOUND || x < -WORLD_BOUND || y > WORLD_BOUND || y < -WORLD_BOUND || z > WORLD_BOUND
        || z < -WORLD_BOUND {
        return None;
    }
    Some(Vec3 { x, y, z })
}

fn correct_to(k: usize, a: &Actor, q: Vec3) -> (r: Correction)
    requires
        a.wf(),
        q.within(3 * WORLD_BOUND),
    ensures
        r == correction_to(k, *a, q),
{
    let p = a.aabb.point;
    Correction { actor: k, translation: Vec3 { x: q.x - p.x, y: q.y - p.y, z: q.z - p.z } }
}

/// The correction that the pair of actors `a` (at index `i`) and `b` (at
/// index `j`) calls for (see `pair_correction_spec`).
pub fn pair_correction(a: &Actor, i: usize, b: &Actor, j: usize) -> (r: Option<Correction>)
    requires
        a.wf(),
        b.wf(),
    ensures
        r == pair_correction_spec(*a, i, *b, j),
{
    match (a.path.is_moving(), b.path.is_moving()) {
        (false, false) => match a.aabb.static_static(&b.aabb) {
            Some(q) => Some(correct_to(i, a, q)),
            None => None,
        },
        (true, false) => match a.aabb.dynamic_static(a.path.movement, &b.aabb) {
            Some(q) => Some(correct_to(i, a, q)),
            None => None,
        },
        (false, true) => match b.aabb.dynamic_static(b.path.movement, &a.aabb) {
            Some(q) => Some(correct_to(j, b, q)),
            None => None,
        },
        // Two moving actors are not resolved against each other.
        (true, true) => None,
    }
}

impl AABB {
    /// Whether the two actors, given by box and motion, call for a
    /// correction this tick.
    pub fn is_colliding(first_aabb: &AABB, first_path: &Path, second_aabb: &AABB, second_path: &Path) -> (r: bool)
        requires
            first_aabb.wf(),
            first_path.wf(),
            second_aabb.wf(),
            second_path.wf(),
        ensures
            r == pair_correction_spec(
                Actor { aabb: *first_aabb, path: *first_path },
                0,
                Actor { aabb: *second_aabb, path: *second_path },
                1,
            ).is_some(),
    {
        let a = Actor { aabb: *first_aabb, path: *first_path };
        let b = Actor { aabb: *second_aabb, path: *second_path };
        pair_correction(&a, 0, &b, 1).is_some()
    }
}

fn has_correction(cs: &Vec<Correction>, k: usize) -> (r: bool)
    ensures
        r == has_actor(cs@, k),
{
    let mut i: usize = 0;
    while i < cs.len()
        invariant
            i <= cs.len(),
            forall|l: int| 0 <= l < i ==> #[trigger] cs@[l].actor != k,
        decreases cs.len() - i,
    {
        if cs[i].actor == k {
            return true;
        }
        i += 1;
    }
    false
}

fn replace_pending(cs: &mut Vec<Correction>, c: Correction)
    ensures
        final(cs)@ == replace_correction(old(cs)@, c),
{
    let ghost start = cs@;
    let mut i: usize = 0;
    while i < cs.len()
        invariant
            i <= cs.len(),
            cs@.len() == start.len(),
            forall|l: int| 0 <= l < i ==> #[trigger] cs@[l] == (if start[l].actor == c.actor { c } else { start[l] }),
            forall|l: int| i <= l < cs@.len() ==> #[trigger] cs@[l] == start[l],
        decreases cs.len() - i,
    {
        if cs[i].actor == c.actor {
            cs.set(i, c);
        }
        i += 1;
    }
    assert(cs@ =~= replace_correction(start, c));
}

proof fn lemma_detect_from_unique(s: Seq<Actor>, acc: Seq<Correction>, i: int, j: int)
    requires
        unique_actors(acc),
    ensures
        unique_actors(detect_from(s, acc, i, j)),
    decreases s.len() - i, s.len() - j,
{
    if i < 0 || j < 0 || i >= s.len() {
    } else if j >= s.len() {
        lemma_detect_from_unique(s, acc, i + 1, i + 2);
    } else {
        let c = pair_correction_spec(s[i], i as usize, s[j], j as usize);
        let next = add_correction(acc, c);
        if let Some(c) = c {
            if has_actor(acc, c.actor) {
                assert forall|a: int, b: int| 0 <= a < b < next.len() implies #[trigger] next[a].actor
                    != #[trigger] next[b].actor by {
                    assert(next[a].actor == acc[a].actor);
                    assert(next[b].actor == acc[b].actor);
                }
            } else {
                assert forall|a: int, b: int| 0 <= a < b < next.len() implies #[trigger] next[a].actor
                    != #[trigger] next[b].actor by {
                    if b == acc.len() {
                        assert(acc[a].actor == next[a].actor);
                    }
                }
            }
        }
        lemma_detect_from_unique(s, next, i, j + 1);
    }
}

/// Detection over every unordered pair of actors, in index order: the
/// corrections to apply this tick, at most one per actor (the last one
/// found).
pub fn detect_actor_collisions(actors: &Vec<Actor>) -> (r: Vec<Correction>)
    requires
        all_wf(actors@),
    ensures
        r@ == detect_spec(actors@),
        unique_actors(r@),
{
    proof {
        lemma_detect_from_unique(actors@, seq![], 0, 1);
    }
    let n = actors.len();
    let mut pending: Vec<Correction> = Vec::new();
    let mut i: usize = 0;
    while i < n
        invariant
            n == actors.len(),
            i <= n,
            all_wf(actors@),
            detect_from(actors@, pending@, i as int, i + 1) == detect_spec(actors@),
        decreases n - i,
    {
        let mut j: usize = i + 1;
        while j < n
            invariant
                n == actors.len(),
                i < n,
                i + 1 <= j <= n,
                all_wf(actors@),
                detect_from(actors@, pending@, i as int, j as int) == detect_spec(actors@),
            decreases n - j,
        {
            assert(actors@[i as int].wf() && actors@[j as int].wf());
            let c = pair_correction(&actors[i], i, &actors[j], j);
            if let Some(c) = c {
                if has_correction(&pending, c.actor) {
                    replace_pending(&mut pending, c);
                } else {
                    pending.push(c);
                }
            }
            j += 1;
        }
        i += 1;
    }
    pending
}

proof fn lemma_apply_one_wf(s: Seq<Actor>, c: Correction)
    requires
        all_wf(s),
    ensures
        all_wf(apply_one(s, c)),
        apply_one(s, c).len() == s.len(),
{
    if c.actor < s.len() {
        let a = s[c.actor as int];
        assert(a.wf());
        if let Some(p) = shifted(a.aabb.point, c.translation) {
            let t = s.update(c.actor as int, placed(a, p));
            assert forall|i: int| 0 <= i < t.len() implies #[trigger] t[i].wf() by {
                if i != c.actor {
                    assert(s[i].wf());
                }
            }
        }
    }
}

/// Applies the pending corrections in order, adding each translation to
/// its actor's position (see `apply_one`).
pub fn correct_actor_collisions(actors: &mut Vec<Actor>, pending: &Vec<Correction>)
    requires
        all_wf(old(actors)@),
    ensures
        final(actors)@ == apply_all(old(actors)@, pending@),
        all_wf(final(actors)@),
{
    let ghost start = actors@;
    let mut k: usize = 0;
    while k < pending.len()
        invariant
            k <= pending.len(),
            actors@ == apply_all(start, pending@.take(k as int)),
            all_wf(actors@),
        decreases pending.len() - k,
    {
        let c = pending[k];
        proof {
            assert(pending@.take(k + 1).drop_last() =~= pending@.take(k as int));
            lemma_apply_one_wf(actors@, c);
        }
        if c.actor < actors.len() {
            let a = actors[c.actor];
            assert(actors@[c.actor as int].wf());
            if let Some(p) = shift_within_world(a.aabb.point, c.translation) {
                actors.set(c.actor, Actor { aabb: AABB { point: p, ..a.aabb }, ..a });
            }
        }
        k += 1;
    }
    assert(pending@.take(pending@.len() as int) =~= pending@);
}

/// Adds each actor's movement to its position (see `integrated`).
pub fn move_actors(actors: &mut Vec<Actor>)
    requires
        all_wf(old(actors)@),
    ensures
        final(actors)@.len() == old(actors)@.len(),
        forall|i: int| 0 <= i < final(actors)@.len() ==> #[trigger] final(actors)@[i] == integrated(old(actors)@[i]),
        all_wf(final(actors)@),
{
    let ghost start = actors@;
    let mut k: usize = 0;
    while k < actors.len()
        invariant
            k <= actors.len(),
            actors@.len() == start.len(),
            all_wf(start),
            all_wf(actors@),
            forall|i: int| 0 <= i < k ==> #[trigger] actors@[i] == integrated(start[i]),
            forall|i: int| k <= i < actors@.len() ==> #[trigger] actors@[i] == start[i],
        decreases actors.len() - k,
    {
        let a = actors[k];
        assert(actors@[k as int].wf());
        if let Some(p) = shift_within_world(a.aabb.point, a.path.movement) {
            actors.set(k, Actor { aabb: AABB { point: p, ..a.aabb }, ..a });
        }
        k += 1;
    }
}

/// Adds its movement to the position of each actor that `pending` does
/// not correct (see `integrate_uncorrected`).
pub fn move_uncorrected_actors(actors: &mut Vec<Actor>, pending: &Vec<Correction>)
    requires
        all_wf(old(actors)@),
    ensures
        final(actors)@ == integrate_uncorrected(old(actors)@, pending@),
        all_wf(final(actors)@),
{
    let ghost start = actors@;
    let mut k: usize = 0;
    while k < actors.len()
        invariant
            k <= actors.len(),
            actors@.len() == start.len(),
            all_wf(start),
            all_wf(actors@),
            forall|i: int| 0 <= i < k ==> #[trigger] actors@[i] == integrate_uncorrected(start, pending@)[i],
            forall|i: int| k <= i < actors@.len() ==> #[trigger] actors@[i] == start[i],
        decreases actors.len() - k,
    {
        let a = actors[k];
        assert(actors@[k as int].wf());
        if !has_correction(pending, k) {
            if let Some(p) = shift_within_world(a.aabb.point, a.path.movement) {
                actors.set(k, Actor { aabb: AABB { point: p, ..a.aabb }, ..a });
            }
        }
        k += 1;
    }
    assert(actors@ =~= integrate_uncorrected(start, pending@));
}

fn clamp(v: i64, limit: i64) -> (r: i64)
    requires
        limit >= 0,
    ensures
        r == clamp_spec(v as int, limit as int),
{
    if v > limit {
        limit
    } else if v < -limit {
        -limit
    } else {
        v
    }
}

/// Keeps every actor on a screen of the given half-size, allowing each to
/// reach past the edge by its own half-extent (see `confined`).
pub fn confine_to_screen(actors: &mut Vec<Actor>, half_width: i64, half_height: i64)
    requires
        0 <= half_width <= WORLD_BOUND,
        0 <= half_height <= WORLD_BOUND,
        all_wf(old(actors)@),
    ensures
        final(actors)@.len() == old(actors)@.len(),
        forall|i: int|
            0 <= i < final(actors)@.len() ==> #[trigger] final(actors)@[i] == confined(
                old(actors)@[i],
                half_width as int,
                half_height as int,
            ),
        all_wf(final(actors)@),
{
    let ghost start = actors@;
    let mut k: usize = 0;
    while k < actors.len()
        invariant
            0 <= half_width <= WORLD_BOUND,
            0 <= half_height <= WORLD_BOUND,
            k <= actors.len(),
            actors@.len() == start.len(),
            all_wf(start),
            all_wf(actors@),
            forall|i: int|
                0 <= i < k ==> #[trigger] actors@[i] == confined(start[i], half_width as int, half_height as int),
            forall|i: int| k <= i < actors@.len() ==> #[trigger] actors@[i] == start[i],
        decreases actors.len() - k,
    {
        let a = actors[k];
        assert(actors@[k as int].wf());
        let p = Vec3 {
            x: clamp(a.aabb.point.x, half_width + a.aabb.half_width),
            y: clamp(a.aabb.point.y, half_height + a.aabb.half_height),
            z: a.aabb.point.z,
        };
        actors.set(k, Actor { aabb: AABB { point: p, ..a.aabb }, ..a });
        k += 1;
    }
}

/// One tick of the collision pass: detect collisions over all pairs,
/// apply the corrections, integrate the movement of the actors left
/// uncorrected, confine to the screen. The corrections live only within
/// the call.
pub fn tick(actors: &mut Vec<Actor>, half_width: i64, half_height: i64)
    requires
        0 <= half_width <= WORLD_BOUND,
        0 <= half_height <= WORLD_BOUND,
        all_wf(old(actors)@),
    ensures
        final(actors)@ == tick_spec(old(actors)@, half_width as int, half_height as int),
        all_wf(final(actors)@),
{
    let ghost start = actors@;
    let pending = detect_actor_collisions(actors);
    correct_actor_collisions(actors, &pending);
    move_uncorrected_actors(actors, &pending);
    confine_to_screen(actors, half_width, half_height);
    assert(actors@ =~= tick_spec(start, half_width as int, half_height as int));
}

} // verus!
