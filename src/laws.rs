//! Properties of the collision geometry and the resolution pass, proved
//! over the models that the executable functions' contracts use.

use vstd::prelude::*;
use crate::aabb::{clip_spec, later, scale, Axis, Fraction, AABB};
use crate::resolution::{
    all_wf, apply_all, apply_one, detect_from, detect_spec, integrated, pair_correction_spec, tick_spec, Actor,
    Correction,
};
use crate::vector::{abs, Vec3, WORLD_BOUND};

verus! {

/// Overlap is symmetric: `a` overlaps `b` exactly when `b` overlaps `a`.
pub proof fn lemma_overlap_symmetric(a: AABB, b: AABB)
    ensures
        a.overlaps(b) == b.overlaps(a),
{
}

/// The Minkowski sum of `a` and `b` is centered on `b`, and its
/// half-extents are the sums of theirs.
pub proof fn lemma_minkowski_extents(a: AABB, b: AABB)
    requires
        a.wf(),
        b.wf(),
    ensures
        a.minkowski_spec(b).point == b.point,
        a.minkowski_spec(b).half_width == a.half_width + b.half_width,
        a.minkowski_spec(b).half_height == a.half_height + b.half_height,
{
}

/// A point on an edge of a box is not inside it.
pub proof fn lemma_edge_not_inside(b: AABB, p: Vec3)
    requires
        p.x == b.left() || p.x == b.right() || p.y == b.bottom() || p.y == b.top(),
    ensures
        !b.contains(p),
{
}

/// Two boxes overlap exactly when the center of the first lies inside
/// their Minkowski sum.
pub proof fn lemma_overlap_iff_minkowski_contains(a: AABB, b: AABB)
    requires
        a.wf(),
        b.wf(),
    ensures
        a.overlaps(b) == a.minkowski_spec(b).contains(a.point),
{
}

/// A resting box that takes the position `static_static` suggests no
/// longer collides with the other box, nor overlaps it.
pub proof fn lemma_static_correction_settles(a: AABB, b: AABB)
    requires
        a.wf(),
        b.wf(),
        a.static_static_spec(b).is_some(),
    ensures
        ({
            let moved = AABB { point: a.static_static_spec(b).unwrap(), ..a };
            moved.static_static_spec(b).is_none() && !moved.overlaps(b)
        }),
{
    let m = a.minkowski_spec(b);
    let q = a.static_static_spec(b).unwrap();
    let moved = AABB { point: q, ..a };
    assert(moved.minkowski_spec(b) == m);
    assert(q.x == m.left() || q.x == m.right() || q.y == m.bottom() || q.y == m.top());
    assert(!m.contains(q));
}

proof fn lemma_scale_exact(m: int, d: int)
    requires
        0 < d <= m,
        m <= 0x1_0000_0000,
    ensures
        scale(m, Fraction { num: d as i64, den: m as i64 }) == d,
{
    assert((m * d) / m == d) by (nonlinear_arith)
        requires
            0 < d <= m,
    ;
}

proof fn lemma_scale_zero(f: Fraction)
    requires
        f.valid(),
    ensures
        scale(0, f) == 0,
{
    assert((0 * f.num) / (f.den as int) == 0) by (nonlinear_arith)
        requires
            f.den > 0,
    ;
}

/// A box moving along `x` toward a resting box whose `y`-range it shares,
/// across the gap `d` from its right edge to the other's left edge: a
/// movement shorter than `d` ends clear of it; a movement that reaches `d`
/// without carrying the box past the other's far side stops it exactly at
/// the gap, touching the other box.
pub proof fn lemma_swept_stops_at_gap(a: AABB, mv: Vec3, b: AABB)
    requires
        a.wf(),
        b.wf(),
        mv.in_world(),
        mv.x > 0,
        mv.y == 0,
        mv.z == 0,
        abs(a.point.y - b.point.y) <= a.half_height + b.half_height,
        b.left() - a.right() >= 0,
    ensures
        mv.x < b.left() - a.right() ==> a.swept_spec(mv, b).is_none(),
        b.left() - a.right() <= mv.x <= b.left() - a.right() + 2 * (a.half_width + b.half_width)
            ==> a.swept_spec(mv, b) == Some(
            Vec3 { x: (a.point.x + (b.left() - a.right())) as i64, ..a.point },
        ),
{
    let d = b.left() - a.right();
    let m = a.minkowski_spec(b);
    let p = a.point;
    let dest = Vec3 { x: (p.x + mv.x) as i64, y: (p.y + mv.y) as i64, z: (p.z + mv.z) as i64 };
    assert(m.left() - p.x == d);
    if d <= mv.x <= d + 2 * (a.half_width + b.half_width) {
        assert(m.encloses(dest));
        let fx = Fraction { num: d as i64, den: mv.x };
        let fy = Fraction { num: 0, den: 1 };
        assert(m.clip_axis_spec(crate::aabb::Axis::X, p, dest) == Some(fx));
        assert(m.clip_axis_spec(crate::aabb::Axis::Y, p, dest) == Some(fy));
        let f = later(fx, fy);
        lemma_scale_zero(f);
        if d == 0 {
            assert(fx.at_most(fy));
            assert(f == fy);
            assert((mv.x * f.num) / (f.den as int) == 0) by (nonlinear_arith)
                requires
                    f.num == 0,
                    f.den == 1,
            ;
        } else {
            assert(fx.num * fy.den == d && fy.num * fx.den == 0) by (nonlinear_arith)
                requires
                    fx.num == d,
                    fy.den == 1,
                    fy.num == 0,
            ;
            assert(!fx.at_most(fy));
            assert(f == fx);
            lemma_scale_exact(mv.x as int, d);
        }
        assert(scale(mv.x as int, f) == d);
        assert(scale(mv.y as int, f) == 0 && scale(mv.z as int, f) == 0);
        assert(a.swept_spec(mv, b) == Some(
            Vec3 {
                x: (p.x + scale(mv.x as int, f)) as i64,
                y: (p.y + scale(mv.y as int, f)) as i64,
                z: (p.z + scale(mv.z as int, f)) as i64,
            },
        ));
    }
}

/// Two moving actors never call for a correction.
pub proof fn lemma_moving_pair_uncorrected(a: Actor, i: usize, b: Actor, j: usize)
    requires
        a.path.is_moving_spec(),
        b.path.is_moving_spec(),
    ensures
        pair_correction_spec(a, i, b, j).is_none(),
{
}

proof fn lemma_detect_from_all_moving(s: Seq<Actor>, acc: Seq<Correction>, i: int, j: int)
    requires
        forall|k: int| 0 <= k < s.len() ==> #[trigger] s[k].path.is_moving_spec(),
    ensures
        detect_from(s, acc, i, j) == acc,
    decreases s.len() - i, s.len() - j,
{
    if i < 0 || j < 0 || i >= s.len() {
    } else if j >= s.len() {
        lemma_detect_from_all_moving(s, acc, i + 1, i + 2);
    } else {
        assert(s[i].path.is_moving_spec() && s[j].path.is_moving_spec());
        lemma_detect_from_all_moving(s, acc, i, j + 1);
    }
}

/// When every actor moves, detection yields no correction at all: the
/// collision pass leaves them to their own movement.
pub proof fn lemma_all_moving_no_corrections(s: Seq<Actor>)
    requires
        forall|k: int| 0 <= k < s.len() ==> #[trigger] s[k].path.is_moving_spec(),
    ensures
        detect_spec(s) == Seq::<Correction>::empty(),
{
    lemma_detect_from_all_moving(s, seq![], 0, 1);
}

/// The amount `dt * value²` by which `lower_bullet_velocity` lowers a
/// projectile's speed grows by the same step `2 * dt * increment²` from one
/// tick to the next, the dropoff growing by `increment` each tick: the
/// decay is quadratic in the number of ticks, not linear. With a positive
/// tick length and increment the drop grows strictly.
pub proof fn lemma_dropoff_decay_quadratic(dt: int, value: int, increment: int)
    ensures
        ({
            let d0 = dt * value * value;
            let d1 = dt * (value + increment) * (value + increment);
            let d2 = dt * (value + 2 * increment) * (value + 2 * increment);
            (d2 - d1) - (d1 - d0) == 2 * dt * increment * increment
        }),
        dt > 0 && value >= 0 && increment > 0 ==> dt * (value + increment) * (value + increment) > dt * value
            * value,
{
    assert(dt * (value + 2 * increment) * (value + 2 * increment) - 2 * (dt * (value + increment) * (value
        + increment)) + dt * value * value == 2 * dt * increment * increment) by (nonlinear_arith);
    if dt > 0 && value >= 0 && increment > 0 {
        assert(dt * (value + increment) * (value + increment) > dt * value * value) by (nonlinear_arith)
            requires
                dt > 0,
                value >= 0,
                increment > 0,
        ;
    }
}

proof fn lemma_apply_all_keeps_extents(s: Seq<Actor>, cs: Seq<Correction>)
    ensures
        apply_all(s, cs).len() == s.len(),
        forall|i: int|
            0 <= i < s.len() ==> (#[trigger] apply_all(s, cs)[i]).aabb.half_width == s[i].aabb.half_width
                && apply_all(s, cs)[i].aabb.half_height == s[i].aabb.half_height,
    decreases cs.len(),
{
    if cs.len() > 0 {
        lemma_apply_all_keeps_extents(s, cs.drop_last());
        let t = apply_all(s, cs.drop_last());
        assert forall|i: int| 0 <= i < s.len() implies (#[trigger] apply_one(t, cs.last())[i]).aabb.half_width
            == t[i].aabb.half_width && apply_one(t, cs.last())[i].aabb.half_height == t[i].aabb.half_height by {
        }
    }
}

/// After a tick every actor lies on the screen of the given half-size, or
/// past its edge by no more than its own half-extent.
pub proof fn lemma_tick_keeps_actors_on_screen(s: Seq<Actor>, half_width: int, half_height: int)
    requires
        all_wf(s),
        0 <= half_width <= WORLD_BOUND,
        0 <= half_height <= WORLD_BOUND,
    ensures
        tick_spec(s, half_width, half_height).len() == s.len(),
        forall|i: int|
            0 <= i < s.len() ==> {
                let a = #[trigger] tick_spec(s, half_width, half_height)[i];
                &&& abs(a.aabb.point.x as int) <= half_width + s[i].aabb.half_width
                &&& abs(a.aabb.point.y as int) <= half_height + s[i].aabb.half_height
            },
{
    let corrected = apply_all(s, detect_spec(s));
    lemma_apply_all_keeps_extents(s, detect_spec(s));
    assert forall|i: int| 0 <= i < s.len() implies {
        let a = #[trigger] tick_spec(s, half_width, half_height)[i];
        &&& abs(a.aabb.point.x as int) <= half_width + s[i].aabb.half_width
        &&& abs(a.aabb.point.y as int) <= half_height + s[i].aabb.half_height
    } by {
        assert(s[i].wf());
        assert(corrected[i].aabb.half_width == s[i].aabb.half_width);
        assert(integrated(corrected[i]).aabb.half_width == s[i].aabb.half_width);
    }
}

proof fn lemma_clip_exact(lo: int, hi: int, c: int, n: int)
    requires
        abs(lo) <= 0x1_0000_0000,
        abs(hi) <= 0x1_0000_0000,
        abs(c) <= 0x1_0000_0000,
        abs(n) <= 0x1_0000_0000,
        lo <= hi,
    ensures
        clip_spec(lo, hi, c, n) matches Some(f) ==> {
            &&& f.valid()
            &&& n != c ==> f.den == abs(n - c)
            &&& n != c && f.num > 0 ==> f.num == if n > c { lo - c } else { c - hi }
        },
{
}

proof fn lemma_scale_bounded(m: int, f: Fraction)
    requires
        f.valid(),
    ensures
        abs(scale(m, f)) <= abs(m),
{
    let a = abs(m);
    assert(0 <= (a * f.num) / (f.den as int) <= a) by (nonlinear_arith)
        requires
            a >= 0,
            0 <= f.num <= f.den,
            f.den > 0,
    ;
}

proof fn lemma_entry_lands_on_edge(lo: int, hi: int, c: int, n: int, f: Fraction)
    requires
        abs(lo) <= 0x1_0000_0000,
        abs(hi) <= 0x1_0000_0000,
        abs(c) <= 0x1_0000_0000,
        abs(n) <= 0x1_0000_0000,
        lo <= hi,
        clip_spec(lo, hi, c, n) == Some(f),
        f.num > 0,
    ensures
        c + scale(n - c, f) == if n > c { lo } else { hi },
{
    lemma_clip_exact(lo, hi, c, n);
    let m = n - c;
    let k = f.num as int;
    if m > 0 {
        assert(f.den == m);
        assert((m * k) / m == k) by (nonlinear_arith)
            requires
                m > 0,
        ;
    } else {
        assert(m != 0);
        assert(f.den == -m);
        assert(((-m) * k) / (-m) == k) by (nonlinear_arith)
            requires
                m < 0,
        ;
    }
}

/// A box that starts clear of a resting box and is stopped by the swept
/// collision ends clear of it too: it may touch the other box, but never
/// overlaps it.
pub proof fn lemma_swept_never_overlaps(a: AABB, mv: Vec3, b: AABB)
    requires
        a.wf(),
        b.wf(),
        mv.in_world(),
        !a.overlaps(b),
        a.swept_spec(mv, b).is_some(),
    ensures
        !(AABB { point: a.swept_spec(mv, b).unwrap(), ..a }).overlaps(b),
{
    let m = a.minkowski_spec(b);
    let p = a.point;
    let dest = Vec3 { x: (p.x + mv.x) as i64, y: (p.y + mv.y) as i64, z: (p.z + mv.z) as i64 };
    let fx = m.clip_axis_spec(Axis::X, p, dest).unwrap();
    let fy = m.clip_axis_spec(Axis::Y, p, dest).unwrap();
    let f = later(fx, fy);
    let q = a.swept_spec(mv, b).unwrap();
    lemma_clip_exact(m.left(), m.right(), p.x as int, dest.x as int);
    lemma_clip_exact(m.bottom(), m.top(), p.y as int, dest.y as int);
    lemma_scale_bounded(mv.x as int, f);
    lemma_scale_bounded(mv.y as int, f);
    assert(q.x == p.x + scale(mv.x as int, f));
    assert(q.y == p.y + scale(mv.y as int, f));
    let moved = AABB { point: q, ..a };
    assert(moved.overlaps(b) == m.contains(q));
    if f.num > 0 {
        if f == fx {
            lemma_entry_lands_on_edge(m.left(), m.right(), p.x as int, dest.x as int, fx);
            assert(q.x == m.left() || q.x == m.right());
        } else {
            assert(f == fy);
            lemma_entry_lands_on_edge(m.bottom(), m.top(), p.y as int, dest.y as int, fy);
            assert(q.y == m.bottom() || q.y == m.top());
        }
    } else {
        assert(fx.num == 0) by (nonlinear_arith)
            requires
                f == later(fx, fy),
                f.num == 0,
                fx.num >= 0,
                fy.num >= 0,
                fx.den > 0,
                fy.den > 0,
                fx.num * fy.den <= fy.num * fx.den ==> f == fy,
                !(fx.num * fy.den <= fy.num * fx.den) ==> f == fx,
        ;
        assert(scale(mv.x as int, f) == 0 && scale(mv.y as int, f) == 0) by (nonlinear_arith)
            requires
                f.num == 0,
                f.den > 0,
        ;
        assert(!m.contains(p));
    }
}

/// The speed a projectile loses over its first `n` ticks of length `dt`
/// when its dropoff starts at zero and grows by `increment` a tick: at tick
/// `k` the dropoff is `k * increment` (see `lower_bullet_velocity`).
pub open spec fn dropoff_total(dt: int, increment: int, n: nat) -> int
    decreases n,
{
    if n == 0 {
        0
    } else {
        let k = n - 1;
        dropoff_total(dt, increment, (n - 1) as nat) + dt * (k * increment) * (k * increment)
    }
}

/// Over its first `n` ticks a projectile whose dropoff starts at zero loses
/// `dt * increment² * (n - 1) * n * (2n - 1) / 6` of its speed: a sum of
/// squares, so the loss grows with the cube of the number of ticks.
pub proof fn lemma_dropoff_total_closed_form(dt: int, increment: int, n: nat)
    ensures
        6 * dropoff_total(dt, increment, n) == dt * increment * increment * ((n - 1) * n * (2 * n - 1)),
    decreases n,
{
    if n == 0 {
        assert(dt * increment * increment * ((n - 1) * n * (2 * n - 1)) == 0) by (nonlinear_arith)
            requires
                n == 0,
        ;
    } else {
        let k = n - 1;
        lemma_dropoff_total_closed_form(dt, increment, (n - 1) as nat);
        let t = dropoff_total(dt, increment, (n - 1) as nat);
        assert(6 * (t + dt * (k * increment) * (k * increment)) == dt * increment * increment * ((n - 1) * n * (2
            * n - 1))) by (nonlinear_arith)
            requires
                6 * t == dt * increment * increment * ((k - 1) * k * (2 * k - 1)),
                k == n - 1,
        ;
        assert(dropoff_total(dt, increment, n) == t + dt * (k * increment) * (k * increment));
    }
}

} // verus!
