//! Axis-aligned bounding boxes: containment, overlap, Minkowski sums,
//! minimum-translation correction and swept (line-clip) collision.

use vstd::prelude::*;
use crate::vector::{abs, Vec3, WORLD_BOUND};

verus! {

/// The four edges of a box.
#[derive(Clone, Copy, Debug, PartialEq, Eq, Structural)]
pub struct Sides {
    pub left: i64,
    pub bottom: i64,
    pub right: i64,
    pub top: i64,
}

/// The four corners of a box, counter-clockwise from the top-left one:
///
/// ```text
/// a     d
///  +---+
///  |   |
///  +---+
/// b     c
/// ```
#[derive(Clone, Copy, Debug, PartialEq, Eq, Structural)]
pub struct Corners {
    pub a: Vec3,
    pub b: Vec3,
    pub c: Vec3,
    pub d: Vec3,
}

/// The fraction `num / den` of a segment; a valid one has
/// `0 <= num <= den` and `den > 0`.
#[derive(Clone, Copy, Debug, PartialEq, Eq, Structural)]
pub struct Fraction {
    pub num: i64,
    pub den: i64,
}

impl Fraction {
    pub open spec fn valid(self) -> bool {
        0 < self.den && 0 <= self.num <= self.den
    }

    /// `self <= o` as rationals (both denominators positive).
    pub open spec fn at_most(self, o: Fraction) -> bool {
        self.num * o.den <= o.num * self.den
    }
}

/// The later of two fractions: a segment has entered both slabs of a box
/// once it has entered each of them.
pub open spec fn later(a: Fraction, b: Fraction) -> Fraction {
    if a.at_most(b) { b } else { a }
}

/// `m * f`, truncated toward zero.
pub open spec fn scale(m: int, f: Fraction) -> int {
    if m >= 0 {
        (m * f.num) / (f.den as int)
    } else {
        -((-m * f.num) / (f.den as int))
    }
}

pub open spec fn min(a: int, b: int) -> int {
    if a <= b { a } else { b }
}

pub open spec fn max(a: int, b: int) -> int {
    if a >= b { a } else { b }
}

/// Clips the segment from `c` to `n` on one axis against the slab
/// `[lo, hi]`, giving the fraction of the segment at which it enters the
/// slab, or `None` when the segment misses the slab. A segment parallel to
/// the slab is inside it from the start, or never.
pub open spec fn clip_spec(lo: int, hi: int, c: int, n: int) -> Option<Fraction> {
    let d = n - c;
    if d == 0 {
        if lo <= c && c <= hi {
            Some(Fraction { num: 0, den: 1 })
        } else {
            None
        }
    } else {
        let den = abs(d);
        let low = if d > 0 { lo - c } else { c - hi };
        let high = if d > 0 { hi - c } else { c - lo };
        if high < 0 || low > den || max(0, low) > min(den, high) {
            None
        } else {
            Some(Fraction { num: max(0, low) as i64, den: den as i64 })
        }
    }
}

/// One of the two axes of the plane.
#[derive(Clone, Copy, Debug, PartialEq, Eq, Structural)]
pub enum Axis {
    X,
    Y,
}

pub open spec fn coord(v: Vec3, axis: Axis) -> int {
    match axis {
        Axis::X => v.x as int,
        Axis::Y => v.y as int,
    }
}

/// An axis-aligned box: a center and two non-negative half-extents.
#[derive(Clone, Copy, Debug, PartialEq, Eq, Structural)]
pub struct AABB {
    pub point: Vec3,
    pub half_width: i64,
    pub half_height: i64,
}

impl AABB {
    pub open spec fn bounded(self, bound: int) -> bool {
        &&& self.point.in_world()
        &&& 0 <= self.half_width <= bound
        &&& 0 <= self.half_height <= bound
    }

    /// A box as the library's callers hold it.
    pub open spec fn wf(self) -> bool {
        self.bounded(WORLD_BOUND as int)
    }

    /// A box built from two well-formed ones (their Minkowski sum).
    pub open spec fn fits(self) -> bool {
        self.bounded(2 * WORLD_BOUND)
    }

    pub open spec fn left(self) -> int {
        self.point.x - self.half_width
    }

    pub open spec fn right(self) -> int {
        self.point.x + self.half_width
    }

    pub open spec fn bottom(self) -> int {
        self.point.y - self.half_height
    }

    pub open spec fn top(self) -> int {
        self.point.y + self.half_height
    }

    /// The lower bound of the box's slab on `axis`.
    pub open spec fn low(self, axis: Axis) -> int {
        match axis {
            Axis::X => self.left(),
            Axis::Y => self.bottom(),
        }
    }

    /// The upper bound of the box's slab on `axis`.
    pub open spec fn high(self, axis: Axis) -> int {
        match axis {
            Axis::X => self.right(),
            Axis::Y => self.top(),
        }
    }

    /// `p` lies strictly inside the box: a point on an edge is outside.
    pub open spec fn contains(self, p: Vec3) -> bool {
        &&& self.left() < p.x < self.right()
        &&& self.bottom() < p.y < self.top()
    }

    /// `p` lies inside the box or on its edge.
    pub open spec fn encloses(self, p: Vec3) -> bool {
        &&& self.left() <= p.x <= self.right()
        &&& self.bottom() <= p.y <= self.top()
    }

    /// The interiors of the two boxes meet on both axes.
    pub open spec fn overlaps(self, o: AABB) -> bool {
        &&& self.right() > o.left()
        &&& self.left() < o.right()
        &&& self.bottom() < o.top()
        &&& self.top() > o.bottom()
    }

    /// The box centered on `o` whose half-extents are the sums of both.
    pub open spec fn minkowski_spec(self, o: AABB) -> AABB {
        AABB {
            point: o.point,
            half_width: (self.half_width + o.half_width) as i64,
            half_height: (self.half_height + o.half_height) as i64,
        }
    }

    pub open spec fn corners_spec(self) -> Corners {
        Corners {
            a: Vec3 { x: self.left() as i64, y: self.top() as i64, z: self.point.z },
            b: Vec3 { x: self.left() as i64, y: self.bottom() as i64, z: self.point.z },
            c: Vec3 { x: self.right() as i64, y: self.bottom() as i64, z: self.point.z },
            d: Vec3 { x: self.right() as i64, y: self.top() as i64, z: self.point.z },
        }
    }

    /// `p` moved onto the nearest edge of the box, by distance to each of
    /// the four edges; ties go to the first of left, right, top, bottom.
    pub open spec fn mtv_spec(self, p: Vec3) -> Vec3 {
        let dl = abs(p.x - self.left());
        let dr = abs(self.right() - p.x);
        let dt = abs(self.top() - p.y);
        let db = abs(p.y - self.bottom());
        if dl <= dr && dl <= dt && dl <= db {
            Vec3 { x: self.left() as i64, ..p }
        } else if dr <= dt && dr <= db {
            Vec3 { x: self.right() as i64, ..p }
        } else if dt <= db {
            Vec3 { y: self.top() as i64, ..p }
        } else {
            Vec3 { y: self.bottom() as i64, ..p }
        }
    }

    /// Where a resting box should go to stop overlapping a resting `o`:
    /// `None` when its center lies outside their Minkowski sum.
    pub open spec fn static_static_spec(self, o: AABB) -> Option<Vec3> {
        let m = self.minkowski_spec(o);
        if m.contains(self.point) {
            Some(m.mtv_spec(self.point))
        } else {
            None
        }
    }

    pub open spec fn clip_axis_spec(self, axis: Axis, c: Vec3, n: Vec3) -> Option<Fraction> {
        clip_spec(self.low(axis), self.high(axis), coord(c, axis), coord(n, axis))
    }

    /// The segment from `c` to `n` passes the clip on each axis: taken on
    /// its own, each axis of the segment reaches the box's slab on that
    /// axis. The two axes are not checked against each other, so a segment
    /// that passes a corner of the box without touching it may still pass.
    pub open spec fn intersects_spec(self, c: Vec3, n: Vec3) -> bool {
        self.clip_axis_spec(Axis::X, c, n).is_some() && self.clip_axis_spec(Axis::Y, c, n).is_some()
    }

    /// Where a box moving by `mv` stops against a resting `o`: `None` when
    /// its destination lies outside their Minkowski sum (on its edge is not
    /// outside); otherwise its
    /// center moved along `mv` up to the point where it enters that sum, at
    /// the later of its entries into the sum's two slabs. Each component of
    /// the displacement is truncated toward zero.
    pub open spec fn swept_spec(self, mv: Vec3, o: AABB) -> Option<Vec3> {
        let m = self.minkowski_spec(o);
        let p = self.point;
        let dest = Vec3 { x: (p.x + mv.x) as i64, y: (p.y + mv.y) as i64, z: (p.z + mv.z) as i64 };
        if !m.encloses(dest) {
            None
        } else {
            match (m.clip_axis_spec(Axis::X, p, dest), m.clip_axis_spec(Axis::Y, p, dest)) {
                (Some(fx), Some(fy)) => {
                    let f = later(fx, fy);
                    Some(Vec3 {
                        x: (p.x + scale(mv.x as int, f)) as i64,
                        y: (p.y + scale(mv.y as int, f)) as i64,
                        z: (p.z + scale(mv.z as int, f)) as i64,
                    })
                },
                _ => None,
            }
        }
    }
}


fn abs_diff(a: i64, b: i64) -> (r: i64)
    requires
        abs(a - b) <= i64::MAX,
    ensures
        r == abs(a - b),
{
    if a >= b { a - b } else { b - a }
}

impl AABB {
    pub fn new(point: Vec3, half_width: i64, half_height: i64) -> (r: AABB)
        ensures
            r.point == point,
            r.half_width == half_width,
            r.half_height == half_height,
    {
        AABB { point, half_width, half_height }
    }

    /// The edges of the box:
    ///
    /// ```text
    ///     top
    ///    +---+
    /// left   | right
    ///    +---+
    ///    bottom
    /// ```
    pub fn sides(&self) -> (r: Sides)
        requires
            self.fits(),
        ensures
            r.left == self.left(),
            r.bottom == self.bottom(),
            r.right == self.right(),
            r.top == self.top(),
    {
        Sides {
            left: self.point.x - self.half_width,
            bottom: self.point.y - self.half_height,
            right: self.point.x + self.half_width,
            top: self.point.y + self.half_height,
        }
    }

    pub fn corners(&self) -> (r: Corners)
        requires
            self.fits(),
        ensures
            r == self.corners_spec(),
    {
        let s = self.sides();
        let z = self.point.z;
        Corners {
            a: Vec3 { x: s.left, y: s.top, z },
            b: Vec3 { x: s.left, y: s.bottom, z },
            c: Vec3 { x: s.right, y: s.bottom, z },
            d: Vec3 { x: s.right, y: s.top, z },
        }
    }

    /// The four edges of the box as segments between its corners, in
    /// counter-clockwise order, for drawing its outline.
    pub fn outline(&self) -> (r: Vec<(Vec3, Vec3)>)
        requires
            self.fits(),
        ensures
            ({
                let k = self.corners_spec();
                r@ == seq![(k.a, k.b), (k.b, k.c), (k.c, k.d), (k.d, k.a)]
            }),
    {
        let k = self.corners();
        vec![(k.a, k.b), (k.b, k.c), (k.c, k.d), (k.d, k.a)]
    }

    /// Whether `point` lies strictly inside the box.
    pub fn point_collision(&self, point: Vec3) -> (r: bool)
        requires
            self.fits(),
        ensures
            r == self.contains(point),
    {
        let s = self.sides();
        point.x > s.left && point.x < s.right && point.y < s.top && point.y > s.bottom
    }

    /// Whether `point` lies inside the box or on its edge.
    pub fn point_within(&self, point: Vec3) -> (r: bool)
        requires
            self.fits(),
        ensures
            r == self.encloses(point),
    {
        let s = self.sides();
        point.x >= s.left && point.x <= s.right && point.y <= s.top && point.y >= s.bottom
    }

    /// Whether the interiors of the two boxes overlap.
    pub fn box_collision(&self, other: &AABB) -> (r: bool)
        requires
            self.fits(),
            other.fits(),
        ensures
            r == self.overlaps(*other),
    {
        let s = self.sides();
        let o = other.sides();
        s.right > o.left && s.left < o.right && s.bottom < o.top && s.top > o.bottom
    }

    /// The box centered on `other` whose half-extents are the sums of both
    /// boxes' half-extents.
    pub fn minkowski(&self, other: &AABB) -> (r: AABB)
        requires
            self.wf(),
            other.wf(),
        ensures
            r == self.minkowski_spec(*other),
            r.point == other.point,
            r.half_width == self.half_width + other.half_width,
            r.half_height == self.half_height + other.half_height,
            r.fits(),
    {
        AABB {
            point: other.point,
            half_width: self.half_width + other.half_width,
            half_height: self.half_height + other.half_height,
        }
    }

    /// `point` moved onto the nearest edge of the box (see `mtv_spec`).
    pub fn get_bounds_point_from_minimum_distance(&self, point: Vec3) -> (r: Vec3)
        requires
            self.fits(),
            point.in_world(),
        ensures
            r == self.mtv_spec(point),
    {
        let s = self.sides();
        let mut minimum_distance = abs_diff(point.x, s.left);
        let mut bounds_point = Vec3 { x: s.left, ..point };
        let dr = abs_diff(s.right, point.x);
        if dr < minimum_distance {
            minimum_distance = dr;
            bounds_point = Vec3 { x: s.right, ..point };
        }
        let dt = abs_diff(s.top, point.y);
        if dt < minimum_distance {
            minimum_distance = dt;
            bounds_point = Vec3 { y: s.top, ..point };
        }
        let db = abs_diff(point.y, s.bottom);
        if db < minimum_distance {
            bounds_point = Vec3 { y: s.bottom, ..point };
        }
        bounds_point
    }

    /// Detects and corrects an overlap of two resting boxes: the position
    /// the center of `self` should take, or `None` when they do not collide.
    pub fn static_static(&self, other: &AABB) -> (r: Option<Vec3>)
        requires
            self.wf(),
            other.wf(),
        ensures
            r == self.static_static_spec(*other),
            r matches Some(q) ==> q.within(3 * WORLD_BOUND),
    {
        let minkowski = self.minkowski(other);
        if !minkowski.point_collision(self.point) {
            return None;
        }
        Some(minkowski.get_bounds_point_from_minimum_distance(self.point))
    }
}

fn coordinate(v: Vec3, axis: Axis) -> (r: i64)
    ensures
        r == coord(v, axis),
{
    match axis {
        Axis::X => v.x,
        Axis::Y => v.y,
    }
}

/// `m * f` truncated toward zero, never longer than `m`.
fn scale_exec(m: i64, f: Fraction) -> (r: i64)
    requires
        f.valid(),
        abs(m as int) <= WORLD_BOUND,
        f.num <= WORLD_BOUND,
    ensures
        r == scale(m as int, f),
        abs(r as int) <= abs(m as int),
{
    let a: i64 = if m >= 0 { m } else { -m };
    assert(0 <= a * f.num <= a * f.den) by (nonlinear_arith)
        requires
            0 <= a <= WORLD_BOUND,
            0 <= f.num <= f.den,
            f.num <= WORLD_BOUND,
    ;
    assert(a * f.num <= 0x1000_0000_0000_0000) by (nonlinear_arith)
        requires
            0 <= a <= WORLD_BOUND,
            0 <= f.num <= WORLD_BOUND,
    ;
    let q: i64 = (a * f.num) / f.den;
    assert(q <= a) by (nonlinear_arith)
        requires
            q == (a * f.num) / (f.den as int),
            0 <= a * f.num <= a * f.den,
            f.den > 0,
            a >= 0,
    ;
    if m >= 0 { q } else { -q }
}

impl AABB {
    /// Clips the segment from `current` to `next` against the box's slab on
    /// `axis` (see `clip_spec`): the fraction of the segment at which it
    /// enters the slab, or `None` when it misses it.
    pub fn clip_segment_against_axis(&self, axis: Axis, current: Vec3, next: Vec3) -> (r: Option<Fraction>)
        requires
            self.fits(),
            current.within(2 * WORLD_BOUND),
            next.within(2 * WORLD_BOUND),
        ensures
            r == self.clip_axis_spec(axis, current, next),
            r matches Some(f) ==> f.valid(),
    {
        let s = self.sides();
        let (lo, hi) = match axis {
            Axis::X => (s.left, s.right),
            Axis::Y => (s.bottom, s.top),
        };
        let c = coordinate(current, axis);
        let n = coordinate(next, axis);
        let d = n - c;
        if d == 0 {
            if lo <= c && c <= hi {
                return Some(Fraction { num: 0, den: 1 });
            }
            return None;
        }
        let den = if d > 0 { d } else { -d };
        let low = if d > 0 { lo - c } else { c - hi };
        let high = if d > 0 { hi - c } else { c - lo };
        let entry = if low > 0 { low } else { 0 };
        let exit = if high < den { high } else { den };
        if high < 0 || low > den || entry > exit {
            return None;
        }
        Some(Fraction { num: entry, den })
    }

    /// Whether the segment from `current` to `next` passes the clip on both
    /// axes (see `intersects_spec`).
    pub fn intersect_line(&self, current: Vec3, next: Vec3) -> (r: bool)
        requires
            self.fits(),
            current.within(2 * WORLD_BOUND),
            next.within(2 * WORLD_BOUND),
        ensures
            r == self.intersects_spec(current, next),
    {
        let fx = self.clip_segment_against_axis(Axis::X, current, next);
        if fx.is_none() {
            return false;
        }
        let fy = self.clip_segment_against_axis(Axis::Y, current, next);
        fy.is_some()
    }

    /// Swept collision of `self`, moving by `movement` this tick, against
    /// the resting `other`: the position at which `self` first touches
    /// `other`, or `None` when the move ends clear of it.
    pub fn dynamic_static(&self, movement: Vec3, other: &AABB) -> (r: Option<Vec3>)
        requires
            self.wf(),
            other.wf(),
            movement.in_world(),
        ensures
            r == self.swept_spec(movement, *other),
            r matches Some(q) ==> q.within(2 * WORLD_BOUND),
    {
        let minkowski = self.minkowski(other);
        let p = self.point;
        let dest = Vec3 { x: p.x + movement.x, y: p.y + movement.y, z: p.z + movement.z };
        if !minkowski.point_within(dest) {
            return None;
        }
        let fx = minkowski.clip_segment_against_axis(Axis::X, p, dest);
        let fy = minkowski.clip_segment_against_axis(Axis::Y, p, dest);
        match (fx, fy) {
            (Some(fx), Some(fy)) => {
                assert(fx.den <= WORLD_BOUND && fy.den <= WORLD_BOUND);
                assert(fx.num * fy.den <= 0x1000_0000_0000_0000) by (nonlinear_arith)
                    requires
                        0 <= fx.num <= WORLD_BOUND,
                        0 <= fy.den <= WORLD_BOUND,
                ;
                assert(fy.num * fx.den <= 0x1000_0000_0000_0000) by (nonlinear_arith)
                    requires
                        0 <= fy.num <= WORLD_BOUND,
                        0 <= fx.den <= WORLD_BOUND,
                ;
                let f = if fx.num * fy.den <= fy.num * fx.den { fy } else { fx };
                Some(Vec3 {
                    x: p.x + scale_exec(movement.x, f),
                    y: p.y + scale_exec(movement.y, f),
                    z: p.z + scale_exec(movement.z, f),
                })
            },
            _ => None,
        }
    }
}

} // verus!
