//! Geometric value types: points, sizes and poses on a toroidal world.
//!
//! All coordinates are fixed-point milli-units.  A `Size` gives the wrap
//! bounds of the world; a `Vector` is the pose (position plus heading)
//! embedded in every moving entity.

use vstd::prelude::*;
use crate::rng::random_in_range;
use crate::trig::{angle_of, cos_mdeg, norm_angle, scale_trig, sin_mdeg};
use crate::trig::{cos_milli, displacement_angle, normalize_angle, scale_trig_milli, sin_milli};

verus! {

/// Largest world dimension, in milli-units.
pub const MAX_DIM: i64 = 100_000_000;

/// Smallest world dimension, in milli-units (one world unit).
pub const MIN_DIM: i64 = 1000;

/// Largest single advance of a pose, in milli-units.
pub const MAX_UNITS: i64 = 2_000_000_000;

/// Coordinates handled by the distance and collision tests stay within
/// this magnitude.
pub const COORD_RANGE: i64 = 1_000_000_000;

/// A position in space, in milli-units.
#[derive(Clone, Copy, Debug, PartialEq, Eq, Structural)]
pub struct Point {
    pub x: i64,
    pub y: i64,
}

/// The region [0, width) x [0, height), in milli-units.
#[derive(Clone, Copy, Debug, PartialEq, Eq, Structural)]
pub struct Size {
    pub width: i64,
    pub height: i64,
}

/// A pose: a position plus a heading in millidegrees.
#[derive(Clone, Copy, Debug, PartialEq, Eq, Structural)]
pub struct Vector {
    /// The position of the pose.
    pub position: Point,
    /// The heading, in millidegrees.  Every write folds it into
    /// [0, FULL_TURN): an unnormalized angle is observationally the same
    /// modulo a full turn, and folding keeps the fixed-point arithmetic
    /// bounded however long a session runs.
    pub direction: i64,
}

/// The squared distance between two points.
pub open spec fn sq_dist(a: Point, b: Point) -> int {
    (a.x - b.x) * (a.x - b.x) + (a.y - b.y) * (a.y - b.y)
}

/// Whether two circles overlap: strictly closer than the sum of the radii,
/// so exact tangency is not a collision.
pub open spec fn circles_collide(p1: Point, r1: int, p2: Point, r2: int) -> bool {
    sq_dist(p1, p2) < (r1 + r2) * (r1 + r2)
}

/// A world size the simulation accepts.
pub open spec fn size_wf(s: Size) -> bool {
    &&& MIN_DIM <= s.width <= MAX_DIM
    &&& MIN_DIM <= s.height <= MAX_DIM
}

/// Whether the point lies within the wrap bounds.
pub open spec fn point_in(p: Point, s: Size) -> bool {
    &&& 0 <= p.x < s.width
    &&& 0 <= p.y < s.height
}

/// A pose with an in-bounds position and a folded heading.
pub open spec fn vector_wf(v: Vector, s: Size) -> bool {
    &&& point_in(v.position, s)
    &&& 0 <= v.direction < 360_000
}

/// A coordinate folded into [0, w).
pub open spec fn wrapped(x: int, w: int) -> int {
    x % w
}

/// Folds a coordinate into [0, w).
pub fn wrap_coord(x: i64, w: i64) -> (r: i64)
    requires
        1 <= w,
    ensures
        r == wrapped(x as int, w as int),
        0 <= r < w,
{
    proof {
        vstd::arithmetic::div_mod::lemma_mod_bound(x as int, w as int);
    }
    x.checked_rem_euclid(w).unwrap()
}

impl Point {
    /// Returns a new point with the given coordinates.
    pub fn new(x: i64, y: i64) -> (r: Point)
        ensures
            r == (Point { x, y }),
    {
        Point { x, y }
    }

    /// Returns a random point within the given bounds.
    pub fn random(rng: &mut rand::rngs::StdRng, bounds: &Size) -> (r: Point)
        requires
            size_wf(*bounds),
        ensures
            point_in(r, *bounds),
    {
        Point { x: random_in_range(rng, 0, bounds.width), y: random_in_range(rng, 0, bounds.height) }
    }

    /// The squared distance from this point to the given one.
    pub fn squared_distance_to(&self, target: &Point) -> (r: u64)
        requires
            -COORD_RANGE <= self.x <= COORD_RANGE,
            -COORD_RANGE <= self.y <= COORD_RANGE,
            -COORD_RANGE <= target.x <= COORD_RANGE,
            -COORD_RANGE <= target.y <= COORD_RANGE,
        ensures
            r == sq_dist(*self, *target),
    {
        let dx = self.x - target.x;
        let dy = self.y - target.y;
        proof {
            assert(0 <= dx * dx <= 4_000_000_000_000_000_000 && 0 <= dy * dy
                <= 4_000_000_000_000_000_000) by (nonlinear_arith)
                requires -2_000_000_000 <= dx <= 2_000_000_000 && -2_000_000_000 <= dy
                    <= 2_000_000_000;
        }
        let sx = (dx * dx) as u64;
        let sy = (dy * dy) as u64;
        sx + sy
    }

    /// Rotates the point around the origin by the given angle, via the
    /// fixed-point rotation matrix.
    pub fn rotate(self, mdeg: i64) -> (r: Point)
        requires
            -COORD_RANGE <= self.x <= COORD_RANGE,
            -COORD_RANGE <= self.y <= COORD_RANGE,
        ensures
            r.x == scale_trig(self.x as int, cos_mdeg(mdeg as int)) - scale_trig(
                self.y as int,
                sin_mdeg(mdeg as int),
            ),
            r.y == scale_trig(self.x as int, sin_mdeg(mdeg as int)) + scale_trig(
                self.y as int,
                cos_mdeg(mdeg as int),
            ),
            -2 * COORD_RANGE <= r.x <= 2 * COORD_RANGE,
            -2 * COORD_RANGE <= r.y <= 2 * COORD_RANGE,
    {
        let c = cos_milli(mdeg);
        let s = sin_milli(mdeg);
        let xc = scale_trig_milli(self.x, c);
        let xs = scale_trig_milli(self.x, s);
        let yc = scale_trig_milli(self.y, c);
        let ys = scale_trig_milli(self.y, s);
        proof {
            lemma_scale_trig_magnitude(self.x as int, cos_mdeg(mdeg as int));
            lemma_scale_trig_magnitude(self.x as int, sin_mdeg(mdeg as int));
            lemma_scale_trig_magnitude(self.y as int, cos_mdeg(mdeg as int));
            lemma_scale_trig_magnitude(self.y as int, sin_mdeg(mdeg as int));
        }
        Point { x: xc - ys, y: xs + yc }
    }

    /// Translates the point by another point.
    pub fn translate(self, other: &Point) -> (r: Point)
        requires
            -4_000_000_000_000_000_000 <= self.x + other.x <= 4_000_000_000_000_000_000,
            -4_000_000_000_000_000_000 <= self.y + other.y <= 4_000_000_000_000_000_000,
        ensures
            r.x == self.x + other.x,
            r.y == self.y + other.y,
    {
        Point { x: self.x + other.x, y: self.y + other.y }
    }

    /// Whether this point lies strictly inside the circle of the given
    /// center and radius.
    pub fn intersect_circle(&self, center: &Point, radius: i64) -> (r: bool)
        requires
            -COORD_RANGE <= self.x <= COORD_RANGE,
            -COORD_RANGE <= self.y <= COORD_RANGE,
            -COORD_RANGE <= center.x <= COORD_RANGE,
            -COORD_RANGE <= center.y <= COORD_RANGE,
            0 <= radius <= COORD_RANGE,
        ensures
            r == (sq_dist(*self, *center) < radius * radius),
    {
        let d = self.squared_distance_to(center);
        proof {
            assert(0 <= radius * radius <= 1_000_000_000_000_000_000) by (nonlinear_arith)
                requires 0 <= radius <= 1_000_000_000;
        }
        d < (radius * radius) as u64
    }
}

/// The magnitude of a scaled coordinate never exceeds the coordinate's.
pub proof fn lemma_scale_trig_magnitude(v: int, t: int)
    requires
        -1_000_000_000_000 <= v <= 1_000_000_000_000,
        -1000 <= t <= 1000,
    ensures
        v >= 0 ==> -v <= scale_trig(v, t) <= v,
        v < 0 ==> v <= scale_trig(v, t) <= -v,
{
    let av = if v >= 0 { v } else { -v };
    let at = if t >= 0 { t } else { -t };
    assert(av * at <= av * 1000) by (nonlinear_arith)
        requires 0 <= at <= 1000 && 0 <= av;
    vstd::arithmetic::div_mod::lemma_div_is_ordered(av * at, av * 1000, 1000);
    vstd::arithmetic::div_mod::lemma_div_multiples_vanish(av, 1000);
    vstd::arithmetic::div_mod::lemma_div_pos_is_pos(av * at, 1000);
    assert(av * at >= 0) by (nonlinear_arith)
        requires 0 <= at && 0 <= av;
}

/// Two circles overlap exactly when seen from either side, and a circle of
/// positive radius always overlaps itself.
pub proof fn lemma_collision_symmetry(p1: Point, r1: int, p2: Point, r2: int)
    ensures
        circles_collide(p1, r1, p2, r2) == circles_collide(p2, r2, p1, r1),
{
    assert(sq_dist(p1, p2) == sq_dist(p2, p1)) by (nonlinear_arith);
    assert((r1 + r2) * (r1 + r2) == (r2 + r1) * (r2 + r1)) by (nonlinear_arith);
}

/// A circle of positive radius collides with itself.
pub proof fn lemma_self_collision(p: Point, r: int)
    requires
        r > 0,
    ensures
        circles_collide(p, r, p, r),
{
    assert((r + r) * (r + r) > 0) by (nonlinear_arith)
        requires r > 0;
}

/// Tests whether two circles, given by center and radius, overlap.
pub fn collides_at(p1: &Point, r1: i64, p2: &Point, r2: i64) -> (r: bool)
    requires
        -COORD_RANGE <= p1.x <= COORD_RANGE,
        -COORD_RANGE <= p1.y <= COORD_RANGE,
        -COORD_RANGE <= p2.x <= COORD_RANGE,
        -COORD_RANGE <= p2.y <= COORD_RANGE,
        0 <= r1 <= COORD_RANGE,
        0 <= r2 <= COORD_RANGE,
    ensures
        r == circles_collide(*p1, r1 as int, *p2, r2 as int),
{
    let d = p1.squared_distance_to(p2);
    let radii = r1 + r2;
    proof {
        assert(0 <= radii * radii <= 4_000_000_000_000_000_000) by (nonlinear_arith)
            requires 0 <= radii <= 2_000_000_000;
    }
    d < (radii * radii) as u64
}

impl Size {
    /// Returns a new size; zero or negative dimensions are rejected at
    /// construction by precondition.
    pub fn new(width: i64, height: i64) -> (r: Size)
        requires
            MIN_DIM <= width <= MAX_DIM,
            MIN_DIM <= height <= MAX_DIM,
        ensures
            r == (Size { width, height }),
            size_wf(r),
    {
        Size { width, height }
    }

    /// Whether the point lies within the bounds.
    pub fn contains(&self, p: &Point) -> (r: bool)
        ensures
            r == point_in(*p, *self),
    {
        0 <= p.x && p.x < self.width && 0 <= p.y && p.y < self.height
    }

    /// A random x coordinate within the bounds.
    pub fn random_x(&self, rng: &mut rand::rngs::StdRng) -> (r: i64)
        requires
            size_wf(*self),
        ensures
            0 <= r < self.width,
    {
        random_in_range(rng, 0, self.width)
    }

    /// A random y coordinate within the bounds.
    pub fn random_y(&self, rng: &mut rand::rngs::StdRng) -> (r: i64)
        requires
            size_wf(*self),
        ensures
            0 <= r < self.height,
    {
        random_in_range(rng, 0, self.height)
    }
}

impl Vector {
    /// Returns a new pose; the heading is folded into [0, FULL_TURN).
    pub fn new(position: Point, direction: i64) -> (r: Vector)
        ensures
            r.position == position,
            r.direction == norm_angle(direction as int),
            0 <= r.direction < 360_000,
    {
        Vector { position, direction: normalize_angle(direction) }
    }

    /// Returns a random pose within the given bounds.
    pub fn random(rng: &mut rand::rngs::StdRng, bounds: &Size) -> (r: Vector)
        requires
            size_wf(*bounds),
        ensures
            vector_wf(r, *bounds),
    {
        let position = Point::random(rng, bounds);
        let direction = random_in_range(rng, 0, 360_000);
        Vector { position, direction }
    }

    /// Consumes the pose and returns one with the opposite heading.
    pub fn invert(self) -> (r: Vector)
        requires
            -1_000_000_000 <= self.direction <= 1_000_000_000,
        ensures
            r.position == self.position,
            r.direction == norm_angle(self.direction + 180_000),
            0 <= r.direction < 360_000,
    {
        Vector { position: self.position, direction: normalize_angle(self.direction + 180_000) }
    }

    /// Advances the pose by the given distance along its heading, without
    /// wrapping.
    pub fn advance(&mut self, units: i64)
        requires
            0 <= units <= MAX_UNITS,
            -1_000_000_000_000 <= old(self).position.x <= 1_000_000_000_000,
            -1_000_000_000_000 <= old(self).position.y <= 1_000_000_000_000,
        ensures
            final(self).direction == old(self).direction,
            final(self).position.x == old(self).position.x + scale_trig(
                units as int,
                cos_mdeg(old(self).direction as int),
            ),
            final(self).position.y == old(self).position.y + scale_trig(
                units as int,
                sin_mdeg(old(self).direction as int),
            ),
    {
        let c = cos_milli(self.direction);
        let s = sin_milli(self.direction);
        let dx = scale_trig_milli(units, c);
        let dy = scale_trig_milli(units, s);
        proof {
            lemma_scale_trig_magnitude(units as int, cos_mdeg(old(self).direction as int));
            lemma_scale_trig_magnitude(units as int, sin_mdeg(old(self).direction as int));
        }
        self.position.x = self.position.x + dx;
        self.position.y = self.position.y + dy;
    }

    /// Advances the pose by the given distance along its heading, wrapping
    /// at the world bounds.
    pub fn advance_wrapping(&mut self, units: i64, size: &Size)
        requires
            size_wf(*size),
            0 <= units <= MAX_UNITS,
            -1_000_000_000_000 <= old(self).position.x <= 1_000_000_000_000,
            -1_000_000_000_000 <= old(self).position.y <= 1_000_000_000_000,
        ensures
            final(self).direction == old(self).direction,
            final(self).position.x == wrapped(
                old(self).position.x + scale_trig(
                    units as int,
                    cos_mdeg(old(self).direction as int),
                ),
                size.width as int,
            ),
            final(self).position.y == wrapped(
                old(self).position.y + scale_trig(
                    units as int,
                    sin_mdeg(old(self).direction as int),
                ),
                size.height as int,
            ),
            point_in(final(self).position, *size),
    {
        let c = cos_milli(self.direction);
        let s = sin_milli(self.direction);
        let dx = scale_trig_milli(units, c);
        let dy = scale_trig_milli(units, s);
        proof {
            lemma_scale_trig_magnitude(units as int, cos_mdeg(old(self).direction as int));
            lemma_scale_trig_magnitude(units as int, sin_mdeg(old(self).direction as int));
        }
        self.position.x = wrap_coord(self.position.x + dx, size.width);
        self.position.y = wrap_coord(self.position.y + dy, size.height);
    }

    /// Turns the pose towards the given target; a target exactly at the
    /// pose's own position leaves the heading unchanged.
    pub fn point_to(&mut self, target: Point)
        requires
            -COORD_RANGE <= old(self).position.x <= COORD_RANGE,
            -COORD_RANGE <= old(self).position.y <= COORD_RANGE,
            -COORD_RANGE <= target.x <= COORD_RANGE,
            -COORD_RANGE <= target.y <= COORD_RANGE,
        ensures
            final(self).position == old(self).position,
            target == old(self).position ==> final(self).direction == old(self).direction,
            target != old(self).position ==> final(self).direction == angle_of(
                target.x - old(self).position.x,
                target.y - old(self).position.y,
            ),
            target != old(self).position ==> 0 <= final(self).direction < 360_000,
    {
        let dx = target.x - self.position.x;
        let dy = target.y - self.position.y;
        if dx != 0 || dy != 0 {
            self.direction = displacement_angle(dx, dy);
        }
    }
}

/// Advancing a pose that heads along positive x by exactly the world width
/// wraps it back to its starting position.
pub proof fn lemma_wrap_around_full_width(v: Vector, s: Size)
    requires
        size_wf(s),
        vector_wf(v, s),
        v.direction == 0,
    ensures
        wrapped(
            v.position.x + scale_trig(s.width as int, cos_mdeg(v.direction as int)),
            s.width as int,
        ) == v.position.x,
        wrapped(
            v.position.y + scale_trig(s.width as int, sin_mdeg(v.direction as int)),
            s.height as int,
        ) == v.position.y,
{
    lemma_trig_at_zero();
    vstd::arithmetic::div_mod::lemma_div_multiples_vanish(s.width as int, 1000);
    assert(scale_trig(s.width as int, 1000) == s.width);
    assert(scale_trig(s.width as int, 0) == 0);
    vstd::arithmetic::div_mod::lemma_mod_add_multiples_vanish(v.position.x as int, s.width as int);
    vstd::arithmetic::div_mod::lemma_small_mod(v.position.x as nat, s.width as nat);
    vstd::arithmetic::div_mod::lemma_small_mod(v.position.y as nat, s.height as nat);
}

/// The sine and cosine of heading zero: no drift in y, full speed in x.
pub proof fn lemma_trig_at_zero()
    ensures
        sin_mdeg(0) == 0,
        cos_mdeg(0) == 1000,
{
    vstd::arithmetic::div_mod::lemma_small_mod(0nat, 360_000nat);
    vstd::arithmetic::div_mod::lemma_small_mod(90_000nat, 360_000nat);
    assert(norm_angle(0) == 0);
    assert(norm_angle(90_000) == 90_000);
    assert(90_000 * (180_000 - 90_000) == 8_100_000_000) by (nonlinear_arith);
    assert(0 * (180_000 - 0) == 0) by (nonlinear_arith);
    assert((4000 * 8_100_000_000int) / (40_500_000_000 - 8_100_000_000) == 1000);
    assert((4000 * 0int) / (40_500_000_000 - 0) == 0);
}

} // verus!
