//! Enemies: they chase the player to cause a collision.

use vstd::prelude::*;
use crate::geometry::{point_in, size_wf, sq_dist, vector_wf, wrapped, Point, Size, Vector};
use crate::geometry::{COORD_RANGE, MAX_DIM, MAX_UNITS};
use crate::trig::{angle_of, cos_mdeg, scale_trig, sin_mdeg};

verus! {

/// The enemy's collision radius, in milli-units.
pub const ENEMY_RADIUS: i64 = 10_000;

/// An enemy.  It steers towards the nearest toroidal image of the player
/// and advances with wrap-around.
#[derive(Clone, Copy, Debug, PartialEq, Eq, Structural)]
pub struct Enemy {
    pub vector: Vector,
}

/// The copy of `dest` in the 3x3 tiling of the world, numbered 0 to 8 in
/// row-major order; copy 4 is `dest` itself.
pub open spec fn virtual_copy(dest: Point, s: Size, k: int) -> Point {
    Point {
        x: (dest.x + (k / 3 - 1) * s.width) as i64,
        y: (dest.y + (k % 3 - 1) * s.height) as i64,
    }
}

/// The nearest copy found after examining copies 0 to `k` (exclusive),
/// starting from `dest` itself; a copy replaces the current choice only
/// when strictly closer.
pub open spec fn nearest_up_to(origin: Point, dest: Point, s: Size, k: int) -> Point
    decreases k,
{
    if k <= 0 {
        dest
    } else {
        let prev = nearest_up_to(origin, dest, s, k - 1);
        let cand = virtual_copy(dest, s, k - 1);
        if sq_dist(origin, cand) < sq_dist(origin, prev) {
            cand
        } else {
            prev
        }
    }
}

/// The nearest toroidal image of `dest` as seen from `origin`.
pub open spec fn spec_nearest_position(origin: Point, dest: Point, s: Size) -> Point {
    nearest_up_to(origin, dest, s, 9)
}

/// The chosen image is never farther from the origin than any of the nine
/// copies, and is itself one of them.
pub proof fn lemma_nearest_is_min(origin: Point, dest: Point, s: Size, k: int)
    requires
        0 <= k < 9,
    ensures
        sq_dist(origin, spec_nearest_position(origin, dest, s)) <= sq_dist(
            origin,
            virtual_copy(dest, s, k),
        ),
    decreases 9 - k,
{
    lemma_nearest_step(origin, dest, s, k + 1, 9);
}

proof fn lemma_nearest_step(origin: Point, dest: Point, s: Size, lo: int, hi: int)
    requires
        1 <= lo <= hi,
    ensures
        sq_dist(origin, nearest_up_to(origin, dest, s, hi)) <= sq_dist(
            origin,
            virtual_copy(dest, s, lo - 1),
        ),
    decreases hi - lo,
{
    if lo < hi {
        lemma_nearest_step(origin, dest, s, lo + 1, hi);
        lemma_nearest_monotone(origin, dest, s, lo, hi);
    }
}

proof fn lemma_nearest_monotone(origin: Point, dest: Point, s: Size, lo: int, hi: int)
    requires
        0 <= lo <= hi,
    ensures
        sq_dist(origin, nearest_up_to(origin, dest, s, hi)) <= sq_dist(
            origin,
            nearest_up_to(origin, dest, s, lo),
        ),
    decreases hi - lo,
{
    if lo < hi {
        lemma_nearest_monotone(origin, dest, s, lo, hi - 1);
    }
}

/// The image of `dest` nearest to `origin`, taking wrap-around into
/// account: the closest of the nine copies of `dest` in the 3x3 tiling of
/// the world.
pub fn nearest_virtual_position(origin: Point, destination: Point, size: &Size) -> (r: Point)
    requires
        size_wf(*size),
        -MAX_DIM <= origin.x <= 2 * MAX_DIM,
        -MAX_DIM <= origin.y <= 2 * MAX_DIM,
        0 <= destination.x < size.width,
        0 <= destination.y < size.height,
    ensures
        r == spec_nearest_position(origin, destination, *size),
        -MAX_DIM <= r.x <= 2 * MAX_DIM,
        -MAX_DIM <= r.y <= 2 * MAX_DIM,
    {
    let mut nearest = destination;
    let mut k: usize = 0;
    while k < 9
        invariant
            0 <= k <= 9,
            nearest == nearest_up_to(origin, destination, *size, k as int),
            size_wf(*size),
            -MAX_DIM <= origin.x <= 2 * MAX_DIM,
            -MAX_DIM <= origin.y <= 2 * MAX_DIM,
            0 <= destination.x < size.width,
            0 <= destination.y < size.height,
            -MAX_DIM <= nearest.x <= 2 * MAX_DIM,
            -MAX_DIM <= nearest.y <= 2 * MAX_DIM,
        decreases 9 - k,
    {
        let i = (k / 3) as i64 - 1;
        let j = (k % 3) as i64 - 1;
        proof {
            assert(-1 <= i <= 1 && -1 <= j <= 1);
            assert(-size.width <= i * size.width <= size.width) by (nonlinear_arith)
                requires -1 <= i <= 1 && 0 < size.width;
            assert(-size.height <= j * size.height <= size.height) by (nonlinear_arith)
                requires -1 <= j <= 1 && 0 < size.height;
        }
        let cand = Point { x: destination.x + i * size.width, y: destination.y + j * size.height };
        assert(cand == virtual_copy(destination, *size, k as int));
        if origin.squared_distance_to(&cand) < origin.squared_distance_to(&nearest) {
            nearest = cand;
        }
        k = k + 1;
    }
    nearest
}

impl Enemy {
    /// Creates an enemy with the given pose.
    pub fn new(vector: Vector) -> (r: Enemy)
        ensures
            r == (Enemy { vector }),
    {
        Enemy { vector }
    }

    /// The enemy's position.
    pub fn position(&self) -> (r: Point)
        ensures
            r == self.vector.position,
    {
        self.vector.position
    }

    /// The enemy's collision radius.
    pub fn radius(&self) -> (r: i64)
        ensures
            r == ENEMY_RADIUS,
    {
        ENEMY_RADIUS
    }

    /// Steers towards the nearest toroidal image of the player and
    /// advances the given distance with wrap-around.
    pub fn update(&mut self, units: i64, player_position: Point, size: &Size)
        requires
            size_wf(*size),
            vector_wf(old(self).vector, *size),
            point_in(player_position, *size),
            0 <= units <= MAX_UNITS,
        ensures
            vector_wf(final(self).vector, *size),
            final(self).vector.direction == ({
                let target = spec_nearest_position(old(self).vector.position, player_position, *size);
                if target == old(self).vector.position {
                    old(self).vector.direction as int
                } else {
                    angle_of(
                        target.x - old(self).vector.position.x,
                        target.y - old(self).vector.position.y,
                    )
                }
            }),
            final(self).vector.position.x == wrapped(
                old(self).vector.position.x + scale_trig(
                    units as int,
                    cos_mdeg(final(self).vector.direction as int),
                ),
                size.width as int,
            ),
            final(self).vector.position.y == wrapped(
                old(self).vector.position.y + scale_trig(
                    units as int,
                    sin_mdeg(final(self).vector.direction as int),
                ),
                size.height as int,
            ),
    {
        let target = nearest_virtual_position(self.vector.position, player_position, size);
        self.vector.point_to(target);
        self.vector.advance_wrapping(units, size);
    }

    /// Advances the given distance along the current heading with
    /// wrap-around, without retargeting.
    pub fn advance(&mut self, units: i64, size: &Size)
        requires
            size_wf(*size),
            vector_wf(old(self).vector, *size),
            0 <= units <= MAX_UNITS,
        ensures
            vector_wf(final(self).vector, *size),
            final(self).vector.direction == old(self).vector.direction,
            final(self).vector.position.x == wrapped(
                old(self).vector.position.x + scale_trig(
                    units as int,
                    cos_mdeg(old(self).vector.direction as int),
                ),
                size.width as int,
            ),
            final(self).vector.position.y == wrapped(
                old(self).vector.position.y + scale_trig(
                    units as int,
                    sin_mdeg(old(self).vector.direction as int),
                ),
                size.height as int,
            ),
    {
        self.vector.advance_wrapping(units, size);
    }
}

} // verus!
