//! Bullets: spawned when the player shoots, destroyed after a fixed
//! travel distance or on hitting an enemy.

use vstd::prelude::*;
use crate::geometry::{size_wf, vector_wf, wrapped, Size, Vector};
use crate::geometry::MAX_UNITS;
use crate::trig::{cos_mdeg, scale_trig, sin_mdeg};

verus! {

/// The bullet's collision radius, in milli-units.
pub const BULLET_RADIUS: i64 = 3000;

/// How far a bullet travels before it is destroyed, in milli-units.
pub const BULLET_DISTANCE: i64 = 384_000;

/// A bullet in flight.
#[derive(Clone, Copy, Debug, PartialEq, Eq, Structural)]
pub struct Bullet {
    pub vector: Vector,
    /// Travel budget left before the bullet is destroyed, in milli-units.
    pub distance_left: i64,
}

/// A bullet that is in bounds and still has travel budget.
pub open spec fn bullet_wf(b: Bullet, s: Size) -> bool {
    &&& vector_wf(b.vector, s)
    &&& 0 < b.distance_left <= BULLET_DISTANCE
}

impl Bullet {
    /// Creates a bullet with the given pose and a full travel budget.
    pub fn new(vector: Vector) -> (r: Bullet)
        ensures
            r == (Bullet { vector, distance_left: BULLET_DISTANCE }),
    {
        Bullet { vector, distance_left: BULLET_DISTANCE }
    }

    /// Advances the bullet with wrap-around and spends travel budget.
    pub fn update(&mut self, units: i64, size: &Size)
        requires
            size_wf(*size),
            vector_wf(old(self).vector, *size),
            0 <= units <= MAX_UNITS,
            -MAX_UNITS <= old(self).distance_left <= BULLET_DISTANCE,
        ensures
            vector_wf(final(self).vector, *size),
            final(self).distance_left == old(self).distance_left - units,
            final(self).vector.direction == old(self).vector.direction,
            final(self).vector.position.x == wrapped(
                old(self).vector.position.x + scale_trig(
                    units as int,
                    cos_mdeg(old(self).vector.direction as int),
                ),
                size.width as int,
            ),
            final(self).vector.position.y == wrapped(
                old(self).vector.position.y + scale_trig(
                    units as int,
                    sin_mdeg(old(self).vector.direction as int),
                ),
                size.height as int,
            ),
    {
        self.vector.advance_wrapping(units, size);
        self.distance_left = self.distance_left - units;
    }

    /// Whether the bullet has used up its travel budget and must be
    /// destroyed.
    pub fn reached_max_distance(&self) -> (r: bool)
        ensures
            r == (self.distance_left <= 0),
    {
        self.distance_left <= 0
    }

    /// The bullet's collision radius.
    pub fn radius(&self) -> (r: i64)
        ensures
            r == BULLET_RADIUS,
    {
        BULLET_RADIUS
    }
}

} // verus!
