//! The player: the rocket controlled by the user.

use vstd::prelude::*;
use crate::geometry::{size_wf, vector_wf, Point, Size, Vector};
use crate::geometry::COORD_RANGE;
use crate::gun::{gun_wf, Gun};
use crate::powerup::PowerupKind;
use crate::trig::{cos_mdeg, scale_trig, sin_mdeg};

verus! {

/// The player's collision radius, in milli-units.
pub const PLAYER_RADIUS: i64 = 6000;

/// How far ahead of its position the player's nose sits, in milli-units.
pub const PLAYER_NOSE: i64 = 10_000;

/// The minimum distance enforced between the player and a newly spawned
/// enemy, in milli-units.
pub const PLAYER_GRACE_AREA: i64 = 200_000;

/// The rocket controlled by the user.  It is created once per session,
/// flagged dead on a fatal collision, and reset on restart.
#[derive(Clone, Copy, Debug, PartialEq, Eq, Structural)]
pub struct Player {
    pub vector: Vector,
    pub is_dead: bool,
    pub powerup: Option<PowerupKind>,
    pub gun: Gun,
}

/// A player whose pose is in bounds and whose gun temperature is in scale.
pub open spec fn player_wf(p: Player, s: Size) -> bool {
    &&& vector_wf(p.vector, s)
    &&& gun_wf(p.gun)
}

/// The point at the front of the rocket: the nose, ahead of the position
/// along the heading.
pub open spec fn spec_front(p: Player) -> Point {
    Point {
        x: (p.vector.position.x + scale_trig(10_000, cos_mdeg(p.vector.direction as int))) as i64,
        y: (p.vector.position.y + scale_trig(10_000, sin_mdeg(p.vector.direction as int))) as i64,
    }
}

impl Player {
    /// Creates a new player with a random pose, waiting dead for the
    /// session to start.
    pub fn random(rng: &mut rand::rngs::StdRng, bounds: &Size) -> (r: Player)
        requires
            size_wf(*bounds),
        ensures
            player_wf(r, *bounds),
            r.is_dead,
            r.powerup is None,
            r.gun.temperature == 0 && !r.gun.overheated,
    {
        Player {
            vector: Vector::random(rng, bounds),
            is_dead: true,
            powerup: None,
            gun: Gun::new(),
        }
    }

    /// Returns the front of the rocket.
    pub fn front(&self) -> (r: Point)
        requires
            -COORD_RANGE <= self.vector.position.x <= COORD_RANGE,
            -COORD_RANGE <= self.vector.position.y <= COORD_RANGE,
        ensures
            r == spec_front(*self),
            -COORD_RANGE - 10_000 <= r.x <= COORD_RANGE + 10_000,
            -COORD_RANGE - 10_000 <= r.y <= COORD_RANGE + 10_000,
    {
        let nose = Point::new(PLAYER_NOSE, 0);
        let rotated = nose.rotate(self.vector.direction);
        proof {
            let d = self.vector.direction as int;
            assert(scale_trig(0, sin_mdeg(d)) == 0 && scale_trig(0, cos_mdeg(d)) == 0) by {
                assert((0int * sin_mdeg(d)) / 1000 == 0 || sin_mdeg(d) < 0);
                assert(sin_mdeg(d) < 0 ==> (0int * (-sin_mdeg(d))) / 1000 == 0);
                assert((0int * cos_mdeg(d)) / 1000 == 0 || cos_mdeg(d) < 0);
                assert(cos_mdeg(d) < 0 ==> (0int * (-cos_mdeg(d))) / 1000 == 0);
            }
            crate::trig::lemma_trig_bounds(d);
            crate::geometry::lemma_scale_trig_magnitude(10_000, cos_mdeg(d));
            crate::geometry::lemma_scale_trig_magnitude(10_000, sin_mdeg(d));
        }
        rotated.translate(&self.vector.position)
    }

    /// The player's position.
    pub fn position(&self) -> (r: Point)
        ensures
            r == self.vector.position,
    {
        self.vector.position
    }

    /// The player's heading, in millidegrees.
    pub fn direction(&self) -> (r: i64)
        ensures
            r == self.vector.direction,
    {
        self.vector.direction
    }

    /// The player's collision radius.
    pub fn radius(&self) -> (r: i64)
        ensures
            r == PLAYER_RADIUS,
    {
        PLAYER_RADIUS
    }
}

} // verus!
