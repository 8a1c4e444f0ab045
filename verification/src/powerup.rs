//! Powerups: temporary abilities the player can pick up.

use vstd::prelude::*;
use crate::geometry::{point_in, size_wf, Point, Size};
use crate::rng::random_in_range;

verus! {

/// How long a powerup lies on the field before expiring, in milliseconds.
pub const POWERUP_TTL: i64 = 10_000;

/// The full collision radius of a fresh powerup, in milli-units.
pub const POWERUP_SIZE: i64 = 20_000;

/// The different powerup abilities.
#[derive(Clone, Copy, Debug, PartialEq, Eq, Structural)]
pub enum PowerupKind {
    /// Provides the player with a one-collision shield.
    Shield,
    /// Slows down enemies (and the backdrop stars).
    TimeSlow,
    /// Shoots three bullets at once in different directions.
    TripleShot,
}

impl PowerupKind {
    /// Picks one of the three kinds uniformly at random.
    pub fn random(rng: &mut rand::rngs::StdRng) -> PowerupKind {
        let choice = random_in_range(rng, 0, 3);
        if choice == 0 {
            PowerupKind::Shield
        } else if choice == 1 {
            PowerupKind::TimeSlow
        } else {
            PowerupKind::TripleShot
        }
    }
}

/// A powerup lying on the field, waiting to be picked up.
#[derive(Clone, Copy, Debug, PartialEq, Eq, Structural)]
pub struct Powerup {
    /// Remaining time on the field, in milliseconds.
    pub ttl: i64,
    pub kind: PowerupKind,
    /// A cycling hue counter, only read by the renderer.
    pub color: u8,
    pub position: Point,
}

/// A powerup that is in bounds and still alive.
pub open spec fn powerup_wf(p: Powerup, s: Size) -> bool {
    &&& point_in(p.position, s)
    &&& 0 < p.ttl <= 10_000
}

impl Powerup {
    /// Returns a fresh powerup of the given kind at the given position.
    pub fn new(kind: PowerupKind, position: Point) -> (r: Powerup)
        ensures
            r == (Powerup { ttl: POWERUP_TTL, kind, color: 0, position }),
    {
        Powerup { ttl: POWERUP_TTL, kind, color: 0, position }
    }

    /// Returns a fresh powerup of a random kind at a random position.
    pub fn random(rng: &mut rand::rngs::StdRng, bounds: &Size) -> (r: Powerup)
        requires
            size_wf(*bounds),
        ensures
            powerup_wf(r, *bounds),
            r.ttl == POWERUP_TTL,
            r.color == 0,
    {
        let kind = PowerupKind::random(rng);
        let position = Point::random(rng, bounds);
        Powerup::new(kind, position)
    }

    /// Ages the powerup by `dt` milliseconds and cycles its hue.
    pub fn update(&mut self, dt: u64)
        requires
            dt <= 60_000,
            -100_000 <= old(self).ttl <= 100_000,
        ensures
            final(self).ttl == old(self).ttl - dt,
            final(self).kind == old(self).kind,
            final(self).position == old(self).position,
            final(self).color == if old(self).color < 255 {
                old(self).color + 1
            } else {
                0
            },
    {
        self.ttl = self.ttl - (dt as i64);
        self.color = if self.color < 255 {
            self.color + 1
        } else {
            0
        };
    }

    /// The collision radius: a powerup shrinks as it ages, from
    /// POWERUP_SIZE when fresh down to nothing when expired.
    pub fn radius(&self) -> (r: i64)
        requires
            0 <= self.ttl <= 10_000,
        ensures
            r == 2 * self.ttl,
    {
        // POWERUP_SIZE * ttl / POWERUP_TTL, with the constants cancelled
        2 * self.ttl
    }
}

} // verus!
