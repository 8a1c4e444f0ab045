//! Particles: short-lived decorative objects spawned by explosions and by
//! the player's trail.

use vstd::prelude::*;
use crate::geometry::Vector;
use crate::trig::{cos_mdeg, scale_trig, sin_mdeg};

verus! {

/// The longest time a particle may live, in milliseconds.
pub const PARTICLE_MAX_TTL: i64 = 2500;

/// Particle positions stay within this distance of the origin: a particle
/// that starts in the world cannot outrun this bound in its lifetime.
pub const PARTICLE_RANGE: i64 = 110_000_000;

/// A particle flies along its heading, speeding with the square of its
/// remaining time to live, until that time runs out.
#[derive(Clone, Copy, Debug, PartialEq, Eq, Structural)]
pub struct Particle {
    pub vector: Vector,
    /// Remaining time to live, in milliseconds.
    pub ttl: i64,
}

/// A live particle: it has time left, its heading is folded, and its
/// position is within reach of the world given the travel its remaining
/// life allows.
pub open spec fn particle_wf(p: Particle) -> bool {
    &&& 0 < p.ttl <= 2500
    &&& 0 <= p.vector.direction < 360_000
    &&& -110_000_000 + 3125 * p.ttl <= p.vector.position.x <= 110_000_000 - 3125 * p.ttl
    &&& -110_000_000 + 3125 * p.ttl <= p.vector.position.y <= 110_000_000 - 3125 * p.ttl
}

/// The particle's speed, in milli-units per second: it slows down
/// quadratically as its time runs out.
pub open spec fn particle_speed(ttl: int) -> int {
    (ttl * ttl) / 2
}

impl Particle {
    /// Creates a particle with the given pose and time to live.
    pub fn new(vector: Vector, ttl: i64) -> (r: Particle)
        ensures
            r == (Particle { vector, ttl }),
    {
        Particle { vector, ttl }
    }

    /// Ages the particle by `dt` milliseconds and, while it still lives,
    /// advances it along its heading at the speed its remaining life
    /// gives.
    pub fn update(&mut self, dt: u64)
        requires
            particle_wf(*old(self)),
            dt <= 60_000,
        ensures
            final(self).ttl == old(self).ttl - dt,
            final(self).vector.direction == old(self).vector.direction,
            final(self).ttl <= 0 ==> final(self).vector == old(self).vector,
            final(self).ttl > 0 ==> particle_wf(*final(self)),
            final(self).ttl > 0 ==> {
                let units = (dt * particle_speed(final(self).ttl as int)) / 1000;
                &&& final(self).vector.position.x == old(self).vector.position.x + scale_trig(
                    units,
                    cos_mdeg(old(self).vector.direction as int),
                )
                &&& final(self).vector.position.y == old(self).vector.position.y + scale_trig(
                    units,
                    sin_mdeg(old(self).vector.direction as int),
                )
            },
    {
        self.ttl = self.ttl - (dt as i64);
        if self.ttl > 0 {
            proof {
                assert(0 <= self.ttl * self.ttl <= 6_250_000) by (nonlinear_arith)
                    requires 0 < self.ttl <= 2500;
            }
            let speed = (self.ttl * self.ttl) / 2;
            proof {
                vstd::arithmetic::div_mod::lemma_div_pos_is_pos((self.ttl * self.ttl) as int, 2);
                vstd::arithmetic::div_mod::lemma_div_is_ordered(
                    (self.ttl * self.ttl) as int,
                    6_250_000int,
                    2int,
                );
                assert(0 <= (dt as i64) * speed <= 60_000i64 * 3_125_000) by (nonlinear_arith)
                    requires 0 <= dt <= 60_000 && 0 <= speed <= 3_125_000;
            }
            let units = ((dt as i64) * speed) / 1000;
            proof {
                vstd::arithmetic::div_mod::lemma_div_pos_is_pos(((dt as i64) * speed) as int, 1000);
                vstd::arithmetic::div_mod::lemma_div_is_ordered(
                    ((dt as i64) * speed) as int,
                    187_500_000_000int,
                    1000int,
                );
                lemma_particle_travel_bound(dt as int, self.ttl as int);
                crate::trig::lemma_trig_bounds(self.vector.direction as int);
                crate::geometry::lemma_scale_trig_magnitude(
                    units as int,
                    cos_mdeg(self.vector.direction as int),
                );
                crate::geometry::lemma_scale_trig_magnitude(
                    units as int,
                    sin_mdeg(self.vector.direction as int),
                );
            }
            self.vector.advance(units);
        }
    }
}

/// In `dt` milliseconds a particle with `ttl` milliseconds left travels at
/// most 3125 milli-units per millisecond of aging, which keeps it inside
/// the particle range.
proof fn lemma_particle_travel_bound(dt: int, ttl: int)
    requires
        0 <= dt <= 60_000,
        0 < ttl <= 2500,
    ensures
        (dt * particle_speed(ttl)) / 1000 <= 3125 * dt,
{
    assert(0 <= ttl * ttl <= 2500 * ttl) by (nonlinear_arith)
        requires 0 < ttl <= 2500;
    vstd::arithmetic::div_mod::lemma_div_is_ordered(ttl * ttl, 2500 * ttl, 2);
    assert(particle_speed(ttl) <= 1250 * ttl) by {
        assert((2500 * ttl) / 2 == 1250 * ttl) by {
            vstd::arithmetic::div_mod::lemma_div_multiples_vanish(1250 * ttl, 2);
            assert(2 * (1250 * ttl) == 2500 * ttl) by (nonlinear_arith);
        }
    }
    assert(particle_speed(ttl) <= 3_125_000);
    assert(dt * particle_speed(ttl) <= dt * 3_125_000) by (nonlinear_arith)
        requires 0 <= dt && particle_speed(ttl) <= 3_125_000;
    vstd::arithmetic::div_mod::lemma_div_is_ordered(
        dt * particle_speed(ttl),
        dt * 3_125_000,
        1000,
    );
    assert(dt * 3_125_000 == 1000 * (3125 * dt)) by (nonlinear_arith);
    vstd::arithmetic::div_mod::lemma_div_multiples_vanish(3125 * dt, 1000);
    vstd::arithmetic::div_mod::lemma_div_pos_is_pos(dt * particle_speed(ttl), 1000);
}

} // verus!
