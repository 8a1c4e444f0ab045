//! The player's gun: a heat accumulator gating the fire rate.
//!
//! The temperature is a fixed-point fraction of the maximum, scaled by
//! 1000.  Every shot heats the gun; when the temperature reaches the
//! maximum the gun overheats and stays unavailable until it has cooled all
//! the way back down.  Cooling is faster while overheated.

use vstd::prelude::*;

verus! {

/// The temperature at which the gun overheats, scaled by 1000.
pub const MAX_TEMPERATURE: i64 = 1000;

/// Temperature gained per shot.
pub const HEAT_PER_SHOT: i64 = 25;

/// Cooling per second while not overheated.
pub const NATURAL_COOL_DOWN_RATE: i64 = 200;

/// Cooling per second while overheated.
pub const OVERHEAT_COOL_DOWN_RATE: i64 = 400;

/// The gun: it slowly overheats with every shot so that the player cannot
/// spam shooting.
#[derive(Clone, Copy, Debug, PartialEq, Eq, Structural)]
pub struct Gun {
    /// The current temperature, between 0 and MAX_TEMPERATURE.
    pub temperature: i64,
    /// Whether the gun has overheated.
    pub overheated: bool,
}

/// The temperature stays within its scale.
pub open spec fn gun_wf(g: Gun) -> bool {
    0 <= g.temperature <= 1000
}

/// The gun after one shot: the temperature climbs by HEAT_PER_SHOT, capped
/// at the maximum, and reaching the maximum overheats the gun.
pub open spec fn spec_heat_up(g: Gun) -> Gun {
    let t = if g.temperature + 25 >= 1000 {
        1000int
    } else {
        g.temperature + 25
    };
    Gun { temperature: t as i64, overheated: g.overheated || t == 1000 }
}

/// The gun after cooling for `dt` milliseconds: the temperature decays at
/// the overheat rate while overheated and at the natural rate otherwise,
/// and an overheated gun that reaches the minimum becomes available again.
pub open spec fn spec_cool_down(g: Gun, dt: int) -> Gun {
    let rate = if g.overheated {
        400int
    } else {
        200int
    };
    let dec = (rate * dt) / 1000;
    let t = if g.temperature - dec <= 0 {
        0int
    } else {
        g.temperature - dec
    };
    Gun { temperature: t as i64, overheated: g.overheated && t != 0 }
}

impl Default for Gun {
    /// A cold, available gun.
    fn default() -> (r: Gun)
        ensures
            r.temperature == 0,
            !r.overheated,
    {
        Gun { temperature: 0, overheated: false }
    }
}

impl Gun {
    /// Returns a cold, available gun.
    pub fn new() -> (r: Gun)
        ensures
            r.temperature == 0,
            !r.overheated,
            gun_wf(r),
    {
        Gun::default()
    }

    /// Called every tick to slowly cool the gun down.
    ///
    /// The decay is quantized to whole temperature units per call:
    /// `floor(rate * dt / 1000)`.  A tick shorter than 1000 / rate
    /// milliseconds (5 ms at the natural rate) therefore sheds nothing;
    /// hosts are expected to tick at ordinary frame intervals, where the
    /// loss per call is a fraction of a unit.
    pub fn cool_down(&mut self, dt: u64)
        requires
            gun_wf(*old(self)),
            dt <= 60_000,
        ensures
            *final(self) == spec_cool_down(*old(self), dt as int),
            gun_wf(*final(self)),
    {
        let rate: u64 = if self.overheated {
            400
        } else {
            200
        };
        let dec = ((rate * dt) / 1000) as i64;
        proof {
            vstd::arithmetic::div_mod::lemma_div_pos_is_pos((rate * dt) as int, 1000int);
        }
        if self.temperature - dec <= 0 {
            self.temperature = 0;
            if self.overheated {
                self.overheated = false;
            }
        } else {
            self.temperature = self.temperature - dec;
        }
    }

    /// Heats the gun up by one shot.
    pub fn heat_up(&mut self)
        requires
            gun_wf(*old(self)),
        ensures
            *final(self) == spec_heat_up(*old(self)),
            gun_wf(*final(self)),
    {
        if self.temperature + 25 >= 1000 {
            self.temperature = 1000;
            self.overheated = true;
        } else {
            self.temperature = self.temperature + 25;
        }
    }

    /// Whether the gun may fire: true exactly when it is not overheated.
    pub fn is_available(&self) -> (r: bool)
        ensures
            r == !self.overheated,
    {
        !self.overheated
    }

    /// Resets the gun to its cold, available state.
    pub fn reset(&mut self)
        ensures
            final(self).temperature == 0,
            !final(self).overheated,
    {
        self.temperature = 0;
        self.overheated = false;
    }
}

/// The gun after `n` consecutive shots with no cooling in between.
pub open spec fn heat_n(g: Gun, n: nat) -> Gun
    decreases n,
{
    if n == 0 {
        g
    } else {
        spec_heat_up(heat_n(g, (n - 1) as nat))
    }
}

/// After `n` shots from cold, the temperature is `n` times the heat per
/// shot, capped at the maximum, and the gun overheats exactly when the cap
/// is reached.
pub proof fn lemma_heat_accumulates(g: Gun, n: nat)
    requires
        g.temperature == 0,
        !g.overheated,
    ensures
        heat_n(g, n).temperature == if 25 * n >= 1000 {
            1000int
        } else {
            25 * n as int
        },
        heat_n(g, n).overheated == (25 * n >= 1000),
    decreases n,
{
    if n > 0 {
        lemma_heat_accumulates(g, (n - 1) as nat);
    }
}

/// Firing forty times with no cool-down — the number of shots whose heat
/// adds up to the full temperature scale — leaves the gun overheated and
/// unavailable.
pub proof fn lemma_gun_overheats_after_forty_shots(g: Gun)
    requires
        g.temperature == 0,
        !g.overheated,
    ensures
        heat_n(g, 40).overheated,
        !heat_n(g, 39).overheated,
{
    lemma_heat_accumulates(g, 40);
    lemma_heat_accumulates(g, 39);
}

/// An overheated gun becomes available again once it has cooled, at the
/// overheat rate, for long enough to shed its whole temperature.
pub proof fn lemma_gun_recovers(g: Gun, dt: int)
    requires
        gun_wf(g),
        g.overheated,
        (400 * dt) / 1000 >= g.temperature,
    ensures
        !spec_cool_down(g, dt).overheated,
{
}

} // verus!
