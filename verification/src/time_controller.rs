//! The time controller: the per-tick simulation hub.
//!
//! It advances the clock and the difficulty ramp, services due timeouts,
//! moves every entity, and runs the rate-limited spawners for bullets,
//! enemies, powerups and trail particles.

use vstd::prelude::*;
use crate::bullet::{bullet_wf, Bullet, BULLET_DISTANCE};
use crate::enemy::{spec_nearest_position, Enemy};
use crate::events::Event;
use crate::game_state::{is_game_over_message, state_wf, GameState, DIFFICULTY_CAP};
use crate::geometry::{point_in, size_wf, sq_dist, vector_wf, wrapped, Point, Size, Vector};
use crate::geometry::{MAX_DIM, MAX_UNITS};
use crate::gun::{spec_cool_down, spec_heat_up};
use crate::input::Actions;
use crate::particle::{particle_wf, Particle};
use crate::player::{spec_front, Player, PLAYER_GRACE_AREA};
use crate::powerup::{powerup_wf, Powerup, PowerupKind};
use crate::star::{star_wf, Star};
use crate::timer::Timer;
use crate::timeout_queue::{insert_sorted, queue_wf, Timeout, TimeoutQueue};
use crate::trig::{angle_of, cos_mdeg, norm_angle, scale_trig, sin_mdeg};
use crate::trig::isqrt;

verus! {

/// Milliseconds between bullets (thirty per second).
pub const BULLET_RATE: u64 = 33;

/// Milliseconds between enemy spawns (one per second).
pub const ENEMY_SPAWN_RATE: u64 = 1000;

/// Milliseconds between trail particles (twenty per second).
pub const TRAIL_PARTICLE_RATE: u64 = 50;

/// Milliseconds between powerup spawns (one every ten seconds).
pub const POWERUP_SPAWN_RATE: u64 = 10_000;

/// The player's speed, in milli-units per second.
pub const ADVANCE_SPEED: i64 = 200_000;

/// The bullet's speed, in milli-units per second.
pub const BULLET_SPEED: i64 = 500_000;

/// The enemy's base speed, in milli-units per second.
pub const ENEMY_SPEED: i64 = 100_000;

/// The enemy's base speed under the TimeSlow powerup.
pub const ENEMY_TIME_SLOW_SPEED: i64 = 25_000;

/// The player's turn rate, in millidegrees per second (a full turn per
/// second).
pub const ROTATE_SPEED: i64 = 360_000;

/// The stars' base speed, in milli-units per second.
pub const STAR_BASE_SPEED: i64 = 50_000;

/// The stars' base speed under the TimeSlow powerup.
pub const STAR_TIME_SLOW_SPEED: i64 = 20_000;

/// The trail particle's time to live, in milliseconds.
pub const TRAIL_TTL: i64 = 500;

/// The largest tick the controller accepts, in milliseconds.
pub const MAX_DT: u64 = 60_000;

/// The clock stays below this bound, which no session can reach; it only
/// bounds the arithmetic.
pub const MAX_TIME: u64 = 4_000_000_000_000_000_000;

/// The per-tick simulation hub.
pub struct TimeController {
    /// The duration of the current game since the last restart, in
    /// milliseconds.
    pub current_time: u64,
    /// Triggers creation of trail particles.
    pub trail_timer: Timer,
    /// Triggers creation of bullets.
    pub shoot_timer: Timer,
    /// Triggers enemy spawns.
    pub enemy_timer: Timer,
    /// Triggers powerup spawns.
    pub powerup_timer: Timer,
    /// Scheduled actions that should happen in the future.
    pub scheduled_timeouts: TimeoutQueue,
}

/// The timers never lie in the clock's future, the clock itself stays
/// within bounds, and the timeout queue is sorted.
pub open spec fn controller_wf(tc: TimeController) -> bool {
    &&& tc.current_time <= MAX_TIME
    &&& tc.trail_timer.last_triggered <= tc.current_time
    &&& tc.shoot_timer.last_triggered <= tc.current_time
    &&& tc.enemy_timer.last_triggered <= tc.current_time
    &&& tc.powerup_timer.last_triggered <= tc.current_time
    &&& queue_wf(tc.scheduled_timeouts)
}

impl TimeController {
    /// Returns a controller at time zero with all timers fresh and no
    /// scheduled timeout.
    pub fn new() -> (r: TimeController)
        ensures
            r.current_time == 0,
            r.trail_timer == (Timer { last_triggered: 0, interval: TRAIL_PARTICLE_RATE }),
            r.shoot_timer == (Timer { last_triggered: 0, interval: BULLET_RATE }),
            r.enemy_timer == (Timer { last_triggered: 0, interval: ENEMY_SPAWN_RATE }),
            r.powerup_timer == (Timer { last_triggered: 0, interval: POWERUP_SPAWN_RATE }),
            r.scheduled_timeouts.entries@.len() == 0,
            controller_wf(r),
    {
        TimeController {
            current_time: 0,
            trail_timer: Timer::new(TRAIL_PARTICLE_RATE),
            shoot_timer: Timer::new(BULLET_RATE),
            enemy_timer: Timer::new(ENEMY_SPAWN_RATE),
            powerup_timer: Timer::new(POWERUP_SPAWN_RATE),
            scheduled_timeouts: TimeoutQueue::new(),
        }
    }

    /// Called when the game is reset: everything returns to its starting
    /// state, dropping any scheduled timeout.
    pub fn reset(&mut self)
        ensures
            final(self).current_time == 0,
            final(self).scheduled_timeouts.entries@.len() == 0,
            controller_wf(*final(self)),
    {
        *self = TimeController::new();
    }

    /// Schedules a deferred action to run `offset` milliseconds from now.
    pub fn schedule_timeout(&mut self, offset: u64, timeout: Timeout)
        requires
            queue_wf(old(self).scheduled_timeouts),
            old(self).current_time + offset <= u64::MAX,
        ensures
            queue_wf(final(self).scheduled_timeouts),
            final(self).scheduled_timeouts.entries@ == insert_sorted(
                old(self).scheduled_timeouts.entries@,
                ((old(self).current_time + offset) as u64, timeout),
            ),
            final(self).current_time == old(self).current_time,
            final(self).trail_timer == old(self).trail_timer,
            final(self).shoot_timer == old(self).shoot_timer,
            final(self).enemy_timer == old(self).enemy_timer,
            final(self).powerup_timer == old(self).powerup_timer,
    {
        let time = self.current_time + offset;
        self.scheduled_timeouts.push(time, timeout);
    }

    /// Rotates and advances the player, with wrap-around, and cools the
    /// gun down.  Does nothing when the player is dead.
    pub fn update_player(&mut self, dt: u64, actions: &Actions, state: &mut GameState)
        requires
            state_wf(*old(state)),
            dt <= MAX_DT,
        ensures
            *final(self) == *old(self),
            state_wf(*final(state)),
            final(state).score == old(state).score,
            final(state).difficulty == old(state).difficulty,
            final(state).message == old(state).message,
            final(state).world.size == old(state).world.size,
            final(state).world.particles == old(state).world.particles,
            final(state).world.powerups == old(state).world.powerups,
            final(state).world.bullets == old(state).world.bullets,
            final(state).world.enemies == old(state).world.enemies,
            final(state).world.stars == old(state).world.stars,
            old(state).world.player.is_dead ==> final(state).world.player == old(
                state,
            ).world.player,
            !old(state).world.player.is_dead ==> final(state).world.player == spec_player_step(
                old(state).world.player,
                dt as int,
                *actions,
                old(state).world.size,
            ),
    {
        if !state.world.player.is_dead {
            let delta = 360 * (dt as i64);
            if actions.rotate_left {
                state.world.player.vector.direction = crate::trig::normalize_angle(
                    state.world.player.vector.direction - delta,
                );
            } else if actions.rotate_right {
                state.world.player.vector.direction = crate::trig::normalize_angle(
                    state.world.player.vector.direction + delta,
                );
            }
            let units = if actions.boost {
                400 * (dt as i64)
            } else {
                200 * (dt as i64)
            };
            let size = state.world.size;
            state.world.player.vector.advance_wrapping(units, &size);
            state.world.player.gun.cool_down(dt);
        }
    }

    /// Advances the world by one tick of `dt` milliseconds.
    ///
    /// The clock and the difficulty ramp advance; at most one due timeout
    /// is serviced; while the player lives it is steered, moved and its
    /// gun cooled, and the powerups age and respawn; bullets are shot,
    /// moved and culled; particles age and the trail grows; enemies
    /// spawn and chase; stars drift.  Events for anything audible are
    /// appended to `events`, whose existing entries are kept.
    pub fn update_seconds(
        &mut self,
        dt: u64,
        actions: &Actions,
        state: &mut GameState,
        events: &mut Vec<Event>,
        rng: &mut rand::rngs::StdRng,
    )
        requires
            controller_wf(*old(self)),
            state_wf(*old(state)),
            dt <= MAX_DT,
            old(self).current_time + dt <= MAX_TIME,
        ensures
            controller_wf(*final(self)),
            state_wf(*final(state)),
            final(self).current_time == old(self).current_time + dt,
            final(state).difficulty == if old(state).difficulty + 10 * dt <= DIFFICULTY_CAP {
                old(state).difficulty + 10 * dt
            } else {
                DIFFICULTY_CAP as int
            },
            final(state).difficulty >= old(state).difficulty,
            final(state).score == old(state).score,
            final(state).world.size == old(state).world.size,
            final(state).world.stars@.len() == old(state).world.stars@.len(),
            ({
                let now = (old(self).current_time + dt) as u64;
                let s = old(state).world.size;
                let q0 = old(self).scheduled_timeouts.entries@;
                let due = q0.len() > 0 && q0[0].0 <= now;
                let powerup1 = if due && q0[0].1 is RemovePowerup {
                    None
                } else {
                    old(state).world.player.powerup
                };
                let alive = !old(state).world.player.is_dead;
                let time_slow = powerup1 == Some(PowerupKind::TimeSlow);
                let player1 = if alive {
                    Player {
                        powerup: powerup1,
                        ..spec_player_step(old(state).world.player, dt as int, *actions, s)
                    }
                } else {
                    Player { powerup: powerup1, ..old(state).world.player }
                };
                let shot = alive && actions.shoot && old(self).shoot_timer.fires(now);
                let spawned = if shot {
                    spawned_bullets(player1, s)
                } else {
                    Seq::<Bullet>::empty()
                };
                let player2 = if shot && spawned.len() == 1 {
                    Player { gun: spec_heat_up(player1.gun), ..player1 }
                } else {
                    player1
                };
                let enemy_fired = old(self).enemy_timer.fires(now);
                // the timeout step: at most one due entry is popped and run
                &&& final(self).scheduled_timeouts.entries@ == if due {
                    q0.drop_first()
                } else {
                    q0
                }
                &&& (due && q0[0].1 is ShowGameOverScreen ==> (final(state).message matches Some(m)
                    && is_game_over_message(m)))
                &&& (!(due && q0[0].1 is ShowGameOverScreen) ==> final(state).message == old(
                    state,
                ).message)
                // the timers polled this tick
                &&& final(self).shoot_timer == if alive && actions.shoot {
                    old(self).shoot_timer.stepped(now)
                } else {
                    old(self).shoot_timer
                }
                &&& final(self).trail_timer == if alive {
                    old(self).trail_timer.stepped(now)
                } else {
                    old(self).trail_timer
                }
                &&& final(self).powerup_timer == if alive {
                    old(self).powerup_timer.stepped(now)
                } else {
                    old(self).powerup_timer
                }
                &&& final(self).enemy_timer == old(self).enemy_timer.stepped(now)
                // the player: steered and cooled while alive, heated by a
                // normal shot, its powerup cleared by a due RemovePowerup
                &&& final(state).world.player == player2
                // bullets: the volley joins, everything advances, spent
                // bullets leave
                &&& final(state).world.bullets@ == surviving_bullets(
                    old(state).world.bullets@ + spawned,
                    500 * dt as int,
                    s,
                )
                // particles: aged and moved, plus the trail
                &&& final(state).world.particles@ == surviving_particles(
                    old(state).world.particles@,
                    dt as int,
                ) + if alive && old(self).trail_timer.fires(now) {
                    seq![trail_particle(player1)]
                } else {
                    Seq::<Particle>::empty()
                }
                // powerups: aged and respawned only while the player lives
                &&& (alive ==> ({
                    let aged = surviving_powerups(old(state).world.powerups@, dt as int);
                    if old(self).powerup_timer.fires(now) {
                        &&& final(state).world.powerups@.len() == aged.len() + 1
                        &&& final(state).world.powerups@.subrange(0, aged.len() as int) == aged
                        &&& powerup_wf(final(state).world.powerups@.last(), s)
                        &&& final(state).world.powerups@.last().ttl == 10_000
                    } else {
                        final(state).world.powerups@ == aged
                    }
                }))
                &&& (!alive ==> final(state).world.powerups == old(state).world.powerups)
                // enemies: every pre-existing one chases (or drifts), the
                // count grows only by the spawner
                &&& ({
                    let units = enemy_units(
                        dt as int,
                        time_slow,
                        final(state).difficulty as int,
                        !alive,
                    );
                    let n = old(state).world.enemies@.len() as int;
                    &&& final(state).world.enemies@.len() == n + if enemy_fired {
                        1int
                    } else {
                        0int
                    }
                    &&& forall|i: int|
                        0 <= i < n ==> #[trigger] final(state).world.enemies@[i]
                            == spec_moved_enemy(
                            old(state).world.enemies@[i],
                            units,
                            player1.vector.position,
                            s,
                            alive,
                        )
                })
                // stars always drift
                &&& forall|i: int|
                    0 <= i < old(state).world.stars@.len()
                        ==> #[trigger] final(state).world.stars@[i] == spec_moved_star(
                        old(state).world.stars@[i],
                        dt as int,
                        time_slow,
                        s,
                    )
                // exactly the audible events of this tick are appended
                &&& final(events)@ == old(events)@ + (if spawned.len() > 0 {
                    seq![Event::ShotFired]
                } else {
                    Seq::<Event>::empty()
                }) + (if enemy_fired {
                    seq![Event::EnemySpawned]
                } else {
                    Seq::<Event>::empty()
                })
            }),
    {
        let ghost q0 = self.scheduled_timeouts.entries@;
        self.current_time = self.current_time + dt;
        let inc = 10 * dt;
        if state.difficulty + inc <= DIFFICULTY_CAP {
            state.difficulty = state.difficulty + inc;
        } else {
            state.difficulty = DIFFICULTY_CAP;
        }

        // run at most one scheduled action that has become due
        match self.scheduled_timeouts.peek() {
            Some(when) => {
                if when <= self.current_time {
                    match self.scheduled_timeouts.pop() {
                        Some(timeout) => {
                            timeout.handle(state);
                        },
                        None => {},
                    }
                }
            },
            None => {},
        }

        let ghost powerup1 = state.world.player.powerup;
        let ghost player_mid = state.world.player;
        let time_slow = matches!(state.world.player.powerup, Some(PowerupKind::TimeSlow));

        // only steer the player and age the powerups while the player is
        // alive
        if !state.world.player.is_dead {
            self.update_player(dt, actions, state);
            self.update_powerups(dt, state, rng);
            proof {
                assert(state.world.player == (Player {
                    powerup: powerup1,
                    ..spec_player_step(old(state).world.player, dt as int, *actions, old(
                        state,
                    ).world.size)
                }));
            }
        }
        let ghost player1 = state.world.player;

        let ghost events_mid = events@;
        self.update_bullets(dt, actions, state, events);
        proof {
            assert(events@.subrange(0, events_mid.len() as int) =~= events_mid);
        }
        self.update_particles(dt, state);
        proof {
            assert(trail_particle(state.world.player) == trail_particle(player1));
        }
        let ghost events_mid2 = events@;
        self.update_enemies(dt, state, events, time_slow, rng);
        proof {
            assert(events@.subrange(0, events_mid2.len() as int) =~= events_mid2);
            assert(events@.subrange(0, old(events)@.len() as int) =~= old(events)@);
        }
        self.update_stars(dt, state, time_slow);
        proof {
            let shotseq = if spawned_bullets(player1, old(state).world.size).len() > 0
                && !old(state).world.player.is_dead && actions.shoot && old(self).shoot_timer.fires(
                (old(self).current_time + dt) as u64,
            ) {
                seq![Event::ShotFired]
            } else {
                Seq::<Event>::empty()
            };
            let enemyseq = if old(self).enemy_timer.fires((old(self).current_time + dt) as u64) {
                seq![Event::EnemySpawned]
            } else {
                Seq::<Event>::empty()
            };
            assert(events@ =~= old(events)@ + shotseq + enemyseq);
        }
    }

    /// Spawns and moves the enemies.
    ///
    /// When the spawn timer fires, a pose is sampled at random; a sample
    /// inside the player's grace circle is relocated onto the circle's
    /// boundary along its bearing from the player (and wrapped into the
    /// world).  Every enemy — the new one included — then moves: while
    /// the player lives it steers towards the nearest toroidal image of
    /// the player and advances at the base speed (reduced under TimeSlow)
    /// plus the difficulty bonus; once the player is dead it drifts on
    /// along its last heading at the base speed.
    pub fn update_enemies(
        &mut self,
        dt: u64,
        state: &mut GameState,
        events: &mut Vec<Event>,
        time_slow: bool,
        rng: &mut rand::rngs::StdRng,
    )
        requires
            controller_wf(*old(self)),
            state_wf(*old(state)),
            dt <= MAX_DT,
        ensures
            controller_wf(*final(self)),
            state_wf(*final(state)),
            final(self).current_time == old(self).current_time,
            final(self).trail_timer == old(self).trail_timer,
            final(self).shoot_timer == old(self).shoot_timer,
            final(self).powerup_timer == old(self).powerup_timer,
            final(self).scheduled_timeouts == old(self).scheduled_timeouts,
            final(self).enemy_timer == old(self).enemy_timer.stepped(old(self).current_time),
            ({
                let fired = old(self).enemy_timer.fires(old(self).current_time);
                let n = old(state).world.enemies@.len() as int;
                let units = enemy_units(
                    dt as int,
                    time_slow,
                    old(state).difficulty as int,
                    old(state).world.player.is_dead,
                );
                &&& final(state).world.enemies@.len() == n + if fired {
                    1int
                } else {
                    0int
                }
                &&& final(events)@ == old(events)@ + if fired {
                    seq![Event::EnemySpawned]
                } else {
                    Seq::<Event>::empty()
                }
                &&& forall|i: int|
                    0 <= i < n ==> #[trigger] final(state).world.enemies@[i] == spec_moved_enemy(
                        old(state).world.enemies@[i],
                        units,
                        old(state).world.player.vector.position,
                        old(state).world.size,
                        !old(state).world.player.is_dead,
                    )
                &&& fired ==> exists|v: Vector|
                    {
                        &&& #[trigger] spawn_clear_of_grace(
                            v.position,
                            old(state).world.player.vector.position,
                            old(state).world.size,
                        )
                        &&& vector_wf(v, old(state).world.size)
                        &&& final(state).world.enemies@[n] == spec_moved_enemy(
                            Enemy { vector: v },
                            units,
                            old(state).world.player.vector.position,
                            old(state).world.size,
                            !old(state).world.player.is_dead,
                        )
                    }
            }),
            final(state).score == old(state).score,
            final(state).difficulty == old(state).difficulty,
            final(state).message == old(state).message,
            final(state).world.size == old(state).world.size,
            final(state).world.player == old(state).world.player,
            final(state).world.particles == old(state).world.particles,
            final(state).world.powerups == old(state).world.powerups,
            final(state).world.bullets == old(state).world.bullets,
            final(state).world.stars == old(state).world.stars,
    {
        let size = state.world.size;
        let player_pos = state.world.player.position();
        if self.enemy_timer.update(self.current_time) {
            let mut pose = Vector::random(rng, &size);
            if pose.position.x == player_pos.x && pose.position.y == player_pos.y {
                // an enemy exactly on top of the player has no bearing to
                // be pushed along; nudge it one grid step aside
                let ghost before = pose.position.x as int;
                pose.position.x = crate::geometry::wrap_coord(pose.position.x + 1, size.width);
                proof {
                    if before + 1 < size.width {
                        vstd::arithmetic::div_mod::lemma_small_mod(
                            (before + 1) as nat,
                            size.width as nat,
                        );
                    } else {
                        vstd::arithmetic::div_mod::lemma_mod_self_0(size.width as int);
                    }
                    assert(pose.position.x != player_pos.x);
                }
            }
            if pose.position.intersect_circle(&player_pos, PLAYER_GRACE_AREA) {
                let relocated = relocate_spawn(player_pos, pose.position);
                pose.position.x = crate::geometry::wrap_coord(relocated.x, size.width);
                pose.position.y = crate::geometry::wrap_coord(relocated.y, size.height);
                proof {
                    assert(spawn_clear_of_grace(pose.position, player_pos, size)) by {
                        assert(sq_dist(relocated, player_pos) >= 200_000 * 200_000);
                    }
                }
            } else {
                proof {
                    assert(spawn_clear_of_grace(pose.position, player_pos, size)) by {
                        vstd::arithmetic::div_mod::lemma_small_mod(
                            pose.position.x as nat,
                            size.width as nat,
                        );
                        vstd::arithmetic::div_mod::lemma_small_mod(
                            pose.position.y as nat,
                            size.height as nat,
                        );
                        assert(pose.position.x == wrapped(pose.position.x as int, size.width as int)
                            && pose.position.y == wrapped(
                            pose.position.y as int,
                            size.height as int,
                        ) && sq_dist(pose.position, player_pos) >= 200_000 * 200_000);
                    }
                }
            }
            state.world.enemies.push(Enemy::new(pose));
            events.push(Event::EnemySpawned);
            proof {
                let last = state.world.enemies@.len() - 1;
                assert(spawn_clear_of_grace(
                    state.world.enemies@[last].vector.position,
                    player_pos,
                    size,
                ));
            }
        }
        let alive = !state.world.player.is_dead;
        let bonus = {
            proof {
                vstd::arithmetic::div_mod::lemma_div_pos_is_pos(state.difficulty as int, 1000int);
                vstd::arithmetic::div_mod::lemma_div_is_ordered(
                    state.difficulty as int,
                    DIFFICULTY_CAP as int,
                    1000int,
                );
            }
            (state.difficulty / 1000) as i64
        };
        let units: i64 = if alive {
            if time_slow {
                25 * (dt as i64) + bonus
            } else {
                100 * (dt as i64) + bonus
            }
        } else {
            100 * (dt as i64)
        };
        let ghost pool = state.world.enemies@;
        let mut i: usize = 0;
        while i < state.world.enemies.len()
            invariant
                size_wf(size),
                size == state.world.size,
                0 <= units <= MAX_UNITS,
                units == enemy_units(
                    dt as int,
                    time_slow,
                    old(state).difficulty as int,
                    old(state).world.player.is_dead,
                ),
                alive == !old(state).world.player.is_dead,
                point_in(player_pos, size),
                player_pos == old(state).world.player.vector.position,
                i <= pool.len(),
                state.world.enemies@.len() == pool.len(),
                state.score == old(state).score,
                state.difficulty == old(state).difficulty,
                state.message == old(state).message,
                state.world.size == old(state).world.size,
                state.world.player == old(state).world.player,
                state.world.particles == old(state).world.particles,
                state.world.powerups == old(state).world.powerups,
                state.world.bullets == old(state).world.bullets,
                state.world.stars == old(state).world.stars,
                state_wf(*old(state)),
                forall|k: int|
                    i <= k < pool.len() ==> #[trigger] state.world.enemies@[k] == pool[k],
                forall|k: int|
                    0 <= k < i ==> #[trigger] state.world.enemies@[k] == spec_moved_enemy(
                        pool[k],
                        units as int,
                        player_pos,
                        size,
                        alive,
                    ),
                forall|k: int|
                    0 <= k < pool.len() ==> vector_wf(#[trigger] pool[k].vector, size),
                forall|k: int|
                    0 <= k < state.world.enemies@.len() ==> vector_wf(
                        #[trigger] state.world.enemies@[k].vector,
                        size,
                    ),
            decreases pool.len() - i,
        {
            let e = &mut state.world.enemies[i];
            if alive {
                e.update(units, player_pos, &size);
            } else {
                e.advance(units, &size);
            }
            i = i + 1;
        }
        proof {
            if old(self).enemy_timer.fires(old(self).current_time) {
                let n = old(state).world.enemies@.len() as int;
                let v = pool[n].vector;
                assert(pool[n] == (Enemy { vector: v }));
                assert(exists|v2: Vector|
                    {
                        &&& #[trigger] spawn_clear_of_grace(
                            v2.position,
                            old(state).world.player.vector.position,
                            old(state).world.size,
                        )
                        &&& vector_wf(v2, old(state).world.size)
                        &&& state.world.enemies@[n] == spec_moved_enemy(
                            Enemy { vector: v2 },
                            enemy_units(
                                dt as int,
                                time_slow,
                                old(state).difficulty as int,
                                old(state).world.player.is_dead,
                            ),
                            old(state).world.player.vector.position,
                            old(state).world.size,
                            !old(state).world.player.is_dead,
                        )
                    }) by {
                    assert(spawn_clear_of_grace(
                        v.position,
                        old(state).world.player.vector.position,
                        old(state).world.size,
                    ));
                    assert(vector_wf(v, old(state).world.size));
                    assert(state.world.enemies@[n] == spec_moved_enemy(
                        Enemy { vector: v },
                        enemy_units(
                            dt as int,
                            time_slow,
                            old(state).difficulty as int,
                            old(state).world.player.is_dead,
                        ),
                        old(state).world.player.vector.position,
                        old(state).world.size,
                        !old(state).world.player.is_dead,
                    ));
                }
            }
        }
    }

    /// Handles the shoot action and moves the bullets.
    ///
    /// While the player lives and holds the shoot action, each firing of
    /// the shoot timer spawns one bullet from the player's nose along its
    /// heading — or, with the TripleShot powerup, three bullets at
    /// headings offset by minus thirty, zero and plus thirty degrees.  A
    /// normal shot heats the gun and is withheld while the gun is
    /// overheated; TripleShot bypasses the gun entirely.  Every bullet
    /// (the new ones included) then advances by the bullet speed, and
    /// bullets that exhaust their travel budget are removed.
    pub fn update_bullets(
        &mut self,
        dt: u64,
        actions: &Actions,
        state: &mut GameState,
        events: &mut Vec<Event>,
    )
        requires
            controller_wf(*old(self)),
            state_wf(*old(state)),
            dt <= MAX_DT,
        ensures
            controller_wf(*final(self)),
            state_wf(*final(state)),
            final(self).current_time == old(self).current_time,
            final(self).trail_timer == old(self).trail_timer,
            final(self).enemy_timer == old(self).enemy_timer,
            final(self).powerup_timer == old(self).powerup_timer,
            final(self).scheduled_timeouts == old(self).scheduled_timeouts,
            ({
                let shooting = !old(state).world.player.is_dead && actions.shoot;
                let fired = shooting && old(self).shoot_timer.fires(old(self).current_time);
                let spawned = if fired {
                    spawned_bullets(old(state).world.player, old(state).world.size)
                } else {
                    Seq::<Bullet>::empty()
                };
                &&& final(self).shoot_timer == if shooting {
                    old(self).shoot_timer.stepped(old(self).current_time)
                } else {
                    old(self).shoot_timer
                }
                &&& final(state).world.bullets@ == surviving_bullets(
                    old(state).world.bullets@ + spawned,
                    500 * dt as int,
                    old(state).world.size,
                )
                &&& final(events)@ == old(events)@ + if spawned.len() > 0 {
                    seq![Event::ShotFired]
                } else {
                    Seq::<Event>::empty()
                }
                &&& final(state).world.player.gun == if spawned.len() == 1 {
                    spec_heat_up(old(state).world.player.gun)
                } else {
                    old(state).world.player.gun
                }
            }),
            final(state).world.player.vector == old(state).world.player.vector,
            final(state).world.player.is_dead == old(state).world.player.is_dead,
            final(state).world.player.powerup == old(state).world.player.powerup,
            final(state).score == old(state).score,
            final(state).difficulty == old(state).difficulty,
            final(state).message == old(state).message,
            final(state).world.size == old(state).world.size,
            final(state).world.particles == old(state).world.particles,
            final(state).world.powerups == old(state).world.powerups,
            final(state).world.enemies == old(state).world.enemies,
            final(state).world.stars == old(state).world.stars,
    {
        let size = state.world.size;
        let ghost spawned_spec = spawned_bullets(old(state).world.player, old(state).world.size);
        if !state.world.player.is_dead && actions.shoot {
            if self.shoot_timer.update(self.current_time) {
                let pos = state.world.player.front();
                let dir = state.world.player.direction();
                let spawn_point = Point {
                    x: crate::geometry::wrap_coord(pos.x, size.width),
                    y: crate::geometry::wrap_coord(pos.y, size.height),
                };
                if matches!(state.world.player.powerup, Some(PowerupKind::TripleShot)) {
                    state.world.bullets.push(
                        Bullet::new(Vector::new(spawn_point, dir - 30_000)),
                    );
                    state.world.bullets.push(Bullet::new(Vector::new(spawn_point, dir)));
                    state.world.bullets.push(
                        Bullet::new(Vector::new(spawn_point, dir + 30_000)),
                    );
                    events.push(Event::ShotFired);
                    proof {
                        assert(state.world.bullets@ =~= old(state).world.bullets@ + spawned_spec);
                    }
                } else {
                    if state.world.player.gun.is_available() {
                        state.world.bullets.push(Bullet::new(Vector::new(spawn_point, dir)));
                        state.world.player.gun.heat_up();
                        events.push(Event::ShotFired);
                        proof {
                            assert(state.world.bullets@ =~= old(state).world.bullets@
                                + spawned_spec);
                        }
                    } else {
                        proof {
                            assert(state.world.bullets@ =~= old(state).world.bullets@
                                + Seq::<Bullet>::empty());
                        }
                    }
                }
            } else {
                proof {
                    assert(state.world.bullets@ =~= old(state).world.bullets@
                        + Seq::<Bullet>::empty());
                }
            }
        } else {
            proof {
                assert(state.world.bullets@ =~= old(state).world.bullets@
                    + Seq::<Bullet>::empty());
            }
        }
        let units = 500 * (dt as i64);
        let ghost pool = state.world.bullets@;
        let mut kept: Vec<Bullet> = Vec::new();
        proof {
            assert(pool.skip(0) =~= pool);
            assert(Seq::<Bullet>::empty() + surviving_bullets(pool, units as int, size)
                =~= surviving_bullets(pool, units as int, size));
        }
        let mut i: usize = 0;
        while i < state.world.bullets.len()
            invariant
                size_wf(size),
                0 <= units <= 30_000_000,
                pool == state.world.bullets@,
                forall|k: int| 0 <= k < pool.len() ==> bullet_wf(#[trigger] pool[k], size),
                i <= pool.len(),
                surviving_bullets(pool, units as int, size) == kept@ + surviving_bullets(
                    pool.skip(i as int),
                    units as int,
                    size,
                ),
                forall|k: int| 0 <= k < kept@.len() ==> bullet_wf(#[trigger] kept@[k], size),
            decreases pool.len() - i,
        {
            let mut b = state.world.bullets[i];
            b.update(units, &size);
            proof {
                assert(pool.skip(i as int).drop_first() =~= pool.skip(i as int + 1));
                assert(pool.skip(i as int)[0] == pool[i as int]);
                if b.distance_left > 0 {
                    assert((kept@ + seq![b]) + surviving_bullets(
                        pool.skip(i as int + 1),
                        units as int,
                        size,
                    ) =~= kept@ + surviving_bullets(pool.skip(i as int), units as int, size));
                }
            }
            if b.distance_left > 0 {
                kept.push(b);
            }
            i = i + 1;
        }
        proof {
            assert(pool.skip(pool.len() as int) =~= Seq::<Bullet>::empty());
            assert(kept@ + Seq::<Bullet>::empty() =~= kept@);
        }
        state.world.bullets = kept;
    }

    /// Ages, moves and culls the particles, and leaves a trail particle
    /// behind the living player when the trail timer fires.
    pub fn update_particles(&mut self, dt: u64, state: &mut GameState)
        requires
            controller_wf(*old(self)),
            state_wf(*old(state)),
            dt <= MAX_DT,
        ensures
            controller_wf(*final(self)),
            state_wf(*final(state)),
            final(self).current_time == old(self).current_time,
            final(self).shoot_timer == old(self).shoot_timer,
            final(self).enemy_timer == old(self).enemy_timer,
            final(self).powerup_timer == old(self).powerup_timer,
            final(self).scheduled_timeouts == old(self).scheduled_timeouts,
            final(self).trail_timer == if old(state).world.player.is_dead {
                old(self).trail_timer
            } else {
                old(self).trail_timer.stepped(old(self).current_time)
            },
            final(state).world.particles@ == surviving_particles(
                old(state).world.particles@,
                dt as int,
            ) + if !old(state).world.player.is_dead && old(self).trail_timer.fires(
                old(self).current_time,
            ) {
                seq![trail_particle(old(state).world.player)]
            } else {
                Seq::<Particle>::empty()
            },
            final(state).score == old(state).score,
            final(state).difficulty == old(state).difficulty,
            final(state).message == old(state).message,
            final(state).world.size == old(state).world.size,
            final(state).world.player == old(state).world.player,
            final(state).world.powerups == old(state).world.powerups,
            final(state).world.bullets == old(state).world.bullets,
            final(state).world.enemies == old(state).world.enemies,
            final(state).world.stars == old(state).world.stars,
    {
        let ghost orig = state.world.particles@;
        let mut kept: Vec<Particle> = Vec::new();
        proof {
            assert(orig.skip(0) =~= orig);
            assert(Seq::<Particle>::empty() + surviving_particles(orig, dt as int)
                =~= surviving_particles(orig, dt as int));
        }
        let mut i: usize = 0;
        while i < state.world.particles.len()
            invariant
                state_wf(*old(state)),
                state == old(state),
                dt <= MAX_DT,
                orig == state.world.particles@,
                i <= orig.len(),
                surviving_particles(orig, dt as int) == kept@ + surviving_particles(
                    orig.skip(i as int),
                    dt as int,
                ),
                forall|k: int| 0 <= k < kept@.len() ==> particle_wf(#[trigger] kept@[k]),
            decreases orig.len() - i,
        {
            let mut p = state.world.particles[i];
            p.update(dt);
            proof {
                assert(orig.skip(i as int).drop_first() =~= orig.skip(i as int + 1));
                assert(orig.skip(i as int)[0] == orig[i as int]);
                if p.ttl > 0 {
                    assert(surviving_particles(orig.skip(i as int), dt as int) == seq![p]
                        + surviving_particles(orig.skip(i as int + 1), dt as int));
                    assert((kept@ + seq![p]) + surviving_particles(orig.skip(i as int + 1), dt as int)
                        =~= kept@ + surviving_particles(orig.skip(i as int), dt as int));
                }
            }
            if p.ttl > 0 {
                kept.push(p);
            }
            i = i + 1;
        }
        proof {
            assert(orig.skip(orig.len() as int) =~= Seq::<Particle>::empty());
            assert(kept@ + Seq::<Particle>::empty() =~= kept@);
        }
        state.world.particles = kept;
        if !state.world.player.is_dead {
            if self.trail_timer.update(self.current_time) {
                let pose = state.world.player.vector.invert();
                let particle = Particle::new(pose, TRAIL_TTL);
                state.world.particles.push(particle);
                proof {
                    assert(state.world.particles@ =~= surviving_particles(orig, dt as int) + seq![
                        trail_particle(old(state).world.player),
                    ]);
                }
            } else {
                proof {
                    assert(state.world.particles@ =~= surviving_particles(orig, dt as int)
                        + Seq::<Particle>::empty());
                }
            }
        } else {
            proof {
                assert(state.world.particles@ =~= surviving_particles(orig, dt as int)
                    + Seq::<Particle>::empty());
            }
        }
    }

    /// Ages the powerups, removes the expired ones, and spawns a fresh
    /// random powerup when the spawn timer fires.
    pub fn update_powerups(&mut self, dt: u64, state: &mut GameState, rng: &mut rand::rngs::StdRng)
        requires
            controller_wf(*old(self)),
            state_wf(*old(state)),
            dt <= MAX_DT,
        ensures
            controller_wf(*final(self)),
            state_wf(*final(state)),
            final(self).current_time == old(self).current_time,
            final(self).shoot_timer == old(self).shoot_timer,
            final(self).enemy_timer == old(self).enemy_timer,
            final(self).trail_timer == old(self).trail_timer,
            final(self).scheduled_timeouts == old(self).scheduled_timeouts,
            final(self).powerup_timer == old(self).powerup_timer.stepped(old(self).current_time),
            ({
                let aged = surviving_powerups(old(state).world.powerups@, dt as int);
                if old(self).powerup_timer.fires(old(self).current_time) {
                    &&& final(state).world.powerups@.len() == aged.len() + 1
                    &&& final(state).world.powerups@.subrange(0, aged.len() as int) == aged
                    &&& powerup_wf(final(state).world.powerups@.last(), old(state).world.size)
                    &&& final(state).world.powerups@.last().ttl == 10_000
                } else {
                    final(state).world.powerups@ == aged
                }
            }),
            final(state).score == old(state).score,
            final(state).difficulty == old(state).difficulty,
            final(state).message == old(state).message,
            final(state).world.size == old(state).world.size,
            final(state).world.player == old(state).world.player,
            final(state).world.particles == old(state).world.particles,
            final(state).world.bullets == old(state).world.bullets,
            final(state).world.enemies == old(state).world.enemies,
            final(state).world.stars == old(state).world.stars,
    {
        let ghost orig = state.world.powerups@;
        let mut kept: Vec<Powerup> = Vec::new();
        proof {
            assert(orig.skip(0) =~= orig);
            assert(Seq::<Powerup>::empty() + surviving_powerups(orig, dt as int)
                =~= surviving_powerups(orig, dt as int));
        }
        let mut i: usize = 0;
        while i < state.world.powerups.len()
            invariant
                state_wf(*old(state)),
                state == old(state),
                dt <= MAX_DT,
                orig == state.world.powerups@,
                i <= orig.len(),
                surviving_powerups(orig, dt as int) == kept@ + surviving_powerups(
                    orig.skip(i as int),
                    dt as int,
                ),
                forall|k: int|
                    0 <= k < kept@.len() ==> powerup_wf(#[trigger] kept@[k], old(state).world.size),
            decreases orig.len() - i,
        {
            let mut p = state.world.powerups[i];
            p.update(dt);
            proof {
                assert(orig.skip(i as int).drop_first() =~= orig.skip(i as int + 1));
                assert(orig.skip(i as int)[0] == orig[i as int]);
                if p.ttl > 0 {
                    assert((kept@ + seq![p]) + surviving_powerups(orig.skip(i as int + 1), dt as int)
                        =~= kept@ + surviving_powerups(orig.skip(i as int), dt as int));
                }
            }
            if p.ttl > 0 {
                kept.push(p);
            }
            i = i + 1;
        }
        proof {
            assert(orig.skip(orig.len() as int) =~= Seq::<Powerup>::empty());
            assert(kept@ + Seq::<Powerup>::empty() =~= kept@);
        }
        state.world.powerups = kept;
        if self.powerup_timer.update(self.current_time) {
            let size = state.world.size;
            let fresh = Powerup::random(rng, &size);
            state.world.powerups.push(fresh);
            proof {
                assert(state.world.powerups@.subrange(
                    0,
                    surviving_powerups(orig, dt as int).len() as int,
                ) =~= surviving_powerups(orig, dt as int));
            }
        }
    }

    /// Advances every star with wrap-around, at the global base rate
    /// scaled by each star's own speed factor.
    pub fn update_stars(&mut self, dt: u64, state: &mut GameState, time_slow: bool)
        requires
            state_wf(*old(state)),
            dt <= MAX_DT,
        ensures
            *final(self) == *old(self),
            state_wf(*final(state)),
            final(state).score == old(state).score,
            final(state).difficulty == old(state).difficulty,
            final(state).message == old(state).message,
            final(state).world.size == old(state).world.size,
            final(state).world.player == old(state).world.player,
            final(state).world.particles == old(state).world.particles,
            final(state).world.powerups == old(state).world.powerups,
            final(state).world.bullets == old(state).world.bullets,
            final(state).world.enemies == old(state).world.enemies,
            final(state).world.stars@.len() == old(state).world.stars@.len(),
            forall|i: int|
                0 <= i < old(state).world.stars@.len() ==> #[trigger] final(state).world.stars@[i]
                    == spec_moved_star(
                    old(state).world.stars@[i],
                    dt as int,
                    time_slow,
                    old(state).world.size,
                ),
    {
        let base: i64 = if time_slow {
            STAR_TIME_SLOW_SPEED
        } else {
            STAR_BASE_SPEED
        };
        let size = state.world.size;
        let mut i: usize = 0;
        while i < state.world.stars.len()
            invariant
                size == state.world.size,
                size_wf(size),
                dt <= MAX_DT,
                base == if time_slow {
                    STAR_TIME_SLOW_SPEED
                } else {
                    STAR_BASE_SPEED
                },
                i <= state.world.stars@.len(),
                state.world.stars@.len() == old(state).world.stars@.len(),
                state.score == old(state).score,
                state.difficulty == old(state).difficulty,
                state.message == old(state).message,
                state.world.size == old(state).world.size,
                state.world.player == old(state).world.player,
                state.world.particles == old(state).world.particles,
                state.world.powerups == old(state).world.powerups,
                state.world.bullets == old(state).world.bullets,
                state.world.enemies == old(state).world.enemies,
                state_wf(*old(state)),
                forall|k: int|
                    i <= k < old(state).world.stars@.len() ==> #[trigger] state.world.stars@[k]
                        == old(state).world.stars@[k],
                forall|k: int|
                    0 <= k < i ==> #[trigger] state.world.stars@[k] == spec_moved_star(
                        old(state).world.stars@[k],
                        dt as int,
                        time_slow,
                        size,
                    ),
                forall|k: int|
                    0 <= k < state.world.stars@.len() ==> star_wf(
                        #[trigger] state.world.stars@[k],
                        size,
                    ),
            decreases state.world.stars@.len() - i,
        {
            let speed = state.world.stars[i].speed;
            proof {
                assert(0 <= (dt as i64) * base <= 3_000_000_000i64) by (nonlinear_arith)
                    requires 0 <= dt <= 60_000 && 0 <= base <= 50_000;
                assert(0 <= (dt as i64) * base * speed <= 9_000_000_000_000i64)
                    by (nonlinear_arith)
                    requires 0 <= (dt as i64) * base <= 3_000_000_000i64 && 0 <= speed < 3000;
                vstd::arithmetic::div_mod::lemma_div_pos_is_pos(
                    ((dt as i64) * base * speed) as int,
                    1_000_000int,
                );
                vstd::arithmetic::div_mod::lemma_div_is_ordered(
                    ((dt as i64) * base * speed) as int,
                    9_000_000_000_000int,
                    1_000_000int,
                );
            }
            let units = ((dt as i64) * base * speed) / 1_000_000;
            let star = &mut state.world.stars[i];
            star.vector.advance_wrapping(units, &size);
            i = i + 1;
        }
    }
}

/// A living player after one tick of steering: left rotation takes
/// precedence over right, boosting doubles the advance, the position
/// wraps at the world bounds and the gun cools; death and powerup are
/// untouched.
pub open spec fn spec_player_step(p: Player, dt: int, actions: Actions, s: Size) -> Player {
    let dir = if actions.rotate_left {
        norm_angle(p.vector.direction - 360 * dt)
    } else if actions.rotate_right {
        norm_angle(p.vector.direction + 360 * dt)
    } else {
        p.vector.direction as int
    };
    let units = if actions.boost {
        400 * dt
    } else {
        200 * dt
    };
    Player {
        vector: Vector {
            position: Point {
                x: wrapped(
                    p.vector.position.x + scale_trig(units, cos_mdeg(dir)),
                    s.width as int,
                ) as i64,
                y: wrapped(
                    p.vector.position.y + scale_trig(units, sin_mdeg(dir)),
                    s.height as int,
                ) as i64,
            },
            direction: dir as i64,
        },
        is_dead: p.is_dead,
        powerup: p.powerup,
        gun: spec_cool_down(p.gun, dt),
    }
}

/// Division rounding away from zero.
pub open spec fn div_away(a: int, l: int) -> int {
    if a >= 0 {
        (a + l - 1) / l
    } else {
        -(((-a) + l - 1) / l)
    }
}

/// Where an enemy sampled strictly inside the player's grace circle is
/// relocated: pushed outward from the player along its bearing, onto the
/// boundary of the grace circle, at the resolution the fixed-point grid
/// allows and rounding away from the player.
pub open spec fn spec_grace_projection(c: Point, p: Point) -> Point {
    let dx = (p.x - c.x) * 1024;
    let dy = (p.y - c.y) * 1024;
    let l = crate::trig::spec_isqrt(dx * dx + dy * dy);
    Point {
        x: (c.x + div_away(200_000 * dx, l)) as i64,
        y: (c.y + div_away(200_000 * dy, l)) as i64,
    }
}

fn div_away_exec(a: i64, l: i64) -> (r: i64)
    requires
        1 <= l <= 1_000_000_000,
        -100_000_000_000_000 <= a <= 100_000_000_000_000,
    ensures
        r == div_away(a as int, l as int),
        a > 0 ==> r >= 1,
        a == 0 ==> r == 0,
        a < 0 ==> r <= -1,
{
    proof {
        vstd::arithmetic::div_mod::lemma_basic_div((l - 1) as int, l as int);
        if a > 0 {
            vstd::arithmetic::div_mod::lemma_div_is_ordered(
                l as int,
                (a + l - 1) as int,
                l as int,
            );
            vstd::arithmetic::div_mod::lemma_div_multiples_vanish(1int, l as int);
        }
        if a < 0 {
            vstd::arithmetic::div_mod::lemma_div_is_ordered(
                l as int,
                ((-a) + l - 1) as int,
                l as int,
            );
            vstd::arithmetic::div_mod::lemma_div_multiples_vanish(1int, l as int);
        }
    }
    if a >= 0 {
        (a + (l - 1)) / l
    } else {
        -(((-a) + (l - 1)) / l)
    }
}

/// Relocates a pose sampled strictly inside the player's grace circle
/// onto the circle's boundary, along the sample's bearing from the
/// player: each coordinate moves away from the player to the scaled
/// offset, so the result keeps the sample's side of the player on both
/// axes and lies within the grace radius of the player on each axis.
pub fn relocate_spawn(center: Point, sample: Point) -> (r: Point)
    requires
        sample != center,
        -MAX_DIM <= center.x <= MAX_DIM,
        -MAX_DIM <= center.y <= MAX_DIM,
        -MAX_DIM <= sample.x <= MAX_DIM,
        -MAX_DIM <= sample.y <= MAX_DIM,
        sq_dist(sample, center) < 200_000 * 200_000,
    ensures
        r == spec_grace_projection(center, sample),
        sample.x > center.x ==> r.x > center.x,
        sample.x == center.x ==> r.x == center.x,
        sample.x < center.x ==> r.x < center.x,
        sample.y > center.y ==> r.y > center.y,
        sample.y == center.y ==> r.y == center.y,
        sample.y < center.y ==> r.y < center.y,
        center.x - 200_000 <= r.x <= center.x + 200_000,
        center.y - 200_000 <= r.y <= center.y + 200_000,
        sq_dist(r, center) >= 200_000 * 200_000,
        sq_dist(r, center) < 200_295 * 200_295,
{
    proof {
        assert((sample.x - center.x) * (sample.x - center.x) < 200_000int * 200_000
            && (sample.y - center.y) * (sample.y - center.y) < 200_000int * 200_000)
            by (nonlinear_arith)
            requires sq_dist(sample, center) < 200_000int * 200_000;
        assert(-200_000 <= sample.x - center.x <= 200_000 && -200_000 <= sample.y - center.y
            <= 200_000) by (nonlinear_arith)
            requires (sample.x - center.x) * (sample.x - center.x) < 200_000int * 200_000
                && (sample.y - center.y) * (sample.y - center.y) < 200_000int * 200_000;
    }
    let dx = (sample.x - center.x) * 1024;
    let dy = (sample.y - center.y) * 1024;
    let ghost dxi = dx as int;
    let ghost dyi = dy as int;
    proof {
        assert(sample.x != center.x ==> (dxi <= -1024 || dxi >= 1024)) by (nonlinear_arith)
            requires dxi == (sample.x - center.x) * 1024;
        assert(sample.y != center.y ==> (dyi <= -1024 || dyi >= 1024)) by (nonlinear_arith)
            requires dyi == (sample.y - center.y) * 1024;
        assert(0 <= dxi * dxi <= 204_800_000int * 204_800_000 && 0 <= dyi * dyi <= 204_800_000int
            * 204_800_000) by (nonlinear_arith)
            requires -204_800_000 <= dxi <= 204_800_000 && -204_800_000 <= dyi <= 204_800_000;
        assert(1_048_576 <= dxi * dxi + dyi * dyi) by (nonlinear_arith)
            requires
                (dxi <= -1024 || dxi >= 1024 || dyi <= -1024 || dyi >= 1024),
                0 <= dxi * dxi,
                0 <= dyi * dyi,
        ;
    }
    let n = (dx * dx + dy * dy) as u64;
    let l = crate::trig::isqrt(n);
    let ghost li = l as int;
    let ghost ni = n as int;
    proof {
        assert(li >= 1024 && li <= 300_000_000) by (nonlinear_arith)
            requires
                0 <= li,
                li * li <= ni < (li + 1) * (li + 1),
                1_048_576 <= ni <= 83_886_080_000_000_000int,
        ;
        assert(dxi * dxi <= ni && dyi * dyi <= ni);
        assert(-li <= dxi <= li && -li <= dyi <= li) by (nonlinear_arith)
            requires
                dxi * dxi <= ni < (li + 1) * (li + 1),
                dyi * dyi <= ni < (li + 1) * (li + 1),
                0 <= li,
        ;
        assert(-200_000 * li <= 200_000 * dxi <= 200_000 * li) by (nonlinear_arith)
            requires -li <= dxi <= li;
        assert(-200_000 * li <= 200_000 * dyi <= 200_000 * li) by (nonlinear_arith)
            requires -li <= dyi <= li;
    }
    let sx = div_away_exec(200_000 * dx, l as i64);
    let sy = div_away_exec(200_000 * dy, l as i64);
    proof {
        lemma_div_away_magnitude(200_000 * dx as int, l as int);
        lemma_div_away_magnitude(200_000 * dy as int, l as int);
        // the relocated point is not strictly inside the grace circle:
        // each scaled offset is rounded away from the player, so the
        // squared offsets dominate the exactly projected ones
        let sxi = div_away(200_000 * dxi, li);
        let syi = div_away(200_000 * dyi, li);
        lemma_div_away_scales(200_000 * dxi, li);
        lemma_div_away_scales(200_000 * dyi, li);
        assert((sxi * li) * (sxi * li) >= (200_000 * dxi) * (200_000 * dxi))
            by (nonlinear_arith)
            requires (200_000 * dxi >= 0 && sxi * li >= 200_000 * dxi) || (200_000 * dxi < 0
                && sxi * li <= 200_000 * dxi);
        assert((syi * li) * (syi * li) >= (200_000 * dyi) * (200_000 * dyi))
            by (nonlinear_arith)
            requires (200_000 * dyi >= 0 && syi * li >= 200_000 * dyi) || (200_000 * dyi < 0
                && syi * li <= 200_000 * dyi);
        assert((sxi * sxi + syi * syi) * (li * li) >= 40_000_000_000 * (dxi * dxi + dyi * dyi))
            by (nonlinear_arith)
            requires
                (sxi * li) * (sxi * li) >= (200_000 * dxi) * (200_000 * dxi),
                (syi * li) * (syi * li) >= (200_000 * dyi) * (200_000 * dyi),
        ;
        assert(sxi * sxi + syi * syi >= 40_000_000_000) by (nonlinear_arith)
            requires
                (sxi * sxi + syi * syi) * (li * li) >= 40_000_000_000 * (dxi * dxi + dyi * dyi),
                dxi * dxi + dyi * dyi >= li * li,
                li >= 1,
        ;
        // and it lands at most a fraction of a unit beyond the boundary:
        // each offset overshoots the exact projection by less than one
        // denominator
        assert((sxi * li) * (sxi * li) <= (200_000 * dxi) * (200_000 * dxi) + 400_000 * (li * li)
            + li * li) by (nonlinear_arith)
            requires
                (200_000 * dxi >= 0 && 200_000 * dxi <= sxi * li <= 200_000 * dxi + li) || (
                200_000 * dxi < 0 && 200_000 * dxi - li <= sxi * li <= 200_000 * dxi),
                -200_000 * li <= 200_000 * dxi <= 200_000 * li,
                li >= 1,
        ;
        assert((syi * li) * (syi * li) <= (200_000 * dyi) * (200_000 * dyi) + 400_000 * (li * li)
            + li * li) by (nonlinear_arith)
            requires
                (200_000 * dyi >= 0 && 200_000 * dyi <= syi * li <= 200_000 * dyi + li) || (
                200_000 * dyi < 0 && 200_000 * dyi - li <= syi * li <= 200_000 * dyi),
                -200_000 * li <= 200_000 * dyi <= 200_000 * li,
                li >= 1,
        ;
        assert((sxi * sxi + syi * syi) * (li * li) <= 40_000_000_000 * (dxi * dxi + dyi * dyi)
            + 800_002 * (li * li)) by (nonlinear_arith)
            requires
                (sxi * li) * (sxi * li) <= (200_000 * dxi) * (200_000 * dxi) + 400_000 * (li * li)
                    + li * li,
                (syi * li) * (syi * li) <= (200_000 * dyi) * (200_000 * dyi) + 400_000 * (li * li)
                    + li * li,
        ;
        assert(dxi * dxi + dyi * dyi <= li * li + 3 * li) by (nonlinear_arith)
            requires
                dxi * dxi + dyi * dyi < (li + 1) * (li + 1),
                li >= 1,
        ;
        assert(sxi * sxi + syi * syi <= 40_117_987_502) by (nonlinear_arith)
            requires
                (sxi * sxi + syi * syi) * (li * li) <= 40_000_000_000 * (dxi * dxi + dyi * dyi)
                    + 800_002 * (li * li),
                dxi * dxi + dyi * dyi <= li * li + 3 * li,
                li >= 1024,
        ;
        assert(40_117_987_502 < 200_295int * 200_295) by (nonlinear_arith);
    }
    Point { x: center.x + sx, y: center.y + sy }
}

/// Away-rounding brackets the scaled quotient within one denominator.
proof fn lemma_div_away_scales(a: int, l: int)
    requires
        1 <= l,
    ensures
        a >= 0 ==> a <= div_away(a, l) * l <= a + l - 1,
        a < 0 ==> a - l + 1 <= div_away(a, l) * l <= a,
{
    if a >= 0 {
        let q = (a + l - 1) / l;
        vstd::arithmetic::div_mod::lemma_fundamental_div_mod(a + l - 1, l);
        vstd::arithmetic::div_mod::lemma_mod_bound(a + l - 1, l);
        assert(l * q == a + l - 1 - (a + l - 1) % l);
        assert(q * l == l * q) by (nonlinear_arith);
    } else {
        let b = -a;
        let q = (b + l - 1) / l;
        vstd::arithmetic::div_mod::lemma_fundamental_div_mod(b + l - 1, l);
        vstd::arithmetic::div_mod::lemma_mod_bound(b + l - 1, l);
        assert(l * q == b + l - 1 - (b + l - 1) % l);
        assert(b <= l * q <= b + l - 1);
        assert((-q) * l == -(l * q)) by (nonlinear_arith);
    }
}

/// An away-rounded quotient of a numerator within 200 000 denominators
/// stays within 200 000.
proof fn lemma_div_away_magnitude(a: int, l: int)
    requires
        1 <= l,
        -200_000 * l <= a <= 200_000 * l,
    ensures
        -200_000 <= div_away(a, l) <= 200_000,
{
    vstd::arithmetic::div_mod::lemma_div_pos_is_pos(l - 1, l);
    if a >= 0 {
        vstd::arithmetic::div_mod::lemma_div_is_ordered(a + l - 1, 200_000 * l + l - 1, l);
        vstd::arithmetic::div_mod::lemma_div_multiples_vanish_fancy(200_000, l - 1, l);
        vstd::arithmetic::div_mod::lemma_div_pos_is_pos(a + l - 1, l);
    } else {
        vstd::arithmetic::div_mod::lemma_div_is_ordered((-a) + l - 1, 200_000 * l + l - 1, l);
        vstd::arithmetic::div_mod::lemma_div_multiples_vanish_fancy(200_000, l - 1, l);
        vstd::arithmetic::div_mod::lemma_div_pos_is_pos((-a) + l - 1, l);
    }
}

/// An acceptable enemy spawn position: up to world wrap, it does not lie
/// strictly inside the player's grace circle.
pub open spec fn spawn_clear_of_grace(pos: Point, player_pos: Point, s: Size) -> bool {
    exists|q: Point|
        {
            &&& pos.x == wrapped(q.x as int, s.width as int)
            &&& pos.y == wrapped(q.y as int, s.height as int)
            &&& #[trigger] sq_dist(q, player_pos) >= 200_000 * 200_000
        }
}

/// The distance an enemy covers in a tick, in milli-units.
pub open spec fn enemy_units(dt: int, time_slow: bool, difficulty: int, dead: bool) -> int {
    if dead {
        100 * dt
    } else if time_slow {
        25 * dt + difficulty / 1000
    } else {
        100 * dt + difficulty / 1000
    }
}

/// An enemy after one tick: while the player lives it turns towards the
/// nearest toroidal image of the player, then advances with wrap-around.
pub open spec fn spec_moved_enemy(
    e: Enemy,
    units: int,
    player_pos: Point,
    s: Size,
    alive: bool,
) -> Enemy {
    let dir = if alive {
        let target = spec_nearest_position(e.vector.position, player_pos, s);
        if target == e.vector.position {
            e.vector.direction as int
        } else {
            angle_of(target.x - e.vector.position.x, target.y - e.vector.position.y)
        }
    } else {
        e.vector.direction as int
    };
    Enemy {
        vector: Vector {
            position: Point {
                x: wrapped(
                    e.vector.position.x + scale_trig(units, cos_mdeg(dir)),
                    s.width as int,
                ) as i64,
                y: wrapped(
                    e.vector.position.y + scale_trig(units, sin_mdeg(dir)),
                    s.height as int,
                ) as i64,
            },
            direction: dir as i64,
        },
    }
}

/// A bullet after one tick: advanced along its heading with wrap-around,
/// its travel budget reduced by the distance covered.
pub open spec fn spec_moved_bullet(b: Bullet, units: int, s: Size) -> Bullet {
    Bullet {
        vector: Vector {
            position: Point {
                x: wrapped(
                    b.vector.position.x + scale_trig(units, cos_mdeg(b.vector.direction as int)),
                    s.width as int,
                ) as i64,
                y: wrapped(
                    b.vector.position.y + scale_trig(units, sin_mdeg(b.vector.direction as int)),
                    s.height as int,
                ) as i64,
            },
            direction: b.vector.direction,
        },
        distance_left: (b.distance_left - units) as i64,
    }
}

/// The bullets still in flight after a tick, each advanced, in their
/// original order.
pub open spec fn surviving_bullets(bs: Seq<Bullet>, units: int, s: Size) -> Seq<Bullet>
    decreases bs.len(),
{
    if bs.len() == 0 {
        Seq::empty()
    } else {
        let m = spec_moved_bullet(bs[0], units, s);
        let rest = surviving_bullets(bs.drop_first(), units, s);
        if m.distance_left > 0 {
            seq![m] + rest
        } else {
            rest
        }
    }
}

/// A fresh bullet leaving the player's nose, its heading offset from the
/// player's by `off` millidegrees, its position wrapped into the world.
pub open spec fn bullet_at(p: Player, s: Size, off: int) -> Bullet {
    Bullet {
        vector: Vector {
            position: Point {
                x: wrapped(spec_front(p).x as int, s.width as int) as i64,
                y: wrapped(spec_front(p).y as int, s.height as int) as i64,
            },
            direction: norm_angle(p.vector.direction + off) as i64,
        },
        distance_left: BULLET_DISTANCE,
    }
}

/// The bullets one firing of the shoot timer produces: three at spread
/// headings under TripleShot, one otherwise, and none while the gun is
/// overheated.
pub open spec fn spawned_bullets(p: Player, s: Size) -> Seq<Bullet> {
    if p.powerup == Some(PowerupKind::TripleShot) {
        seq![bullet_at(p, s, -30_000), bullet_at(p, s, 0), bullet_at(p, s, 30_000)]
    } else if !p.gun.overheated {
        seq![bullet_at(p, s, 0)]
    } else {
        Seq::empty()
    }
}

/// A particle after one tick of aging and movement.
pub open spec fn spec_aged_particle(p: Particle, dt: int) -> Particle {
    let ttl = p.ttl - dt;
    if ttl > 0 {
        let units = (dt * crate::particle::particle_speed(ttl)) / 1000;
        Particle {
            vector: Vector {
                position: Point {
                    x: (p.vector.position.x + scale_trig(
                        units,
                        cos_mdeg(p.vector.direction as int),
                    )) as i64,
                    y: (p.vector.position.y + scale_trig(
                        units,
                        sin_mdeg(p.vector.direction as int),
                    )) as i64,
                },
                direction: p.vector.direction,
            },
            ttl: ttl as i64,
        }
    } else {
        Particle { vector: p.vector, ttl: ttl as i64 }
    }
}

/// The particles still alive after a tick, each aged and moved, in their
/// original order.
pub open spec fn surviving_particles(ps: Seq<Particle>, dt: int) -> Seq<Particle>
    decreases ps.len(),
{
    if ps.len() == 0 {
        Seq::empty()
    } else {
        let a = spec_aged_particle(ps[0], dt);
        let rest = surviving_particles(ps.drop_first(), dt);
        if a.ttl > 0 {
            seq![a] + rest
        } else {
            rest
        }
    }
}

/// The trail particle left behind the player: its pose inverted, with the
/// trail lifetime.
pub open spec fn trail_particle(p: Player) -> Particle {
    Particle {
        vector: Vector {
            position: p.vector.position,
            direction: norm_angle(p.vector.direction + 180_000) as i64,
        },
        ttl: TRAIL_TTL,
    }
}

/// A powerup after one tick of aging.
pub open spec fn spec_aged_powerup(p: Powerup, dt: int) -> Powerup {
    Powerup {
        ttl: (p.ttl - dt) as i64,
        kind: p.kind,
        color: if p.color < 255 {
            (p.color + 1) as u8
        } else {
            0
        },
        position: p.position,
    }
}

/// The powerups still alive after a tick, each aged, in their original
/// order.
pub open spec fn surviving_powerups(ps: Seq<Powerup>, dt: int) -> Seq<Powerup>
    decreases ps.len(),
{
    if ps.len() == 0 {
        Seq::empty()
    } else {
        let a = spec_aged_powerup(ps[0], dt);
        let rest = surviving_powerups(ps.drop_first(), dt);
        if a.ttl > 0 {
            seq![a] + rest
        } else {
            rest
        }
    }
}

/// The distance a star covers in a tick, in milli-units.
pub open spec fn star_units(dt: int, time_slow: bool, speed: int) -> int {
    let base = if time_slow {
        20_000int
    } else {
        50_000int
    };
    (dt * base * speed) / 1_000_000
}

/// A star after one tick: advanced along its heading with wrap-around.
pub open spec fn spec_moved_star(st: Star, dt: int, time_slow: bool, s: Size) -> Star {
    let units = star_units(dt, time_slow, st.speed as int);
    Star {
        vector: Vector {
            position: Point {
                x: wrapped(
                    st.vector.position.x + scale_trig(units, cos_mdeg(st.vector.direction as int)),
                    s.width as int,
                ) as i64,
                y: wrapped(
                    st.vector.position.y + scale_trig(units, sin_mdeg(st.vector.direction as int)),
                    s.height as int,
                ) as i64,
            },
            direction: st.vector.direction,
        },
        speed: st.speed,
        size: st.size,
    }
}

} // verus!
