//! The collisions controller: the pairwise resolution pass run after each
//! tick.
//!
//! Bullets destroy enemies and earn score; the player picks up powerups;
//! an enemy reaching the player either consumes a shield (killing every
//! enemy near the player) or kills the player.

use vstd::prelude::*;
use crate::bullet::{Bullet, BULLET_RADIUS};
use crate::enemy::{Enemy, ENEMY_RADIUS};
use crate::events::Event;
use crate::game_state::{state_wf, GameState};
use crate::geometry::{circles_collide, point_in, sq_dist, vector_wf, Point};
use crate::particle::{particle_wf, Particle};
use crate::player::{Player, PLAYER_GRACE_AREA, PLAYER_RADIUS};
use crate::powerup::{Powerup, PowerupKind};
use crate::time_controller::{controller_wf, TimeController};
use crate::timeout_queue::{insert_sorted, Timeout};
use crate::util::{explosion_particle, make_explosion};

verus! {

/// Score earned for each enemy destroyed by a bullet.
pub const SCORE_PER_ENEMY: u32 = 10;

/// How long a picked-up powerup lasts, in milliseconds.
pub const POWERUP_DURATION: u64 = 10_000;

/// How long after the player's death the game-over screen appears, in
/// milliseconds.
pub const GAME_OVER_DELAY: u64 = 2_000;

/// Whether a bullet overlaps an enemy.
pub open spec fn bullet_hits_enemy(b: Bullet, e: Enemy) -> bool {
    circles_collide(e.vector.position, ENEMY_RADIUS as int, b.vector.position, BULLET_RADIUS as int)
}

/// The index of the first enemy at or after `k` that the bullet overlaps.
pub open spec fn first_hit_from(b: Bullet, es: Seq<Enemy>, k: int) -> Option<int>
    decreases es.len() - k,
{
    if k < 0 || k >= es.len() {
        None
    } else if bullet_hits_enemy(b, es[k]) {
        Some(k)
    } else {
        first_hit_from(b, es, k + 1)
    }
}

proof fn lemma_first_hit_skip_step(b: Bullet, es: Seq<Enemy>, lo: int, j: int)
    requires
        0 <= lo <= j <= es.len(),
        forall|k: int| lo <= k < j ==> !bullet_hits_enemy(b, #[trigger] es[k]),
    ensures
        first_hit_from(b, es, lo) == first_hit_from(b, es, j),
    decreases j - lo,
{
    if lo < j {
        lemma_first_hit_skip_step(b, es, lo + 1, j);
    }
}

/// The result of the bullet pass: the surviving bullets, the surviving
/// enemies, and the positions of the destroyed enemies, in the order the
/// kills happened.  Each bullet, in order, removes the first enemy it
/// overlaps (and itself); a bullet that overlaps no enemy survives.
pub open spec fn bullet_pass(bs: Seq<Bullet>, es: Seq<Enemy>) -> (Seq<Bullet>, Seq<Enemy>, Seq<
    Point,
>)
    decreases bs.len(),
{
    if bs.len() == 0 {
        (bs, es, Seq::empty())
    } else {
        match first_hit_from(bs[0], es, 0) {
            Some(j) => {
                let rec = bullet_pass(bs.drop_first(), es.remove(j));
                (rec.0, rec.1, seq![es[j].vector.position] + rec.2)
            },
            None => {
                let rec = bullet_pass(bs.drop_first(), es);
                (seq![bs[0]] + rec.0, rec.1, rec.2)
            },
        }
    }
}

/// The fixed burst of particles an explosion of the given intensity
/// leaves at a position.
pub open spec fn explosion_seq(p: Point, intensity: int) -> Seq<Particle> {
    Seq::new((30 * (intensity - 1)) as nat, |k: int| explosion_particle(p, intensity, k))
}

/// One explosion burst per position, concatenated in order.
pub open spec fn explosions_at(ps: Seq<Point>, intensity: int) -> Seq<Particle>
    decreases ps.len(),
{
    if ps.len() == 0 {
        Seq::empty()
    } else {
        explosion_seq(ps[0], intensity) + explosions_at(ps.drop_first(), intensity)
    }
}

proof fn lemma_explosions_snoc(ps: Seq<Point>, p: Point, intensity: int)
    ensures
        explosions_at(ps.push(p), intensity) == explosions_at(ps, intensity) + explosion_seq(
            p,
            intensity,
        ),
    decreases ps.len(),
{
    if ps.len() == 0 {
        assert(ps.push(p).drop_first() =~= Seq::<Point>::empty());
        assert(ps.push(p)[0] == p);
        assert(explosion_seq(p, intensity) + Seq::<Particle>::empty() =~= explosion_seq(
            p,
            intensity,
        ));
        assert(Seq::<Particle>::empty() + explosion_seq(p, intensity) =~= explosion_seq(
            p,
            intensity,
        ));
        assert(explosions_at(ps.push(p), intensity) == explosion_seq(ps.push(p)[0], intensity)
            + explosions_at(ps.push(p).drop_first(), intensity));
        assert(explosions_at(ps.push(p).drop_first(), intensity) == explosions_at(
            Seq::<Point>::empty(),
            intensity,
        ));
        assert(explosions_at(Seq::<Point>::empty(), intensity) == Seq::<Particle>::empty());
        assert(explosion_seq(ps.push(p)[0], intensity) == explosion_seq(p, intensity));
        assert(explosions_at(ps, intensity) == Seq::<Particle>::empty());
        assert(explosions_at(ps.push(p), intensity) =~= explosions_at(ps, intensity)
            + explosion_seq(p, intensity));
    } else {
        lemma_explosions_snoc(ps.drop_first(), p, intensity);
        assert(ps.push(p).drop_first() =~= ps.drop_first().push(p));
        assert(ps.push(p)[0] == ps[0]);
        assert(explosion_seq(ps[0], intensity) + (explosions_at(ps.drop_first(), intensity)
            + explosion_seq(p, intensity)) =~= (explosion_seq(ps[0], intensity) + explosions_at(
            ps.drop_first(),
            intensity,
        )) + explosion_seq(p, intensity));
    }
}

/// The index of the first powerup at or after `k` that the player
/// overlaps.
pub open spec fn first_powerup_from(pl: Player, ps: Seq<Powerup>, k: int) -> Option<int>
    decreases ps.len() - k,
{
    if k < 0 || k >= ps.len() {
        None
    } else if powerup_hits_player(ps[k], pl) {
        Some(k)
    } else {
        first_powerup_from(pl, ps, k + 1)
    }
}

/// Whether a powerup overlaps the player.
pub open spec fn powerup_hits_player(p: Powerup, pl: Player) -> bool {
    circles_collide(p.position, 2 * p.ttl as int, pl.vector.position, PLAYER_RADIUS as int)
}

proof fn lemma_first_powerup_skip(pl: Player, ps: Seq<Powerup>, lo: int, j: int)
    requires
        0 <= lo <= j <= ps.len(),
        forall|k: int| lo <= k < j ==> !powerup_hits_player(#[trigger] ps[k], pl),
    ensures
        first_powerup_from(pl, ps, lo) == first_powerup_from(pl, ps, j),
    decreases j - lo,
{
    if lo < j {
        lemma_first_powerup_skip(pl, ps, lo + 1, j);
    }
}

/// Whether an enemy overlaps the player.
pub open spec fn enemy_hits_player(e: Enemy, pl: Player) -> bool {
    circles_collide(pl.vector.position, PLAYER_RADIUS as int, e.vector.position, ENEMY_RADIUS as int)
}

/// Whether any enemy overlaps the player.
pub open spec fn some_enemy_hits(pl: Player, es: Seq<Enemy>) -> bool {
    exists|i: int| 0 <= i < es.len() && enemy_hits_player(#[trigger] es[i], pl)
}

/// Whether an enemy stands within the player's grace area.
pub open spec fn within_grace(e: Enemy, c: Point) -> bool {
    sq_dist(e.vector.position, c) < PLAYER_GRACE_AREA as int * PLAYER_GRACE_AREA as int
}

/// The enemies outside the grace area around `c`, in order.
pub open spec fn grace_survivors(es: Seq<Enemy>, c: Point) -> Seq<Enemy>
    decreases es.len(),
{
    if es.len() == 0 {
        Seq::empty()
    } else {
        let rest = grace_survivors(es.drop_first(), c);
        if within_grace(es[0], c) {
            rest
        } else {
            seq![es[0]] + rest
        }
    }
}

/// The positions of the enemies inside the grace area around `c`, in
/// order.
pub open spec fn grace_victims(es: Seq<Enemy>, c: Point) -> Seq<Point>
    decreases es.len(),
{
    if es.len() == 0 {
        Seq::empty()
    } else {
        let rest = grace_victims(es.drop_first(), c);
        if within_grace(es[0], c) {
            seq![es[0].vector.position] + rest
        } else {
            rest
        }
    }
}

/// The player after the powerup pick-up phase: holding the kind of the
/// first overlapping powerup, if it lives and one overlaps.
pub open spec fn after_powerup_phase(pl: Player, ps: Seq<Powerup>) -> Player {
    if !pl.is_dead && first_powerup_from(pl, ps, 0) is Some {
        let j = first_powerup_from(pl, ps, 0)->0;
        Player { powerup: Some(ps[j].kind), ..pl }
    } else {
        pl
    }
}

/// The collisions controller.
pub struct CollisionsController;

impl CollisionsController {
    /// Runs the collision-resolution pass for one tick, after the time
    /// controller's update.
    ///
    /// Bullets destroy the first enemy they overlap — both disappear, an
    /// explosion bursts, the score climbs, and an `EnemyDestroyed` event
    /// fires per kill.  The living player picks up the first overlapping
    /// powerup, which schedules its removal.  A living player overlapped
    /// by an enemy loses a Shield (destroying every enemy inside the
    /// grace area, without score) — or, without one, dies, which
    /// schedules the game-over screen.
    pub fn handle_collisions(
        state: &mut GameState,
        time_controller: &mut TimeController,
        events: &mut Vec<Event>,
    )
        requires
            state_wf(*old(state)),
            controller_wf(*old(time_controller)),
            old(state).score + 10 * old(state).world.enemies@.len() <= u32::MAX,
        ensures
            state_wf(*final(state)),
            controller_wf(*final(time_controller)),
            final(time_controller).current_time == old(time_controller).current_time,
            ({
                let pass = bullet_pass(old(state).world.bullets@, old(state).world.enemies@);
                let player1 = after_powerup_phase(
                    old(state).world.player,
                    old(state).world.powerups@,
                );
                let got_powerup = !old(state).world.player.is_dead && first_powerup_from(
                    old(state).world.player,
                    old(state).world.powerups@,
                    0,
                ) is Some;
                let collided = !player1.is_dead && some_enemy_hits(player1, pass.1);
                let shielded = collided && player1.powerup == Some(PowerupKind::Shield);
                let died = collided && player1.powerup != Some(PowerupKind::Shield);
                &&& final(state).score == old(state).score + 10 * pass.2.len()
                &&& final(state).world.bullets@ == pass.0
                &&& final(state).world.player.is_dead == (old(state).world.player.is_dead || died)
                &&& (shielded ==> final(state).world.player.powerup is None
                    && final(state).world.enemies@ == grace_survivors(
                    pass.1,
                    player1.vector.position,
                ))
                &&& (died ==> final(state).world.enemies@ == pass.1)
                &&& (!collided ==> final(state).world.enemies@ == pass.1
                    && final(state).world.player.powerup == player1.powerup)
                &&& final(state).world.player.vector == old(state).world.player.vector
                // powerups leave only by being picked up
                &&& final(state).world.powerups@ == if got_powerup {
                    old(state).world.powerups@.remove(
                        first_powerup_from(
                            old(state).world.player,
                            old(state).world.powerups@,
                            0,
                        )->0,
                    )
                } else {
                    old(state).world.powerups@
                }
                // an explosion burst per bullet kill, then the shield's
                // area bursts or the player's own
                &&& final(state).world.particles@ == old(state).world.particles@ + explosions_at(
                    pass.2,
                    10,
                ) + (if shielded {
                    explosions_at(grace_victims(pass.1, player1.vector.position), 10)
                } else if died {
                    explosion_seq(player1.vector.position, 16)
                } else {
                    Seq::<Particle>::empty()
                })
                // exactly one EnemyDestroyed per bullet kill, one
                // PowerupGained per pick-up, and the shield or death event
                &&& final(events)@ == old(events)@ + Seq::new(
                    pass.2.len(),
                    |i: int| Event::EnemyDestroyed,
                ) + (if got_powerup {
                    seq![Event::PowerupGained]
                } else {
                    Seq::<Event>::empty()
                }) + (if shielded {
                    seq![Event::EnemyDestroyed]
                } else if died {
                    seq![Event::PlayerDestroyed]
                } else {
                    Seq::<Event>::empty()
                })
                &&& final(time_controller).scheduled_timeouts.entries@ == ({
                    let q0 = old(time_controller).scheduled_timeouts.entries@;
                    let q1 = if got_powerup {
                        insert_sorted(
                            q0,
                            (
                                (old(time_controller).current_time + POWERUP_DURATION) as u64,
                                Timeout::RemovePowerup,
                            ),
                        )
                    } else {
                        q0
                    };
                    if died {
                        insert_sorted(
                            q1,
                            (
                                (old(time_controller).current_time + GAME_OVER_DELAY) as u64,
                                Timeout::ShowGameOverScreen,
                            ),
                        )
                    } else {
                        q1
                    }
                })
                &&& final(state).difficulty == old(state).difficulty
                &&& final(state).message == old(state).message
                &&& final(state).world.size == old(state).world.size
                &&& final(state).world.stars == old(state).world.stars
            }),
    {
        CollisionsController::handle_bullet_collisions(state, events);

        let ghost events_mid = events@;
        let got_powerup = CollisionsController::handle_powerup_collisions(state, events);
        if got_powerup {
            // powerups run out after POWERUP_DURATION milliseconds
            time_controller.schedule_timeout(POWERUP_DURATION, Timeout::RemovePowerup);
        }
        proof {
            assert(events@.subrange(0, events_mid.len() as int) =~= events_mid);
        }

        // if the player died, schedule the game-over screen, after which
        // the user will be able to restart
        let ghost events_mid2 = events@;
        let player_died = CollisionsController::handle_player_collisions(state, events);
        if player_died {
            time_controller.schedule_timeout(GAME_OVER_DELAY, Timeout::ShowGameOverScreen);
        }
        proof {
            assert(events@.subrange(0, events_mid2.len() as int) =~= events_mid2);
            assert(events@.subrange(0, old(events)@.len() as int) =~= old(events)@);
            let pass = bullet_pass(old(state).world.bullets@, old(state).world.enemies@);
            let player1 = after_powerup_phase(old(state).world.player, old(state).world.powerups@);
            let collided = !player1.is_dead && some_enemy_hits(player1, pass.1);
            let shielded = collided && player1.powerup == Some(PowerupKind::Shield);
            let died = collided && player1.powerup != Some(PowerupKind::Shield);
            assert(events@ =~= old(events)@ + Seq::new(
                pass.2.len(),
                |i: int| Event::EnemyDestroyed,
            ) + (if got_powerup {
                seq![Event::PowerupGained]
            } else {
                Seq::<Event>::empty()
            }) + (if shielded {
                seq![Event::EnemyDestroyed]
            } else if died {
                seq![Event::PlayerDestroyed]
            } else {
                Seq::<Event>::empty()
            }));
            assert(state.world.particles@ =~= old(state).world.particles@ + explosions_at(
                pass.2,
                10,
            ) + (if shielded {
                explosions_at(grace_victims(pass.1, player1.vector.position), 10)
            } else if died {
                explosion_seq(player1.vector.position, 16)
            } else {
                Seq::<Particle>::empty()
            }));
        }
    }

    /// Handles collisions between the bullets and the enemies.
    ///
    /// Each bullet, in order, removes the first enemy it overlaps and
    /// disappears with it, leaving an explosion at the enemy's position,
    /// earning the per-kill score, and emitting one `EnemyDestroyed`
    /// event per kill.
    pub fn handle_bullet_collisions(state: &mut GameState, events: &mut Vec<Event>)
        requires
            state_wf(*old(state)),
            old(state).score + 10 * old(state).world.enemies@.len() <= u32::MAX,
        ensures
            state_wf(*final(state)),
            ({
                let pass = bullet_pass(old(state).world.bullets@, old(state).world.enemies@);
                &&& final(state).world.bullets@ == pass.0
                &&& final(state).world.enemies@ == pass.1
                &&& final(state).world.particles@ == old(state).world.particles@ + explosions_at(
                    pass.2,
                    10,
                )
                &&& final(events)@ == old(events)@ + Seq::new(
                    pass.2.len(),
                    |i: int| Event::EnemyDestroyed,
                )
                &&& final(state).score == old(state).score + 10 * pass.2.len()
                &&& pass.2.len() + pass.1.len() == old(state).world.enemies@.len()
            }),
            final(state).world.player == old(state).world.player,
            final(state).difficulty == old(state).difficulty,
            final(state).message == old(state).message,
            final(state).world.size == old(state).world.size,
            final(state).world.powerups == old(state).world.powerups,
            final(state).world.stars == old(state).world.stars,
    {
        let ghost obullets = state.world.bullets@;
        let ghost oenemies = state.world.enemies@;
        let ghost oparticles = state.world.particles@;
        let ghost oevents = events@;
        let mut kept: Vec<Bullet> = Vec::new();
        let ghost mut kills: Seq<Point> = Seq::empty();
        proof {
            assert(obullets.skip(0) =~= obullets);
            assert(Seq::<Bullet>::empty() + bullet_pass(obullets, oenemies).0 =~= bullet_pass(
                obullets,
                oenemies,
            ).0);
            assert(Seq::<Point>::empty() + bullet_pass(obullets, oenemies).2 =~= bullet_pass(
                obullets,
                oenemies,
            ).2);
            assert(oparticles + explosions_at(Seq::<Point>::empty(), 10) =~= oparticles);
            assert(oevents + Seq::new(0nat, |i: int| Event::EnemyDestroyed) =~= oevents);
        }
        let mut i: usize = 0;
        while i < state.world.bullets.len()
            invariant
                state_wf(*old(state)),
                obullets == state.world.bullets@,
                oparticles == old(state).world.particles@,
                oevents == old(events)@,
                i <= obullets.len(),
                kills.len() + state.world.enemies@.len() == oenemies.len(),
                old(state).score + 10 * oenemies.len() <= u32::MAX,
                forall|k: int|
                    0 <= k < obullets.len() ==> crate::bullet::bullet_wf(
                        #[trigger] obullets[k],
                        state.world.size,
                    ),
                bullet_pass(obullets, oenemies).0 == kept@ + bullet_pass(
                    obullets.skip(i as int),
                    state.world.enemies@,
                ).0,
                bullet_pass(obullets, oenemies).1 == bullet_pass(
                    obullets.skip(i as int),
                    state.world.enemies@,
                ).1,
                bullet_pass(obullets, oenemies).2 == kills + bullet_pass(
                    obullets.skip(i as int),
                    state.world.enemies@,
                ).2,
                state.world.particles@ == oparticles + explosions_at(kills, 10),
                events@ == oevents + Seq::new(kills.len(), |k: int| Event::EnemyDestroyed),
                state.score == old(state).score + 10 * kills.len(),
                forall|k: int|
                    0 <= k < state.world.enemies@.len() ==> vector_wf(
                        #[trigger] state.world.enemies@[k].vector,
                        state.world.size,
                    ),
                forall|k: int|
                    0 <= k < state.world.particles@.len() ==> particle_wf(
                        #[trigger] state.world.particles@[k],
                    ),
                forall|k: int|
                    0 <= k < kept@.len() ==> crate::bullet::bullet_wf(
                        #[trigger] kept@[k],
                        state.world.size,
                    ),
                state.world.size == old(state).world.size,
                state.world.player == old(state).world.player,
                state.difficulty == old(state).difficulty,
                state.message == old(state).message,
                state.world.powerups == old(state).world.powerups,
                state.world.stars == old(state).world.stars,
            decreases obullets.len() - i,
        {
            let b = state.world.bullets[i];
            let ghost es = state.world.enemies@;
            let mut j: usize = 0;
            let mut found = false;
            while j < state.world.enemies.len() && !found
                invariant
                    es == state.world.enemies@,
                    0 <= j <= es.len(),
                    forall|k: int|
                        0 <= k < es.len() ==> vector_wf(#[trigger] es[k].vector, state.world.size),
                    crate::geometry::size_wf(state.world.size),
                    crate::bullet::bullet_wf(b, state.world.size),
                    forall|k: int| 0 <= k < j ==> !bullet_hits_enemy(b, #[trigger] es[k]),
                    found ==> j < es.len() && bullet_hits_enemy(b, es[j as int]),
                decreases es.len() - j, (if found { 0int } else { 1int }),
            {
                let enemy_pos = state.world.enemies[j].position();
                if crate::geometry::collides_at(
                    &enemy_pos,
                    ENEMY_RADIUS,
                    &b.vector.position,
                    BULLET_RADIUS,
                ) {
                    found = true;
                } else {
                    j = j + 1;
                }
            }
            proof {
                lemma_first_hit_skip_step(b, es, 0, j as int);
                assert(obullets.skip(i as int).drop_first() =~= obullets.skip(i as int + 1));
                assert(obullets.skip(i as int)[0] == obullets[i as int]);
            }
            if found {
                let pos = state.world.enemies[j].position();
                let _ = state.world.enemies.remove(j);
                events.push(Event::EnemyDestroyed);
                make_explosion(&mut state.world.particles, &pos, 10);
                state.score = state.score + 10;
                proof {
                    lemma_explosions_snoc(kills, pos, 10);
                    kills = kills.push(pos);
                    assert(first_hit_from(b, es, 0) == Some(j as int));
                    assert(state.world.particles@ =~= oparticles + explosions_at(kills, 10));
                    assert(events@ =~= oevents + Seq::new(
                        kills.len(),
                        |k: int| Event::EnemyDestroyed,
                    ));
                    assert(bullet_pass(obullets, oenemies).2 =~= kills + bullet_pass(
                        obullets.skip(i as int + 1),
                        state.world.enemies@,
                    ).2);
                }
            } else {
                kept.push(b);
                proof {
                    assert(first_hit_from(b, es, 0) is None);
                    assert((kept@ + bullet_pass(obullets.skip(i as int + 1), es).0) =~= (
                    kept@.drop_last() + (seq![b] + bullet_pass(obullets.skip(i as int + 1), es).0)));
                }
            }
            i = i + 1;
        }
        proof {
            assert(obullets.skip(obullets.len() as int) =~= Seq::<Bullet>::empty());
            assert(kept@ + Seq::<Bullet>::empty() =~= kept@);
            assert(kills + Seq::<Point>::empty() =~= kills);
        }
        state.world.bullets = kept;
    }

    /// Handles collisions between the player and the powerups: the living
    /// player picks up the first powerup it overlaps, which replaces any
    /// powerup held before.  Returns whether one was picked up.
    pub fn handle_powerup_collisions(state: &mut GameState, events: &mut Vec<Event>) -> (gained:
        bool)
        requires
            state_wf(*old(state)),
        ensures
            state_wf(*final(state)),
            ({
                let hit = first_powerup_from(
                    old(state).world.player,
                    old(state).world.powerups@,
                    0,
                );
                if !old(state).world.player.is_dead && hit is Some {
                    &&& gained
                    &&& final(state).world.player == after_powerup_phase(
                        old(state).world.player,
                        old(state).world.powerups@,
                    )
                    &&& final(state).world.powerups@ == old(state).world.powerups@.remove(hit->0)
                    &&& final(events)@ == old(events)@ + seq![Event::PowerupGained]
                } else {
                    &&& !gained
                    &&& final(state).world.player == old(state).world.player
                    &&& final(state).world.powerups == old(state).world.powerups
                    &&& final(events)@ == old(events)@
                }
            }),
            final(state).score == old(state).score,
            final(state).difficulty == old(state).difficulty,
            final(state).message == old(state).message,
            final(state).world.size == old(state).world.size,
            final(state).world.particles == old(state).world.particles,
            final(state).world.bullets == old(state).world.bullets,
            final(state).world.enemies == old(state).world.enemies,
            final(state).world.stars == old(state).world.stars,
            gained == (!old(state).world.player.is_dead && first_powerup_from(
                old(state).world.player,
                old(state).world.powerups@,
                0,
            ) is Some),
    {
        if state.world.player.is_dead {
            return false;
        }
        let ghost ps = state.world.powerups@;
        let ghost pl = state.world.player;
        let mut j: usize = 0;
        let mut found = false;
        while j < state.world.powerups.len() && !found
            invariant
                ps == state.world.powerups@,
                pl == state.world.player,
                state_wf(*old(state)),
                state == old(state),
                0 <= j <= ps.len(),
                forall|k: int| 0 <= k < j ==> !powerup_hits_player(#[trigger] ps[k], pl),
                found ==> j < ps.len() && powerup_hits_player(ps[j as int], pl),
            decreases ps.len() - j, (if found { 0int } else { 1int }),
        {
            let radius = state.world.powerups[j].radius();
            let pos = state.world.powerups[j].position;
            if crate::geometry::collides_at(
                &pos,
                radius,
                &state.world.player.vector.position,
                PLAYER_RADIUS,
            ) {
                found = true;
            } else {
                j = j + 1;
            }
        }
        proof {
            lemma_first_powerup_skip(pl, ps, 0, j as int);
        }
        if found {
            let kind = state.world.powerups[j].kind;
            state.world.player.powerup = Some(kind);
            let _ = state.world.powerups.remove(j);
            events.push(Event::PowerupGained);
            proof {
                assert(events@ =~= old(events)@ + seq![Event::PowerupGained]);
            }
            true
        } else {
            proof {
                assert(events@ =~= old(events)@);
            }
            false
        }
    }

    /// Handles collisions between the player and the enemies.  A living
    /// player overlapped by an enemy loses a Shield — every enemy inside
    /// the grace area explodes, without score — or, holding no Shield,
    /// dies in an explosion.  Returns whether the player died.
    pub fn handle_player_collisions(state: &mut GameState, events: &mut Vec<Event>) -> (died: bool)
        requires
            state_wf(*old(state)),
        ensures
            state_wf(*final(state)),
            ({
                let pl = old(state).world.player;
                let collided = !pl.is_dead && some_enemy_hits(pl, old(state).world.enemies@);
                let shielded = collided && pl.powerup == Some(PowerupKind::Shield);
                let was_killed = collided && pl.powerup != Some(PowerupKind::Shield);
                &&& died == was_killed
                &&& (!collided ==> *final(state) == *old(state) && final(events)@ == old(events)@)
                &&& (shielded ==> {
                    &&& final(state).world.player.powerup is None
                    &&& !final(state).world.player.is_dead
                    &&& final(state).world.enemies@ == grace_survivors(
                        old(state).world.enemies@,
                        pl.vector.position,
                    )
                    &&& final(state).world.particles@ == old(state).world.particles@
                        + explosions_at(
                        grace_victims(old(state).world.enemies@, pl.vector.position),
                        10,
                    )
                    &&& final(events)@ == old(events)@ + seq![Event::EnemyDestroyed]
                })
                &&& (was_killed ==> {
                    &&& final(state).world.player.is_dead
                    &&& final(state).world.player.powerup == pl.powerup
                    &&& final(state).world.enemies == old(state).world.enemies
                    &&& final(state).world.particles@ == old(state).world.particles@
                        + explosion_seq(pl.vector.position, 16)
                    &&& final(events)@ == old(events)@ + seq![Event::PlayerDestroyed]
                })
                &&& final(state).world.player.vector == pl.vector
                &&& final(state).world.player.is_dead == (pl.is_dead || was_killed)
            }),
            final(state).score == old(state).score,
            final(state).difficulty == old(state).difficulty,
            final(state).message == old(state).message,
            final(state).world.size == old(state).world.size,
            final(state).world.powerups == old(state).world.powerups,
            final(state).world.bullets == old(state).world.bullets,
            final(state).world.stars == old(state).world.stars,
    {
        if state.world.player.is_dead {
            return false;
        }
        let ghost es = state.world.enemies@;
        let ghost pl = state.world.player;
        let mut j: usize = 0;
        let mut found = false;
        while j < state.world.enemies.len() && !found
            invariant
                es == state.world.enemies@,
                pl == state.world.player,
                state_wf(*old(state)),
                state == old(state),
                0 <= j <= es.len(),
                forall|k: int| 0 <= k < j ==> !enemy_hits_player(#[trigger] es[k], pl),
                found ==> j < es.len() && enemy_hits_player(es[j as int], pl),
            decreases es.len() - j, (if found { 0int } else { 1int }),
        {
            let enemy_pos = state.world.enemies[j].position();
            if crate::geometry::collides_at(
                &state.world.player.vector.position,
                PLAYER_RADIUS,
                &enemy_pos,
                ENEMY_RADIUS,
            ) {
                found = true;
            } else {
                j = j + 1;
            }
        }
        if !found {
            proof {
                assert(!some_enemy_hits(pl, es));
            }
            return false;
        }
        proof {
            assert(some_enemy_hits(pl, es)) by {
                assert(enemy_hits_player(es[j as int], pl));
            }
        }
        if matches!(state.world.player.powerup, Some(PowerupKind::Shield)) {
            // consume the shield, destroying every enemy close to the
            // player, with no score change
            state.world.player.powerup = None;
            let ppos = state.world.player.position();
            CollisionsController::remove_surrounding_enemies(
                &mut state.world.enemies,
                &mut state.world.particles,
                ppos,
                Ghost(state.world.size),
            );
            events.push(Event::EnemyDestroyed);
            proof {
                assert(events@ =~= old(events)@ + seq![Event::EnemyDestroyed]);
            }
            false
        } else {
            // make an explosion where the player was and mark it dead
            let ppos = state.world.player.position();
            make_explosion(&mut state.world.particles, &ppos, 16);
            state.world.player.is_dead = true;
            events.push(Event::PlayerDestroyed);
            proof {
                assert(events@ =~= old(events)@ + seq![Event::PlayerDestroyed]);
                assert(state.world.particles@ =~= old(state).world.particles@ + explosion_seq(
                    pl.vector.position,
                    16,
                ));
            }
            true
        }
    }

    /// Removes every enemy within the grace area around the given point,
    /// leaving an explosion where each one stood.
    fn remove_surrounding_enemies(
        enemies: &mut Vec<Enemy>,
        particles: &mut Vec<Particle>,
        point: Point,
        size: Ghost<crate::geometry::Size>,
    )
        requires
            crate::geometry::size_wf(size@),
            forall|k: int|
                0 <= k < old(enemies)@.len() ==> vector_wf(#[trigger] old(enemies)@[k].vector, size@),
            forall|k: int|
                0 <= k < old(particles)@.len() ==> particle_wf(#[trigger] old(particles)@[k]),
            point_in(point, size@),
        ensures
            final(enemies)@ == grace_survivors(old(enemies)@, point),
            final(particles)@ == old(particles)@ + explosions_at(
                grace_victims(old(enemies)@, point),
                10,
            ),
            forall|k: int|
                0 <= k < final(enemies)@.len() ==> vector_wf(#[trigger] final(enemies)@[k].vector, size@),
            forall|k: int|
                0 <= k < final(particles)@.len() ==> particle_wf(#[trigger] final(particles)@[k]),
    {
        let ghost oenemies = enemies@;
        let ghost oparticles = particles@;
        let mut kept: Vec<Enemy> = Vec::new();
        let ghost mut victims: Seq<Point> = Seq::empty();
        proof {
            assert(oenemies.skip(0) =~= oenemies);
            assert(Seq::<Enemy>::empty() + grace_survivors(oenemies, point) =~= grace_survivors(
                oenemies,
                point,
            ));
            assert(Seq::<Point>::empty() + grace_victims(oenemies, point) =~= grace_victims(
                oenemies,
                point,
            ));
            assert(oparticles + explosions_at(Seq::<Point>::empty(), 10) =~= oparticles);
        }
        let mut i: usize = 0;
        while i < enemies.len()
            invariant
                crate::geometry::size_wf(size@),
                point_in(point, size@),
                oenemies == enemies@,
                i <= oenemies.len(),
                forall|k: int|
                    0 <= k < oenemies.len() ==> vector_wf(#[trigger] oenemies[k].vector, size@),
                forall|k: int| 0 <= k < kept@.len() ==> vector_wf(#[trigger] kept@[k].vector, size@),
                forall|k: int|
                    0 <= k < particles@.len() ==> particle_wf(#[trigger] particles@[k]),
                grace_survivors(oenemies, point) == kept@ + grace_survivors(
                    oenemies.skip(i as int),
                    point,
                ),
                grace_victims(oenemies, point) == victims + grace_victims(
                    oenemies.skip(i as int),
                    point,
                ),
                particles@ == oparticles + explosions_at(victims, 10),
            decreases oenemies.len() - i,
        {
            let e = enemies[i];
            proof {
                assert(oenemies.skip(i as int).drop_first() =~= oenemies.skip(i as int + 1));
                assert(oenemies.skip(i as int)[0] == oenemies[i as int]);
            }
            let epos = e.position();
            if epos.intersect_circle(&point, PLAYER_GRACE_AREA) {
                make_explosion(particles, &epos, 10);
                proof {
                    lemma_explosions_snoc(victims, epos, 10);
                    victims = victims.push(epos);
                    assert(particles@ =~= oparticles + explosions_at(victims, 10));
                    assert(grace_victims(oenemies, point) =~= victims + grace_victims(
                        oenemies.skip(i as int + 1),
                        point,
                    ));
                }
            } else {
                kept.push(e);
                proof {
                    assert(kept@ + grace_survivors(oenemies.skip(i as int + 1), point)
                        =~= kept@.drop_last() + (seq![e] + grace_survivors(
                        oenemies.skip(i as int + 1),
                        point,
                    )));
                }
            }
            i = i + 1;
        }
        proof {
            assert(oenemies.skip(oenemies.len() as int) =~= Seq::<Enemy>::empty());
            assert(kept@ + Seq::<Enemy>::empty() =~= kept@);
            assert(victims + Seq::<Point>::empty() =~= victims);
        }
        *enemies = kept;
    }
}

} // verus!
