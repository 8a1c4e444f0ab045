use rand::rngs::StdRng;
use rand::SeedableRng;

use rocket_core::bullet::Bullet;
use rocket_core::collisions::CollisionsController;
use rocket_core::enemy::Enemy;
use rocket_core::events::Event;
use rocket_core::game_state::GameState;
use rocket_core::geometry::{Point, Size, Vector};
use rocket_core::gun::Gun;
use rocket_core::input::Actions;
use rocket_core::particle::Particle;
use rocket_core::player::Player;
use rocket_core::powerup::{Powerup, PowerupKind};
use rocket_core::time_controller::{relocate_spawn, TimeController};
use rocket_core::world::World;

fn test_size() -> Size {
    Size::new(1_000_000, 800_000)
}

fn alive_player(x: i64, y: i64, direction: i64) -> Player {
    Player {
        vector: Vector { position: Point { x, y }, direction },
        is_dead: false,
        powerup: None,
        gun: Gun::new(),
    }
}

fn empty_state(player: Player) -> GameState {
    GameState {
        world: World {
            player,
            particles: vec![],
            powerups: vec![],
            bullets: vec![],
            enemies: vec![],
            stars: vec![],
            size: test_size(),
        },
        difficulty: 0,
        message: None,
        score: 0,
    }
}

fn no_actions() -> Actions {
    Actions { rotate_left: false, rotate_right: false, boost: false, shoot: false }
}

#[test]
fn triple_shot_spawns_three_bullets_at_spread_headings() {
    let player = Player { powerup: Some(PowerupKind::TripleShot), ..alive_player(500_000, 400_000, 0) };
    let mut state = empty_state(player);
    let mut tc = TimeController::new();
    tc.current_time = 1000;
    let actions = Actions { shoot: true, ..no_actions() };
    let mut events = vec![];
    tc.update_bullets(16, &actions, &mut state, &mut events);

    assert_eq!(state.world.bullets.len(), 3);
    // headings offset by -30, 0 and +30 degrees from the player's
    assert_eq!(state.world.bullets[0].vector.direction, 330_000);
    assert_eq!(state.world.bullets[1].vector.direction, 0);
    assert_eq!(state.world.bullets[2].vector.direction, 30_000);
    // all left the player's nose at (510 000, 400 000), then advanced
    // 8000 milli-units along their own headings
    assert_eq!(state.world.bullets[1].vector.position, Point { x: 518_000, y: 400_000 });
    assert_eq!(state.world.bullets[0].vector.position, Point { x: 516_912, y: 396_000 });
    assert_eq!(state.world.bullets[2].vector.position, Point { x: 516_912, y: 404_000 });
    for b in &state.world.bullets {
        assert_eq!(b.distance_left, 376_000);
    }
    assert_eq!(events, vec![Event::ShotFired]);
    // TripleShot bypasses the gun: no heat cost
    assert_eq!(state.world.player.gun.temperature, 0);
}

#[test]
fn normal_shot_heats_the_gun() {
    let mut state = empty_state(alive_player(500_000, 400_000, 0));
    let mut tc = TimeController::new();
    tc.current_time = 1000;
    let actions = Actions { shoot: true, ..no_actions() };
    let mut events = vec![];
    tc.update_bullets(16, &actions, &mut state, &mut events);

    assert_eq!(state.world.bullets.len(), 1);
    assert_eq!(state.world.player.gun.temperature, 25);
    assert_eq!(events, vec![Event::ShotFired]);
}

#[test]
fn overheated_gun_withholds_the_shot() {
    let mut player = alive_player(500_000, 400_000, 0);
    player.gun = Gun { temperature: 1000, overheated: true };
    let mut state = empty_state(player);
    let mut tc = TimeController::new();
    tc.current_time = 1000;
    let actions = Actions { shoot: true, ..no_actions() };
    let mut events = vec![];
    tc.update_bullets(16, &actions, &mut state, &mut events);

    assert_eq!(state.world.bullets.len(), 0);
    assert!(events.is_empty());
    // the shoot timer was still polled
    assert_eq!(tc.shoot_timer.last_triggered, 1000);
}

#[test]
fn bullet_overlapping_enemy_destroys_both_and_scores() {
    let mut state = empty_state(alive_player(100_000, 100_000, 0));
    let spot = Point { x: 500_000, y: 400_000 };
    state.world.enemies.push(Enemy::new(Vector { position: spot, direction: 0 }));
    state.world.bullets.push(Bullet { vector: Vector { position: spot, direction: 0 }, distance_left: 100_000 });
    let mut events = vec![];
    CollisionsController::handle_bullet_collisions(&mut state, &mut events);

    assert_eq!(state.world.bullets.len(), 0);
    assert_eq!(state.world.enemies.len(), 0);
    assert_eq!(state.score, 10);
    // exactly one EnemyDestroyed event
    assert_eq!(events, vec![Event::EnemyDestroyed]);
    // the explosion burst at the enemy's position
    assert_eq!(state.world.particles.len(), 270);
}

#[test]
fn shield_consumes_and_clears_surrounding_enemies() {
    let mut player = alive_player(500_000, 400_000, 0);
    player.powerup = Some(PowerupKind::Shield);
    let mut state = empty_state(player);
    // one enemy overlapping the player, one inside the grace area, one
    // well outside it
    state.world.enemies.push(Enemy::new(Vector {
        position: Point { x: 505_000, y: 400_000 },
        direction: 0,
    }));
    state.world.enemies.push(Enemy::new(Vector {
        position: Point { x: 600_000, y: 400_000 },
        direction: 0,
    }));
    state.world.enemies.push(Enemy::new(Vector {
        position: Point { x: 900_000, y: 400_000 },
        direction: 0,
    }));
    let mut events = vec![];
    let died = CollisionsController::handle_player_collisions(&mut state, &mut events);

    assert!(!died);
    assert!(!state.world.player.is_dead);
    assert_eq!(state.world.player.powerup, None);
    // both enemies within the grace radius are gone, the far one stays
    assert_eq!(state.world.enemies.len(), 1);
    assert_eq!(state.world.enemies[0].vector.position, Point { x: 900_000, y: 400_000 });
    assert_eq!(events, vec![Event::EnemyDestroyed]);
    // an explosion per destroyed enemy, no score change
    assert_eq!(state.world.particles.len(), 540);
    assert_eq!(state.score, 0);
}

#[test]
fn unshielded_player_dies_on_enemy_contact() {
    let mut state = empty_state(alive_player(500_000, 400_000, 0));
    state.world.enemies.push(Enemy::new(Vector {
        position: Point { x: 505_000, y: 400_000 },
        direction: 0,
    }));
    let mut events = vec![];
    let died = CollisionsController::handle_player_collisions(&mut state, &mut events);

    assert!(died);
    assert!(state.world.player.is_dead);
    // the enemy that killed the player survives
    assert_eq!(state.world.enemies.len(), 1);
    assert_eq!(events, vec![Event::PlayerDestroyed]);
    // the player's explosion carries intensity 16: 30 * 15 particles
    assert_eq!(state.world.particles.len(), 450);
}

#[test]
fn grace_spawn_is_relocated_onto_the_boundary() {
    let center = Point { x: 500_000, y: 500_000 };
    // a 3-4-5 offset, well inside the 200 000 grace radius
    let sample = Point { x: 503_000, y: 504_000 };
    let relocated = relocate_spawn(center, sample);
    assert_eq!(relocated, Point { x: 620_000, y: 660_000 });
    // exactly on the grace boundary, along the same bearing
    assert_eq!(relocated.squared_distance_to(&center), 200_000u64 * 200_000u64);
}

#[test]
fn powerup_pickup_replaces_held_kind() {
    let mut player = alive_player(500_000, 400_000, 0);
    player.powerup = Some(PowerupKind::TimeSlow);
    let mut state = empty_state(player);
    state.world.powerups.push(Powerup::new(PowerupKind::Shield, Point { x: 510_000, y: 400_000 }));
    let mut events = vec![];
    let gained = CollisionsController::handle_powerup_collisions(&mut state, &mut events);

    assert!(gained);
    assert_eq!(state.world.player.powerup, Some(PowerupKind::Shield));
    assert_eq!(state.world.powerups.len(), 0);
    assert_eq!(events, vec![Event::PowerupGained]);
}

#[test]
fn collisions_schedule_game_over_and_timeout_shows_message() {
    let mut state = empty_state(alive_player(500_000, 400_000, 0));
    state.world.enemies.push(Enemy::new(Vector {
        position: Point { x: 505_000, y: 400_000 },
        direction: 0,
    }));
    let mut tc = TimeController::new();
    tc.current_time = 1000;
    let mut events = vec![];
    CollisionsController::handle_collisions(&mut state, &mut tc, &mut events);
    assert!(state.world.player.is_dead);
    assert_eq!(tc.scheduled_timeouts.peek(), Some(3000));

    // two and a half seconds later the game-over screen appears
    let mut rng = StdRng::seed_from_u64(7);
    tc.update_seconds(2500, &no_actions(), &mut state, &mut events, &mut rng);
    match &state.message {
        Some(m) => {
            assert_eq!(m.title, "Game Over");
            assert_eq!(m.subtitle, "Press any key to restart");
        },
        None => panic!("expected the game-over message"),
    }
}

#[test]
fn powerup_expires_through_scheduled_timeout() {
    let mut player = alive_player(500_000, 400_000, 0);
    player.powerup = Some(PowerupKind::TimeSlow);
    let mut state = empty_state(player);
    let mut tc = TimeController::new();
    tc.schedule_timeout(100, rocket_core::timeout_queue::Timeout::RemovePowerup);
    let mut events = vec![];
    let mut rng = StdRng::seed_from_u64(7);
    tc.update_seconds(200, &no_actions(), &mut state, &mut events, &mut rng);
    assert_eq!(state.world.player.powerup, None);
}

#[test]
fn difficulty_ramps_with_time() {
    let mut state = empty_state(alive_player(500_000, 400_000, 0));
    let mut tc = TimeController::new();
    let mut events = vec![];
    let mut rng = StdRng::seed_from_u64(3);
    tc.update_seconds(100, &no_actions(), &mut state, &mut events, &mut rng);
    assert_eq!(tc.current_time, 100);
    assert_eq!(state.difficulty, 1000);
    tc.update_seconds(50, &no_actions(), &mut state, &mut events, &mut rng);
    assert_eq!(tc.current_time, 150);
    assert_eq!(state.difficulty, 1500);
}

#[test]
fn player_rotation_left_takes_precedence() {
    let mut state = empty_state(alive_player(500_000, 400_000, 0));
    let mut tc = TimeController::new();
    let actions = Actions { rotate_left: true, rotate_right: true, ..no_actions() };
    tc.update_player(100, &actions, &mut state);
    // a full turn per second: 100 ms turns 36 degrees, leftwards
    assert_eq!(state.world.player.vector.direction, 324_000);
}

#[test]
fn boost_doubles_player_speed() {
    let mut state = empty_state(alive_player(500_000, 400_000, 0));
    let mut tc = TimeController::new();
    tc.update_player(100, &no_actions(), &mut state);
    assert_eq!(state.world.player.vector.position.x, 520_000);
    let mut state2 = empty_state(alive_player(500_000, 400_000, 0));
    tc.update_player(100, &Actions { boost: true, ..no_actions() }, &mut state2);
    assert_eq!(state2.world.player.vector.position.x, 540_000);
}

#[test]
fn trail_particle_points_backwards() {
    let mut state = empty_state(alive_player(500_000, 400_000, 90_000));
    let mut tc = TimeController::new();
    tc.current_time = 1000;
    tc.update_particles(16, &mut state);
    assert_eq!(state.world.particles.len(), 1);
    let p = &state.world.particles[0];
    assert_eq!(p.vector.position, Point { x: 500_000, y: 400_000 });
    assert_eq!(p.vector.direction, 270_000);
    assert_eq!(p.ttl, 500);
}

#[test]
fn expired_particles_and_powerups_are_culled() {
    let mut state = empty_state(alive_player(500_000, 400_000, 0));
    state.world.particles.push(Particle::new(
        Vector { position: Point { x: 100_000, y: 100_000 }, direction: 0 },
        300,
    ));
    state.world.powerups.push(Powerup {
        ttl: 50,
        kind: PowerupKind::Shield,
        color: 0,
        position: Point { x: 200_000, y: 200_000 },
    });
    let mut tc = TimeController::new();
    tc.current_time = 400;
    tc.update_particles(400, &mut state);
    let mut rng = StdRng::seed_from_u64(5);
    tc.update_powerups(400, &mut state, &mut rng);
    assert!(state.world.powerups.is_empty());
    // the expired particle is gone; only the fresh trail particle remains
    assert_eq!(state.world.particles.len(), 1);
    assert_eq!(state.world.particles[0].ttl, 500);
}

#[test]
fn bullets_expire_after_their_travel_budget() {
    let mut state = empty_state(alive_player(100_000, 100_000, 0));
    state.world.bullets.push(Bullet {
        vector: Vector { position: Point { x: 500_000, y: 400_000 }, direction: 0 },
        distance_left: 8000,
    });
    let mut tc = TimeController::new();
    let mut events = vec![];
    // 16 ms at bullet speed covers exactly the 8000 left
    tc.update_bullets(16, &no_actions(), &mut state, &mut events);
    assert!(state.world.bullets.is_empty());
    assert!(events.is_empty());
}

#[test]
fn enemy_steers_towards_the_player() {
    let mut enemy = Enemy::new(Vector { position: Point { x: 100_000, y: 100_000 }, direction: 270_000 });
    let size = test_size();
    enemy.update(1000, Point { x: 200_000, y: 100_000 }, &size);
    assert_eq!(enemy.vector.direction, 0);
    assert_eq!(enemy.vector.position, Point { x: 101_000, y: 100_000 });
}

#[test]
fn enemy_chases_across_the_wrap_seam() {
    // the player is nearer through the left edge than across the world
    let mut enemy = Enemy::new(Vector { position: Point { x: 50_000, y: 100_000 }, direction: 0 });
    let size = test_size();
    enemy.update(1000, Point { x: 950_000, y: 100_000 }, &size);
    // heading 180 degrees: through the left edge
    assert_eq!(enemy.vector.direction, 180_000);
    assert_eq!(enemy.vector.position, Point { x: 49_000, y: 100_000 });
}

#[test]
fn world_starts_with_full_star_population() {
    let mut rng = StdRng::seed_from_u64(11);
    let size = test_size();
    let world = World::new(&mut rng, size);
    assert_eq!(world.stars.len(), 100);
    assert!(world.player.is_dead);
    assert!(world.enemies.is_empty() && world.bullets.is_empty());
    let p = world.player.vector.position;
    assert!(0 <= p.x && p.x < size.width);
    assert!(0 <= p.y && p.y < size.height);
}

#[test]
fn random_coordinates_stay_in_bounds() {
    let mut rng = StdRng::seed_from_u64(13);
    let size = test_size();
    let mut xs = vec![];
    for _ in 0..32 {
        let x = size.random_x(&mut rng);
        let y = size.random_y(&mut rng);
        assert!(0 <= x && x < size.width);
        assert!(0 <= y && y < size.height);
        xs.push(x);
    }
    // an actual sample, not a constant end of the range
    assert!(xs.iter().any(|&x| x != xs[0]));
}

#[test]
fn reset_brings_the_player_back() {
    let mut rng = StdRng::seed_from_u64(17);
    let mut state = GameState::new(test_size(), &mut rng);
    assert!(state.world.player.is_dead);
    match &state.message {
        Some(m) => assert_eq!(m.title, "Welcome to Rocket!"),
        None => panic!("expected the welcome message"),
    }
    state.score = 70;
    state.world.enemies.push(Enemy::new(Vector {
        position: Point { x: 505_000, y: 400_000 },
        direction: 0,
    }));
    state.reset(&mut rng);
    assert!(!state.world.player.is_dead);
    assert_eq!(state.score, 0);
    assert!(state.message.is_none());
    assert!(state.world.enemies.is_empty());
}

#[test]
fn shoot_rate_limits_to_one_volley_per_interval() {
    let mut state = empty_state(alive_player(500_000, 400_000, 0));
    let mut tc = TimeController::new();
    tc.current_time = 1000;
    let actions = Actions { shoot: true, ..no_actions() };
    let mut events = vec![];
    tc.update_bullets(1, &actions, &mut state, &mut events);
    assert_eq!(state.world.bullets.len(), 1);
    // ten milliseconds later the 33 ms shoot interval has not elapsed
    tc.current_time = 1010;
    tc.update_bullets(1, &actions, &mut state, &mut events);
    assert_eq!(state.world.bullets.len(), 1);
    assert_eq!(events, vec![Event::ShotFired]);
}

#[test]
fn dead_player_is_left_untouched() {
    let mut player = alive_player(500_000, 400_000, 0);
    player.is_dead = true;
    let mut state = empty_state(player);
    let mut tc = TimeController::new();
    let mut events = vec![];
    let mut rng = StdRng::seed_from_u64(29);
    let actions = Actions { shoot: true, boost: true, rotate_left: true, ..no_actions() };
    tc.update_seconds(16, &actions, &mut state, &mut events, &mut rng);
    assert!(state.world.player.is_dead);
    assert_eq!(state.world.player.vector.position, Point { x: 500_000, y: 400_000 });
    assert_eq!(state.world.player.vector.direction, 0);
    assert!(state.world.bullets.is_empty());
}

#[test]
fn relocated_spawn_lands_on_the_boundary_ring() {
    let center = Point { x: 500_000, y: 500_000 };
    let sample = Point { x: 500_100, y: 500_070 };
    let relocated = relocate_spawn(center, sample);
    let d = relocated.squared_distance_to(&center);
    // on or just outside the grace boundary, never strictly inside
    assert!(d >= 200_000u64 * 200_000u64);
    assert!(d < 200_295u64 * 200_295u64);
    // and on the sample's side of the player on both axes
    assert!(relocated.x > center.x && relocated.y > center.y);
}

#[test]
fn seeded_sessions_replay_identically() {
    let run = |seed: u64| {
        let mut rng = StdRng::seed_from_u64(seed);
        let mut state = GameState::new(test_size(), &mut rng);
        state.reset(&mut rng);
        let mut tc = TimeController::new();
        let mut events = vec![];
        let actions = Actions { shoot: true, rotate_right: true, ..no_actions() };
        for _ in 0..120 {
            tc.update_seconds(16, &actions, &mut state, &mut events, &mut rng);
            CollisionsController::handle_collisions(&mut state, &mut tc, &mut events);
        }
        (state.score, state.world.player.vector.position, events.len())
    };
    assert_eq!(run(23), run(23));
}
