//! The game state: the world plus score, difficulty and the lifecycle
//! message.

use vstd::prelude::*;
use crate::geometry::{size_wf, vector_wf, Size};
use crate::timeout_queue::Timeout;
use crate::world::{world_wf, World};

verus! {

/// The ceiling of the difficulty ramp, in micro-units of extra enemy
/// travel per tick; unreachable in any real session, it only bounds the
/// arithmetic.
pub const DIFFICULTY_CAP: u64 = 1_000_000_000_000;

/// A message drawn on the screen; while one is shown the game waits for
/// user input.
pub struct Message {
    pub title: &'static str,
    pub subtitle: &'static str,
}

/// The message shown when the game starts.
pub fn welcome_message() -> (r: Message)
    ensures
        r.title@ == "Welcome to Rocket!"@,
        r.subtitle@ == "Press any key to start"@,
{
    Message { title: "Welcome to Rocket!", subtitle: "Press any key to start" }
}

/// The message shown when the game is over.
pub fn game_over_message() -> (r: Message)
    ensures
        r.title@ == "Game Over"@,
        r.subtitle@ == "Press any key to restart"@,
{
    Message { title: "Game Over", subtitle: "Press any key to restart" }
}

/// Whether a message is the game-over message.
pub open spec fn is_game_over_message(m: Message) -> bool {
    m.title@ == "Game Over"@ && m.subtitle@ == "Press any key to restart"@
}

/// The state of a game session.
pub struct GameState {
    /// The world contains everything that needs to be drawn.
    pub world: World,
    /// The current difficulty: extra enemy travel per tick, in
    /// micro-units; it only ever grows during a session.
    pub difficulty: u64,
    /// The message on screen; None while actively playing.
    pub message: Option<Message>,
    /// The current score of the player.
    pub score: u32,
}

/// A well-formed game state.
pub open spec fn state_wf(gs: GameState) -> bool {
    &&& world_wf(gs.world)
    &&& gs.difficulty <= DIFFICULTY_CAP
}

impl GameState {
    /// Returns a new session showing the welcome screen: a fresh world of
    /// the given size, no score and no difficulty.
    pub fn new(size: Size, rng: &mut rand::rngs::StdRng) -> (r: GameState)
        requires
            size_wf(size),
        ensures
            state_wf(r),
            r.world.size == size,
            r.world.player.is_dead,
            r.difficulty == 0,
            r.score == 0,
            r.message matches Some(m) && m.title@ == "Welcome to Rocket!"@,
    {
        GameState {
            world: World::new(rng, size),
            difficulty: 0,
            message: Some(welcome_message()),
            score: 0,
        }
    }

    /// Called when the game is over: puts the game-over message on
    /// screen, leaving everything else untouched.
    pub fn game_over(&mut self)
        ensures
            final(self).message matches Some(m) && is_game_over_message(m),
            final(self).world == old(self).world,
            final(self).difficulty == old(self).difficulty,
            final(self).score == old(self).score,
    {
        self.message = Some(game_over_message());
    }

    /// Resets the session for a new game: the player comes back to life
    /// at a random position with no powerup and a cold gun, score and
    /// difficulty return to zero, the message is cleared, and all
    /// bullets, enemies and powerups are removed.  Stars and particles
    /// keep drifting.
    pub fn reset(&mut self, rng: &mut rand::rngs::StdRng)
        requires
            state_wf(*old(self)),
        ensures
            state_wf(*final(self)),
            !final(self).world.player.is_dead,
            final(self).world.player.powerup is None,
            final(self).world.player.gun.temperature == 0,
            !final(self).world.player.gun.overheated,
            final(self).world.player.vector.direction == old(
                self,
            ).world.player.vector.direction,
            final(self).score == 0,
            final(self).difficulty == 0,
            final(self).message is None,
            final(self).world.bullets@.len() == 0,
            final(self).world.enemies@.len() == 0,
            final(self).world.powerups@.len() == 0,
            final(self).world.particles == old(self).world.particles,
            final(self).world.stars == old(self).world.stars,
            final(self).world.size == old(self).world.size,
    {
        self.world.player.is_dead = false;
        self.world.player.powerup = None;
        self.world.player.vector.position.x = self.world.size.random_x(rng);
        self.world.player.vector.position.y = self.world.size.random_y(rng);
        self.world.player.gun.reset();
        self.score = 0;
        self.difficulty = 0;
        self.message = None;
        self.world.bullets.clear();
        self.world.enemies.clear();
        self.world.powerups.clear();
    }
}

impl Timeout {
    /// Runs the deferred action against the game state.
    pub fn handle(self, state: &mut GameState)
        ensures
            self is RemovePowerup ==> {
                &&& final(state).world.player.powerup is None
                &&& final(state).world.player.vector == old(state).world.player.vector
                &&& final(state).world.player.is_dead == old(state).world.player.is_dead
                &&& final(state).world.player.gun == old(state).world.player.gun
                &&& final(state).world.particles == old(state).world.particles
                &&& final(state).world.powerups == old(state).world.powerups
                &&& final(state).world.bullets == old(state).world.bullets
                &&& final(state).world.enemies == old(state).world.enemies
                &&& final(state).world.stars == old(state).world.stars
                &&& final(state).world.size == old(state).world.size
                &&& final(state).difficulty == old(state).difficulty
                &&& final(state).score == old(state).score
                &&& final(state).message == old(state).message
            },
            self is ShowGameOverScreen ==> {
                &&& (final(state).message matches Some(m) && is_game_over_message(m))
                &&& final(state).world == old(state).world
                &&& final(state).difficulty == old(state).difficulty
                &&& final(state).score == old(state).score
            },
    {
        match self {
            Timeout::RemovePowerup => {
                state.world.player.powerup = None;
            },
            Timeout::ShowGameOverScreen => {
                state.game_over();
            },
        }
    }
}

} // verus!
