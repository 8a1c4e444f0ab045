//! The world: the container owning every entity collection.

use vstd::prelude::*;
use crate::bullet::{bullet_wf, Bullet};
use crate::enemy::Enemy;
use crate::geometry::{size_wf, vector_wf, Size};
use crate::particle::{particle_wf, Particle};
use crate::player::{player_wf, Player};
use crate::powerup::{powerup_wf, Powerup};
use crate::star::{star_wf, Star};

verus! {

/// The fixed population of background stars.
pub const MAX_STARS: usize = 100;

/// The world owns the player and every entity collection; entities never
/// reference each other.  Insertion order of the collections carries no
/// meaning.
pub struct World {
    pub player: Player,
    pub particles: Vec<Particle>,
    pub powerups: Vec<Powerup>,
    pub bullets: Vec<Bullet>,
    pub enemies: Vec<Enemy>,
    pub stars: Vec<Star>,
    pub size: Size,
}

/// Every entity of the world is well-formed with respect to its size.
pub open spec fn world_wf(w: World) -> bool {
    &&& size_wf(w.size)
    &&& player_wf(w.player, w.size)
    &&& forall|i: int| 0 <= i < w.particles@.len() ==> particle_wf(#[trigger] w.particles@[i])
    &&& forall|i: int| 0 <= i < w.powerups@.len() ==> powerup_wf(#[trigger] w.powerups@[i], w.size)
    &&& forall|i: int| 0 <= i < w.bullets@.len() ==> bullet_wf(#[trigger] w.bullets@[i], w.size)
    &&& forall|i: int| 0 <= i < w.enemies@.len() ==> vector_wf(
        #[trigger] w.enemies@[i].vector,
        w.size,
    )
    &&& forall|i: int| 0 <= i < w.stars@.len() ==> star_wf(#[trigger] w.stars@[i], w.size)
}

impl World {
    /// Returns a new world of the given size: a randomly placed (dead)
    /// player, the fixed population of stars, and no other entities.
    pub fn new(rng: &mut rand::rngs::StdRng, size: Size) -> (r: World)
        requires
            size_wf(size),
        ensures
            world_wf(r),
            r.size == size,
            r.player.is_dead,
            r.player.powerup is None,
            r.particles@.len() == 0,
            r.powerups@.len() == 0,
            r.bullets@.len() == 0,
            r.enemies@.len() == 0,
            r.stars@.len() == MAX_STARS,
    {
        let player = Player::random(rng, &size);
        let mut stars: Vec<Star> = Vec::new();
        let mut i: usize = 0;
        while i < MAX_STARS
            invariant
                size_wf(size),
                i <= MAX_STARS,
                i == stars@.len(),
                forall|k: int| 0 <= k < stars@.len() ==> star_wf(#[trigger] stars@[k], size),
            decreases MAX_STARS - i,
        {
            let star = Star::new(&size, rng);
            stars.push(star);
            i = i + 1;
        }
        World {
            player,
            particles: Vec::new(),
            powerups: Vec::new(),
            bullets: Vec::new(),
            enemies: Vec::new(),
            stars,
            size,
        }
    }
}

} // verus!
