//! Discrete events the simulation emits for the host to consume.

use vstd::prelude::*;

verus! {

/// An observable outcome of a tick, consumed by the host (typically to
/// play a sound).  The core enqueues events but never acts on them.
#[derive(Clone, Copy, Debug, PartialEq, Eq, Structural)]
pub enum Event {
    PlayerDestroyed,
    EnemyDestroyed,
    PowerupGained,
    ShotFired,
    EnemySpawned,
    GameStart,
}

} // verus!
