//! Simulation core of a toroidal top-down arcade shooter.
//!
//! The world is a torus: entities that cross one edge re-enter from the
//! opposite one.  All quantities are fixed-point integers: positions are
//! measured in milli-units (one thousandth of a world unit), angles in
//! millidegrees, time in milliseconds.  The host supplies input as a plain
//! set of boolean actions and a seeded random generator, and reads back the
//! mutated game state together with a queue of discrete events.

pub mod bullet;
pub mod collisions;
pub mod enemy;
pub mod events;
pub mod game_state;
pub mod geometry;
pub mod gun;
pub mod input;
pub mod particle;
pub mod player;
pub mod powerup;
pub mod rng;
pub mod star;
pub mod time_controller;
pub mod timer;
pub mod timeout_queue;
pub mod trig;
pub mod util;
pub mod world;
