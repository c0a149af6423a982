//! Verified core of a top-down arcade wave shooter.
//!
//! The library models the simulation on plain integers: positions are
//! coordinates on a bounded integer plane, time is counted in milliseconds,
//! and every per-tick update routine (behaviors, movement, collision,
//! damage, death, pickups, wave progression) is a verified function with an
//! explicit contract. Rendering, input, audio and windowing are not part of
//! the model; a host program drives the simulation tick by tick.

pub mod behaviors;
pub mod collision;
pub mod components;
pub mod crafting;
pub mod damage;
pub mod drone;
pub mod game;
pub mod game_state;
pub mod health;
pub mod inventory;
pub mod math;
pub mod palette;
pub mod physics;
pub mod player;
pub mod pickup;
pub mod resources;
mod rng;
pub mod timer;
pub mod wave;
pub mod weapon;
pub mod world;

pub use math::Vec2i;
