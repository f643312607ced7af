//! Wave-based combat simulation core of a two-player arena shooter.
//!
//! All quantities are integers in fixed units:
//! - time in microseconds,
//! - positions in hundredths of a pixel, speeds in hundredths of a pixel per second,
//! - health and damage in thousandths of a hit point,
//! - angles in microradians.
//!
//! The engine around the core (rendering, physics, input, persistence) hands plain
//! values in and carries out the spawn, despawn and velocity commands that come back.
pub mod timer;
pub mod geometry;
pub mod health;
mod chance;
pub mod spawner;
pub mod enemy;
pub mod weapons;
pub mod contacts;
pub mod cleanup;
pub mod progress;
pub mod level;
pub mod player;
pub mod camera;
