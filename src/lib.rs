//! Simulation core of a small arcade space shooter: kinematics, spherical
//! collision detection, collision damage, reaping, spaceship controls and the
//! run-state machine, all on fixed-point integer quantities.
//!
//! Units: lengths are micro-units (`UNIT` per world unit), time is in
//! milliseconds, velocities in micro-units per millisecond (a thousandth of a
//! world unit per second), directions in per-mille (1000 is one world unit).

pub mod asteroids;
pub mod collision;
pub mod despawn;
pub mod entity;
pub mod health;
pub mod kinematics;
pub mod spaceship;
pub mod state;
pub mod vec3;
pub mod world;
