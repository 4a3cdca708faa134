//! A verified flocking (boids) simulation core with fixed-point arithmetic,
//! together with an integer hexagonal-coordinate module.
//!
//! All simulation quantities are scaled integers: one world unit is
//! `fxp::FP_ONE` fixed-point units. Positions, velocities, accelerations and
//! steering forces are `Vec2` values of scaled integers, so every tick is a
//! pure, deterministic function of the previous state, the configuration and
//! the time step.

pub mod agent;
pub mod config;
pub mod coord;
pub mod fxp;
pub mod hexmap;
pub mod motion;
pub mod rng;
pub mod sched;
pub mod sim;
pub mod steer;
pub mod vec2;
pub mod viewer;
