//! Core simulation of a small arcade shooter: a player ship, shots and
//! splitting meteors drift over a wrapping screen, collide, and score points.
//!
//! All geometry is integer, in milli-pixels (1000 per pixel), so that every
//! position, velocity and collision decision is exact. Rendering, input
//! polling, audio and asset loading live outside this crate; the library
//! exposes the world state and takes plain values (elapsed milliseconds,
//! key flags, the ship's facing direction) each frame.

pub mod collision;
pub mod entity;
pub mod geometry;
mod rng;
pub mod state_manager;
pub mod world;
