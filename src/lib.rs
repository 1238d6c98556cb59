//! The simulation core of a top-down arcade shooter: the ship, its bullets
//! and the adversaries, advanced one fixed tick at a time, with collisions,
//! score, health and the end and restart of a session.

pub mod dice;
pub mod entities;
pub mod geometry;
pub mod input;
pub mod world;
