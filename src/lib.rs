//! A tick-driven simulation core for an arcade game of ships, asteroids and
//! saucers on a wrapped screen, in fixed-point integer arithmetic.
pub mod geometry;
pub mod rng;
pub mod ship;
pub mod entities;
pub mod spawn;
pub mod collision;
pub mod game;
pub mod laws;
