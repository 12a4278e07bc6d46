//! A particle fountain engine in integer fixed point: a spawn scheduler that
//! admits batches of particles on a deadline, an integrator that applies
//! gravity and resolves contact with a ground plane, and a reaper that removes
//! particles whose lifetime has elapsed.

pub mod geometry;
pub mod config;
pub mod particle;
pub mod physics;
pub mod random;
pub mod spawn;
pub mod simulation;
