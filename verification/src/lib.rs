pub mod entity;
pub mod game;
mod rng;
pub mod scheduler;
