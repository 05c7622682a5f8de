//! The simulation: actors, and the stages that advance them each tick.

pub mod cursor;
pub mod enemy;
pub mod player;
pub mod transform;
pub mod world;
