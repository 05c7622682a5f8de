//! Enemies: what they are made of and how they behave.

pub mod components;
pub mod flocking;
pub mod fsm;
pub mod invariants;
pub mod movement;
pub mod systems;
pub mod targeting;
