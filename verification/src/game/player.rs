//! Players: what they are made of and how their input is applied.

pub mod camera_controller;
pub mod combat;
pub mod components;
pub mod input;
pub mod invariants;
pub mod movement;
pub mod systems;
