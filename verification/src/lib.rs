//! Authoritative simulation core of a multiplayer first-person shooter.
//!
//! The crate owns the true state of every player and enemy actor, advances it
//! one tick at a time, resolves combat and decides who sent which message.
//! Rendering, the network transport and the physics engine are not part of
//! it: they hand the simulation plain values and are handed plain values
//! back.
//!
//! All quantities are fixed-point integers, so that every tick is exactly
//! reproducible on any machine: there is no rounding that depends on the
//! processor and no value that is not a number. Places, speeds, weights and
//! angles have three decimal places ([`fixed`]); directions have six
//! ([`vector`]), so that a direction can be multiplied by a weight or by a
//! speed before the product is cut to three.
//!
//! No stage of the simulation fails on any input. Three functions ask
//! something of their arguments: [`fixed::divide`] a positive divisor,
//! [`game::enemy::flocking::flocking_force`] an index into the snapshot, and
//! [`game::player::camera_controller::update_camera_controller`] a lock that
//! is not negative.
//!
//! - [`game::world`] holds the simulation context and runs a tick.
//! - [`game::enemy`] holds the state machine of the enemies, their flocking
//!   and their movement.
//! - [`game::player`] applies the input of the clients and resolves shots.
//! - [`network`] holds the messages and the connection table by which the
//!   sender of a message is known.
//! - [`vector`], [`angle`] and [`fixed`] hold the arithmetic.

pub mod angle;
pub mod fixed;
pub mod game;
pub mod network;
pub mod vector;
