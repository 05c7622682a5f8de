//! The simulation context that every stage works on.

pub mod state;
pub mod tick;
