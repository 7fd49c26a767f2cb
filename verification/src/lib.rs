//! Hoard's rules for game saves, with their proofs.

pub mod agent;
pub mod cli;
pub mod clock;
pub mod desktop;
pub mod fileclass;
pub mod glob;
pub mod ids;
pub mod secret;
pub mod server;
pub mod text;
pub mod wire;
