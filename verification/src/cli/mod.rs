//! The command line: what each command asks, decides and says.

pub mod adopt;
pub mod config;
pub mod group;
pub mod order;
pub mod output;
pub mod saves;
pub mod share;
pub mod status;
pub mod world;
