//! The agent: what runs on a player's machine.

pub mod api;
pub mod claim;
pub mod idmap;
pub mod lease;
pub mod live;
pub mod reconcile;
pub mod savefilter;
pub mod sessions;
pub mod slot;
pub mod testing;
pub mod testserver;
pub mod update;
pub mod updater;
pub mod worldfiles;
