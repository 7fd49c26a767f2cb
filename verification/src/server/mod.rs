//! The server: where bytes live, who may read and push, who hosts.

pub mod access;
pub mod groups;
pub mod json;
pub mod leases;
pub mod namespace;
pub mod reply;
pub mod roundtrip;
pub mod saves;
pub mod settle;
pub mod share;
pub mod store;
