//! The desktop app: what its commands decide before and after they ask.

pub mod groups;
pub mod misc;
