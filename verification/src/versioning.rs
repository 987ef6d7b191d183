//! Branches, changesets and snapshots of asset repositories.

pub mod model;
pub mod repo;
pub mod manager;
pub mod laws;
pub mod persist;
