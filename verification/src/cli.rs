//! The logic of the `ht` command-line client: its local records, its tokens
//! and how it reads the state of a workspace.
pub mod models;
pub mod client;
pub mod status;
pub mod workflow;
pub mod workspace;
pub mod commands;
pub mod checkpoint;
