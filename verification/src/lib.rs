//! HyperTide: centralized version control for large binary assets.
//!
//! The verified core of the HyperTide server and command-line client.

pub mod error;
pub mod clock;
pub mod text;
pub mod keyed;
pub mod order;
pub mod digest;
pub mod versioning;
pub mod lock;
pub mod auth;
pub mod api;
pub mod session;
pub mod witness;
pub mod manifest;
pub mod compliance;
pub mod high_risk;
pub mod replay;
pub mod audit;
pub mod cli;
pub mod requests;
pub mod handlers;
pub mod server;
pub mod storage;
pub mod path;
