//! Heartbeat control center: the verified core.
pub mod api;
pub mod config;
pub mod errors;
pub mod text;
pub mod table;
pub mod history;
pub mod engine;
pub mod commands;
pub mod snapshot;
pub mod vault;
pub mod laws;
pub mod cycle;
