//! Core logic of a chat bot: configuration, per-chat state and command handling.

pub mod store;
pub mod text;
pub mod config;
pub mod state;
pub mod handler;
pub mod commands;
pub mod logger;
pub mod laws;
