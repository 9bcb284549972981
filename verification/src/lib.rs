//! Verified core of the Herd process manager.
pub mod collections;
pub mod config;
pub mod events;
pub mod host;
pub mod mcp;
pub mod notify;
pub mod runtime;
pub mod seqs;
pub mod sidebar;
pub mod soloterm;
pub mod status;
pub mod terminal;
pub mod text;
