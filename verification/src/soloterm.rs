//! The SoloTerm workspace: its own, more permissive policies for output
//! sanitizing, trust, orphan cleanup and the MCP server, over the data model
//! of the rest of the crate.
pub mod local_config;
pub mod mcp;
pub mod orphan;
pub mod sanitizer;
pub mod trust;
