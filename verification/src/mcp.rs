//! The MCP server's protocol logic: which reply each request gets, and what
//! the server exposes about the managed processes.
pub mod catalog;
pub mod resources;
pub mod server;
