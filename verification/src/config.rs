//! Project configuration: process definitions, defaults, variable expansion,
//! where configuration files are found, framework detection and command trust.
pub mod command_identity;
pub mod detect;
pub mod env_resolver;
pub mod locate;
pub mod schema;
pub mod trust;
