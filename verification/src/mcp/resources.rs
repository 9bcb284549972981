//! MCP resource URI definitions.
//!
//! Resources provide read-only access to workspace state
//! that AI agents can query for context.
use vstd::prelude::*;

use crate::text::{push_str, to_owned_string};

verus! {

pub const RESOURCE_PROCESS_LIST: &'static str = "process://list";

pub const RESOURCE_PROJECT_CONFIG: &'static str = "config://herd.toml";

/// Dynamic resource URI pattern for per-process output
pub fn process_output_uri(name: &str) -> (uri: String)
    ensures
        uri@ == "process://"@ + name@ + "/output"@,
{
    let mut uri = to_owned_string("process://");
    push_str(&mut uri, name);
    push_str(&mut uri, "/output");
    uri
}

} // verus!
