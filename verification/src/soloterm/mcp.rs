//! Which reply each request to the SoloTerm MCP server gets.
use vstd::prelude::*;

use crate::mcp::catalog::{
    resources_view, tools_view, ResourceDef, ResourceView, ToolDef, ToolParam, ToolView,
};
use crate::text::{push_str, str_eq, to_owned_string};

verus! {

/// The name under which the server introduces itself.
pub const SERVER_NAME: &'static str = "soloterm";

/// JSON-RPC error code of an unknown method.
pub const METHOD_NOT_FOUND: i32 = -32601;

/// The reply owed to a request.
pub enum SoloReply {
    /// The protocol version, the capabilities and the server's name.
    Initialize,
    /// The definitions of the tools of `tool_names`.
    ToolList,
    /// A tool call: tool execution is not available yet.
    ToolNotImplemented,
    /// The process list and project configuration resources.
    ResourceList,
    /// A resource read: the process list, empty.
    EmptyProcessList,
    /// A JSON-RPC error.
    Error { code: i32, message: String },
}

/// The reply, over character sequences.
pub enum SoloReplyView {
    Initialize,
    ToolList,
    ToolNotImplemented,
    ResourceList,
    EmptyProcessList,
    Error(i32, Seq<char>),
}

impl View for SoloReply {
    type V = SoloReplyView;

    open spec fn view(&self) -> SoloReplyView {
        match self {
            SoloReply::Initialize => SoloReplyView::Initialize,
            SoloReply::ToolList => SoloReplyView::ToolList,
            SoloReply::ToolNotImplemented => SoloReplyView::ToolNotImplemented,
            SoloReply::ResourceList => SoloReplyView::ResourceList,
            SoloReply::EmptyProcessList => SoloReplyView::EmptyProcessList,
            SoloReply::Error { code, message } => SoloReplyView::Error(*code, message@),
        }
    }
}

/// The reply owed to a request with method `method` (empty when the request
/// has none).
pub open spec fn solo_reply_spec(method: Seq<char>) -> SoloReplyView {
    if method == "initialize"@ {
        SoloReplyView::Initialize
    } else if method == "tools/list"@ {
        SoloReplyView::ToolList
    } else if method == "tools/call"@ {
        SoloReplyView::ToolNotImplemented
    } else if method == "resources/list"@ {
        SoloReplyView::ResourceList
    } else if method == "resources/read"@ {
        SoloReplyView::EmptyProcessList
    } else {
        SoloReplyView::Error(METHOD_NOT_FOUND, "Method not found: "@ + method)
    }
}

/// The tools the server offers, in the order it lists them.
pub open spec fn tool_definitions_spec() -> Seq<ToolView> {
    seq![
        (
            "list_processes"@,
            "List all managed processes with their status, PID, and resource usage"@,
            seq![],
        ),
        (
            "get_process_output"@,
            "Get recent terminal output from a process"@,
            seq![("name"@, "string"@, Some("Process name"@), None::<u64>, true), ("lines"@, "integer"@, Some("Number of lines (default 50)"@), Some(50u64), false)],
        ),
        (
            "restart_process"@,
            "Restart a specific process by name"@,
            seq![("name"@, "string"@, Some("Process name"@), None::<u64>, true)],
        ),
        (
            "stop_process"@,
            "Stop a specific process"@,
            seq![("name"@, "string"@, Some("Process name"@), None::<u64>, true)],
        ),
        (
            "start_process"@,
            "Start a stopped or lazy process"@,
            seq![("name"@, "string"@, Some("Process name"@), None::<u64>, true)],
        ),
        (
            "run_command"@,
            "Execute a one-off shell command and return its output"@,
            seq![("command"@, "string"@, Some("Shell command to execute"@), None::<u64>, true), ("working_dir"@, "string"@, Some("Working directory (optional)"@), None::<u64>, false)],
        ),
        (
            "get_process_health"@,
            "Health check showing which processes are running, crashed, or stopped"@,
            seq![],
        ),
    ]
}

/// The tools the server offers, with their descriptions and parameters.
pub fn tool_definitions() -> (r: Vec<ToolDef>)
    ensures
        tools_view(r@) == tool_definitions_spec(),
{
    let r = vec![
        ToolDef {
            name: "list_processes",
            description: "List all managed processes with their status, PID, and resource usage",
            params: vec![],
        },
        ToolDef {
            name: "get_process_output",
            description: "Get recent terminal output from a process",
            params: vec![ToolParam { name: "name", kind: "string", description: Some("Process name"), default: None, required: true }, ToolParam { name: "lines", kind: "integer", description: Some("Number of lines (default 50)"), default: Some(50), required: false }],
        },
        ToolDef {
            name: "restart_process",
            description: "Restart a specific process by name",
            params: vec![ToolParam { name: "name", kind: "string", description: Some("Process name"), default: None, required: true }],
        },
        ToolDef {
            name: "stop_process",
            description: "Stop a specific process",
            params: vec![ToolParam { name: "name", kind: "string", description: Some("Process name"), default: None, required: true }],
        },
        ToolDef {
            name: "start_process",
            description: "Start a stopped or lazy process",
            params: vec![ToolParam { name: "name", kind: "string", description: Some("Process name"), default: None, required: true }],
        },
        ToolDef {
            name: "run_command",
            description: "Execute a one-off shell command and return its output",
            params: vec![ToolParam { name: "command", kind: "string", description: Some("Shell command to execute"), default: None, required: true }, ToolParam { name: "working_dir", kind: "string", description: Some("Working directory (optional)"), default: None, required: false }],
        },
        ToolDef {
            name: "get_process_health",
            description: "Health check showing which processes are running, crashed, or stopped",
            params: vec![],
        },
    ];
    proof {
        assert(tools_view(r@) =~~= tool_definitions_spec());
    }
    r
}

/// The resources the server exposes, in the order it lists them.
pub open spec fn resource_definitions_spec() -> Seq<ResourceView> {
    seq![
        ("process://list"@, "Process List"@, "Live list of all managed processes with status"@, "application/json"@),
        ("config://solo.toml"@, "Project Config"@, "Current solo.toml project configuration"@, "application/toml"@),
    ]
}

/// The resources the server exposes.
pub fn resource_definitions() -> (r: Vec<ResourceDef>)
    ensures
        resources_view(r@) == resource_definitions_spec(),
{
    let r = vec![
        ResourceDef { uri: "process://list", name: "Process List", description: "Live list of all managed processes with status", mime_type: "application/json" },
        ResourceDef { uri: "config://solo.toml", name: "Project Config", description: "Current solo.toml project configuration", mime_type: "application/toml" },
    ];
    proof {
        assert(resources_view(r@) =~~= resource_definitions_spec());
    }
    r
}

/// The names of the tools the server offers, in the order it lists them.
pub fn tool_names() -> (r: Vec<&'static str>)
    ensures
        r@.map_values(|s: &str| s@) == seq![
            "list_processes"@,
            "get_process_output"@,
            "restart_process"@,
            "stop_process"@,
            "start_process"@,
            "run_command"@,
            "get_process_health"@,
        ],
{
    let r = vec![
        "list_processes",
        "get_process_output",
        "restart_process",
        "stop_process",
        "start_process",
        "run_command",
        "get_process_health",
    ];
    proof {
        assert(r@.map_values(|s: &str| s@) =~= seq![
            "list_processes"@,
            "get_process_output"@,
            "restart_process"@,
            "stop_process"@,
            "start_process"@,
            "run_command"@,
            "get_process_health"@,
        ]);
    }
    r
}

/// Handle an incoming MCP JSON-RPC request with method `method`: the reply
/// it is owed.
pub fn handle_request(method: &str) -> (r: SoloReply)
    ensures
        r@ == solo_reply_spec(method@),
{
    if str_eq(method, "initialize") {
        SoloReply::Initialize
    } else if str_eq(method, "tools/list") {
        SoloReply::ToolList
    } else if str_eq(method, "tools/call") {
        SoloReply::ToolNotImplemented
    } else if str_eq(method, "resources/list") {
        SoloReply::ResourceList
    } else if str_eq(method, "resources/read") {
        SoloReply::EmptyProcessList
    } else {
        let mut m = to_owned_string("Method not found: ");
        push_str(&mut m, method);
        SoloReply::Error { code: METHOD_NOT_FOUND, message: m }
    }
}

} // verus!
