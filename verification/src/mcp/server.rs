//! Which reply each MCP request gets.
//!
//! # Security
//!
//! Only structured process management operations are exposed; arbitrary
//! command execution is not offered.  The request's JSON is read, and the
//! reply's JSON written, by the caller: the library decides, from the
//! request's method, tool name and resource URI, which reply is owed.
use vstd::prelude::*;

use crate::collections::string_views;
use crate::mcp::catalog::{
    resources_view, tools_view, ResourceDef, ResourceView, ToolDef, ToolParam, ToolView,
};
use crate::runtime::process::state_name;
use crate::runtime::supervisor::{ManagedProcess, Supervisor};
use crate::text::{chars_of, push_char, push_str, str_eq, to_owned_string};

verus! {

/// The version of the protocol the server speaks.
pub const PROTOCOL_VERSION: &'static str = "2024-11-05";

/// The name under which the server introduces itself.
pub const SERVER_NAME: &'static str = "herd";

/// JSON-RPC error code of a request without a method.
pub const INVALID_REQUEST: i32 = -32600;

/// JSON-RPC error code of an unknown method.
pub const METHOD_NOT_FOUND: i32 = -32601;

/// JSON-RPC error code of an unknown tool or resource.
pub const INVALID_PARAMS: i32 = -32602;

/// An unknown method is quoted in the error message up to this many characters.
pub const MAX_QUOTED_METHOD: usize = 100;

/// Snapshot of a managed process for MCP queries.
pub struct ProcessSnapshot {
    pub name: String,
    pub state: String,
    pub pid: Option<u32>,
    pub section: String,
    pub command: String,
}

/// What the library reads of a JSON-RPC request: its `method`, and the
/// `params.name` and `params.uri` it carries; each is empty when the request
/// has none, or one that is not a string.
pub struct McpRequest {
    pub method: String,
    pub tool_name: String,
    pub uri: String,
}

/// The reply owed to a request.
pub enum McpReply {
    /// The protocol version, the capabilities (tools and resources) and the
    /// server's name.
    Initialize,
    /// The definitions of the tools of `tool_names`.
    ToolList,
    /// The process list and project configuration resources.
    ResourceList,
    /// The process snapshots as pretty-printed JSON, in a text content item.
    ProcessListText,
    /// A text content item.
    Text(String),
    /// The process snapshots as JSON, as the contents of `process://list`.
    ProcessListResource,
    /// A JSON-RPC error.
    Error { code: i32, message: String },
}

/// The reply, over character sequences.
pub enum ReplyView {
    Initialize,
    ToolList,
    ResourceList,
    ProcessListText,
    Text(Seq<char>),
    ProcessListResource,
    Error(i32, Seq<char>),
}

impl View for McpReply {
    type V = ReplyView;

    open spec fn view(&self) -> ReplyView {
        match self {
            McpReply::Initialize => ReplyView::Initialize,
            McpReply::ToolList => ReplyView::ToolList,
            McpReply::ResourceList => ReplyView::ResourceList,
            McpReply::ProcessListText => ReplyView::ProcessListText,
            McpReply::Text(t) => ReplyView::Text(t@),
            McpReply::ProcessListResource => ReplyView::ProcessListResource,
            McpReply::Error { code, message } => ReplyView::Error(*code, message@),
        }
    }
}

/// At most the first `MAX_QUOTED_METHOD` characters of `s`.
pub open spec fn quoted(s: Seq<char>) -> Seq<char> {
    if s.len() <= MAX_QUOTED_METHOD {
        s
    } else {
        s.take(MAX_QUOTED_METHOD as int)
    }
}

/// The reply to `tools/call` for tool `tool`.
pub open spec fn tool_reply(tool: Seq<char>) -> ReplyView {
    if tool == "list_processes"@ || tool == "get_process_health"@ {
        ReplyView::ProcessListText
    } else if tool == "get_process_output"@ {
        ReplyView::Text("Process output retrieval not yet implemented"@)
    } else if tool == "restart_process"@ || tool == "stop_process"@ || tool == "start_process"@ {
        ReplyView::Text("Process control via MCP not yet implemented (tool: "@ + tool + ")"@)
    } else {
        ReplyView::Error(INVALID_PARAMS, "Unknown tool: "@ + tool)
    }
}

/// The reply to `resources/read` for resource `uri`.
pub open spec fn resource_reply(uri: Seq<char>) -> ReplyView {
    if uri == "process://list"@ {
        ReplyView::ProcessListResource
    } else {
        ReplyView::Error(INVALID_PARAMS, "Unknown resource: "@ + uri)
    }
}

/// The reply owed to a request with method `method`, tool name `tool` and
/// resource URI `uri`.
pub open spec fn reply_spec(method: Seq<char>, tool: Seq<char>, uri: Seq<char>) -> ReplyView {
    if method == "initialize"@ {
        ReplyView::Initialize
    } else if method == "tools/list"@ {
        ReplyView::ToolList
    } else if method == "tools/call"@ {
        tool_reply(tool)
    } else if method == "resources/list"@ {
        ReplyView::ResourceList
    } else if method == "resources/read"@ {
        resource_reply(uri)
    } else if method.len() == 0 {
        ReplyView::Error(INVALID_REQUEST, "Missing or invalid 'method' field"@)
    } else {
        ReplyView::Error(METHOD_NOT_FOUND, "Method not found: "@ + quoted(method))
    }
}

/// The tools the server offers, in the order it lists them.
pub open spec fn tool_definitions_spec() -> Seq<ToolView> {
    seq![
        (
            "list_processes"@,
            "List all managed processes with status, PID, and resource usage"@,
            seq![],
        ),
        (
            "get_process_output"@,
            "Get recent terminal output from a process"@,
            seq![("name"@, "string"@, None::<Seq<char>>, None::<u64>, true), ("lines"@, "integer"@, None::<Seq<char>>, Some(50u64), false)],
        ),
        (
            "restart_process"@,
            "Restart a specific managed process by name"@,
            seq![("name"@, "string"@, None::<Seq<char>>, None::<u64>, true)],
        ),
        (
            "stop_process"@,
            "Stop a specific managed process"@,
            seq![("name"@, "string"@, None::<Seq<char>>, None::<u64>, true)],
        ),
        (
            "start_process"@,
            "Start a stopped or lazy managed process"@,
            seq![("name"@, "string"@, None::<Seq<char>>, None::<u64>, true)],
        ),
        (
            "get_process_health"@,
            "Health check for all processes"@,
            seq![],
        ),
    ]
}

/// The tools the server offers, with their descriptions and parameters.
pub fn tool_definitions() -> (r: Vec<ToolDef>)
    ensures
        tools_view(r@) == tool_definitions_spec(),
{
    let r = vec![
        ToolDef {
            name: "list_processes",
            description: "List all managed processes with status, PID, and resource usage",
            params: vec![],
        },
        ToolDef {
            name: "get_process_output",
            description: "Get recent terminal output from a process",
            params: vec![ToolParam { name: "name", kind: "string", description: None, default: None, required: true }, ToolParam { name: "lines", kind: "integer", description: None, default: Some(50), required: false }],
        },
        ToolDef {
            name: "restart_process",
            description: "Restart a specific managed process by name",
            params: vec![ToolParam { name: "name", kind: "string", description: None, default: None, required: true }],
        },
        ToolDef {
            name: "stop_process",
            description: "Stop a specific managed process",
            params: vec![ToolParam { name: "name", kind: "string", description: None, default: None, required: true }],
        },
        ToolDef {
            name: "start_process",
            description: "Start a stopped or lazy managed process",
            params: vec![ToolParam { name: "name", kind: "string", description: None, default: None, required: true }],
        },
        ToolDef {
            name: "get_process_health",
            description: "Health check for all processes",
            params: vec![],
        },
    ];
    proof {
        assert(tools_view(r@) =~~= tool_definitions_spec());
    }
    r
}

/// The resources the server exposes, in the order it lists them.
pub open spec fn resource_definitions_spec() -> Seq<ResourceView> {
    seq![
        ("process://list"@, "Process List"@, "Live list of all managed processes with status"@, "application/json"@),
        ("config://herd.toml"@, "Project Config"@, "Current herd.toml project configuration"@, "application/toml"@),
    ]
}

/// The resources the server exposes.
pub fn resource_definitions() -> (r: Vec<ResourceDef>)
    ensures
        resources_view(r@) == resource_definitions_spec(),
{
    let r = vec![
        ResourceDef { uri: "process://list", name: "Process List", description: "Live list of all managed processes with status", mime_type: "application/json" },
        ResourceDef { uri: "config://herd.toml", name: "Project Config", description: "Current herd.toml project configuration", mime_type: "application/toml" },
    ];
    proof {
        assert(resources_view(r@) =~~= resource_definitions_spec());
    }
    r
}

/// The names of the tools the server offers, in the order it lists them.
pub fn tool_names() -> (r: Vec<&'static str>)
    ensures
        r@.map_values(|s: &str| s@) == seq![
            "list_processes"@,
            "get_process_output"@,
            "restart_process"@,
            "stop_process"@,
            "start_process"@,
            "get_process_health"@,
        ],
{
    let r = vec![
        "list_processes",
        "get_process_output",
        "restart_process",
        "stop_process",
        "start_process",
        "get_process_health",
    ];
    proof {
        assert(r@.map_values(|s: &str| s@) =~= seq![
            "list_processes"@,
            "get_process_output"@,
            "restart_process"@,
            "stop_process"@,
            "start_process"@,
            "get_process_health"@,
        ]);
    }
    r
}

fn quote_method(method: &str) -> (q: String)
    ensures
        q@ == quoted(method@),
{
    let chars = chars_of(method);
    let n = if chars.len() <= MAX_QUOTED_METHOD {
        chars.len()
    } else {
        MAX_QUOTED_METHOD
    };
    let mut q = String::new();
    let mut i: usize = 0;
    while i < n
        invariant
            i <= n,
            n <= chars@.len(),
            chars@ == method@,
            q@ == chars@.take(i as int),
        decreases n - i,
    {
        push_char(&mut q, chars[i]);
        proof {
            assert(chars@.take(i + 1) == chars@.take(i as int).push(chars@[i as int]));
        }
        i = i + 1;
    }
    proof {
        assert(chars@.take(chars@.len() as int) == chars@);
    }
    q
}

fn call_tool(tool: &str) -> (r: McpReply)
    ensures
        r@ == tool_reply(tool@),
{
    if str_eq(tool, "list_processes") || str_eq(tool, "get_process_health") {
        McpReply::ProcessListText
    } else if str_eq(tool, "get_process_output") {
        McpReply::Text(to_owned_string("Process output retrieval not yet implemented"))
    } else if str_eq(tool, "restart_process") || str_eq(tool, "stop_process") || str_eq(
        tool,
        "start_process",
    ) {
        let mut t = to_owned_string("Process control via MCP not yet implemented (tool: ");
        push_str(&mut t, tool);
        push_str(&mut t, ")");
        McpReply::Text(t)
    } else {
        let mut m = to_owned_string("Unknown tool: ");
        push_str(&mut m, tool);
        McpReply::Error { code: INVALID_PARAMS, message: m }
    }
}

fn read_resource(uri: &str) -> (r: McpReply)
    ensures
        r@ == resource_reply(uri@),
{
    if str_eq(uri, "process://list") {
        McpReply::ProcessListResource
    } else {
        let mut m = to_owned_string("Unknown resource: ");
        push_str(&mut m, uri);
        McpReply::Error { code: INVALID_PARAMS, message: m }
    }
}

/// Handle an incoming MCP JSON-RPC request: the reply it is owed.
pub fn handle_request(request: &McpRequest) -> (r: McpReply)
    ensures
        r@ == reply_spec(request.method@, request.tool_name@, request.uri@),
{
    let method = request.method.as_str();
    proof {
        reveal_strlit("");
    }
    if str_eq(method, "initialize") {
        McpReply::Initialize
    } else if str_eq(method, "tools/list") {
        McpReply::ToolList
    } else if str_eq(method, "tools/call") {
        call_tool(request.tool_name.as_str())
    } else if str_eq(method, "resources/list") {
        McpReply::ResourceList
    } else if str_eq(method, "resources/read") {
        read_resource(request.uri.as_str())
    } else if str_eq(method, "") {
        McpReply::Error {
            code: INVALID_REQUEST,
            message: to_owned_string("Missing or invalid 'method' field"),
        }
    } else {
        proof {
            if method@.len() == 0 {
                assert(method@ =~= ""@);
            }
        }
        let mut m = to_owned_string("Method not found: ");
        let q = quote_method(method);
        push_str(&mut m, q.as_str());
        McpReply::Error { code: METHOD_NOT_FOUND, message: m }
    }
}

/// `s` is the snapshot MCP queries report for process `name`.
pub open spec fn snapshot_of(s: ProcessSnapshot, name: Seq<char>, p: ManagedProcess) -> bool {
    &&& s.name@ == name
    &&& s.state@ == state_name(p.state)
    &&& s.pid == p.pid
    &&& s.section@ == p.info.section@
    &&& s.command@ == p.info.command@
}

/// The names of `order` that name a configured process, in order.
pub open spec fn known_names(order: Seq<Seq<char>>, processes: Map<Seq<char>, ManagedProcess>) -> Seq<
    Seq<char>,
>
    decreases order.len(),
{
    if order.len() == 0 {
        Seq::empty()
    } else if processes.contains_key(order.last()) {
        known_names(order.drop_last(), processes).push(order.last())
    } else {
        known_names(order.drop_last(), processes)
    }
}

/// The snapshots of the processes named in `order` (in that order) that the
/// supervisor knows, as the MCP server reports them.
pub fn process_snapshots(supervisor: &Supervisor, order: &Vec<String>) -> (r: Vec<ProcessSnapshot>)
    ensures
        r@.len() == known_names(string_views(order@), supervisor.processes()).len(),
        forall|i: int|
            0 <= i < r@.len() ==> snapshot_of(
                #[trigger] r@[i],
                known_names(string_views(order@), supervisor.processes())[i],
                supervisor.processes()[known_names(string_views(order@), supervisor.processes())[i]],
            ),
{
    let mut r: Vec<ProcessSnapshot> = Vec::new();
    let n = order.len();
    let mut i: usize = 0;
    while i < n
        invariant
            i <= n,
            n == order@.len(),
            r@.len() == known_names(string_views(order@.take(i as int)), supervisor.processes()).len(),
            forall|k: int|
                0 <= k < r@.len() ==> snapshot_of(
                    #[trigger] r@[k],
                    known_names(string_views(order@.take(i as int)), supervisor.processes())[k],
                    supervisor.processes()[known_names(
                        string_views(order@.take(i as int)),
                        supervisor.processes(),
                    )[k]],
                ),
        decreases n - i,
    {
        let name = &order[i];
        let ghost before = known_names(string_views(order@.take(i as int)), supervisor.processes());
        proof {
            let t = string_views(order@.take(i + 1));
            assert(t.drop_last() == string_views(order@.take(i as int)));
            assert(t.last() == name@);
        }
        match supervisor.get_process(name.as_str()) {
            Some(p) => {
                r.push(
                    ProcessSnapshot {
                        name: name.clone(),
                        state: to_owned_string(p.state.name()),
                        pid: p.pid,
                        section: p.info.section.clone(),
                        command: p.info.command.clone(),
                    },
                );
                proof {
                    let after = known_names(string_views(order@.take(i + 1)), supervisor.processes());
                    assert(after == before.push(name@));
                    assert forall|k: int| 0 <= k < r@.len() implies snapshot_of(
                        #[trigger] r@[k],
                        after[k],
                        supervisor.processes()[after[k]],
                    ) by {
                        if k < before.len() {
                            assert(after[k] == before[k]);
                        }
                    }
                }
            },
            None => {},
        }
        i = i + 1;
    }
    proof {
        assert(order@.take(n as int) == order@);
    }
    r
}

/// An unknown method is answered with a "method not found" error whose
/// message quotes at most the method's first hundred characters, so a long
/// method cannot make the reply grow without bound.
pub proof fn law_unknown_method_reply_is_bounded(method: Seq<char>, tool: Seq<char>, uri: Seq<char>)
    requires
        method.len() > 0,
        method != "initialize"@,
        method != "tools/list"@,
        method != "tools/call"@,
        method != "resources/list"@,
        method != "resources/read"@,
    ensures
        reply_spec(method, tool, uri) matches ReplyView::Error(code, message) && code == METHOD_NOT_FOUND
            && message.len() <= "Method not found: "@.len() + MAX_QUOTED_METHOD
            && quoted(method) == message.subrange(
            "Method not found: "@.len() as int,
            message.len() as int,
        ),
{
    let prefix = "Method not found: "@;
    assert((prefix + quoted(method)).subrange(prefix.len() as int, (prefix + quoted(method)).len() as int)
        =~= quoted(method));
}

/// A known method never gets the errors of a malformed request.
pub proof fn law_known_methods_are_not_errors(method: Seq<char>, tool: Seq<char>, uri: Seq<char>)
    requires
        method == "initialize"@ || method == "tools/list"@ || method == "resources/list"@,
    ensures
        !(reply_spec(method, tool, uri) is Error),
{
    reveal_strlit("initialize");
    reveal_strlit("tools/list");
    reveal_strlit("tools/call");
    reveal_strlit("resources/list");
    reveal_strlit("resources/read");
    assert("tools/list"@[0] != "initialize"@[0]);
    assert("resources/list"@[0] != "initialize"@[0]);
    assert("resources/list"@[0] != "tools/list"@[0]);
    assert("resources/list"@[0] != "tools/call"@[0]);
}

/// Every tool that `tools/list` advertises is known to `tools/call`: calling
/// it never gives the unknown-tool error (nor any other error).
pub proof fn law_listed_tools_are_callable(i: int, uri: Seq<char>)
    requires
        0 <= i < tool_definitions_spec().len(),
    ensures
        !(tool_reply(tool_definitions_spec()[i].0) is Error),
        !(reply_spec("tools/call"@, tool_definitions_spec()[i].0, uri) is Error),
{
    reveal_strlit("tools/call");
    reveal_strlit("initialize");
    reveal_strlit("tools/list");
    assert("tools/call"@ != "initialize"@) by {
        assert("tools/call"@[0] != "initialize"@[0]);
    }
    assert("tools/call"@ != "tools/list"@) by {
        assert("tools/call"@[6] != "tools/list"@[6]);
    }
}

} // verus!
