use herd::collections::NamedMap;
use herd::config::schema::ProcessConfig;
use herd::mcp::resources::{process_output_uri, RESOURCE_PROCESS_LIST, RESOURCE_PROJECT_CONFIG};
use herd::mcp::server::{
    handle_request, process_snapshots, tool_names, McpReply, McpRequest, ProcessSnapshot,
    PROTOCOL_VERSION, SERVER_NAME,
};
use herd::runtime::process::ProcessState;
use herd::runtime::supervisor::Supervisor;
use herd::soloterm::mcp::{handle_request as solo_handle_request, tool_names as solo_tool_names, SoloReply};

fn request(method: &str) -> McpRequest {
    McpRequest { method: method.to_string(), tool_name: String::new(), uri: String::new() }
}

fn tool_call(name: &str) -> McpRequest {
    McpRequest { method: "tools/call".to_string(), tool_name: name.to_string(), uri: String::new() }
}

fn error_of(reply: McpReply) -> (i32, String) {
    match reply {
        McpReply::Error { code, message } => (code, message),
        _ => panic!("expected an error reply"),
    }
}

fn config(name: &str, section: &str, command: &str) -> ProcessConfig {
    ProcessConfig {
        name: name.to_string(),
        command: command.to_string(),
        working_dir: None,
        auto_restart: false,
        section: section.to_string(),
        lazy: false,
        interactive: false,
        restart_delay_ms: None,
        watch: None,
        env: NamedMap::new(),
    }
}

#[test]
fn test_initialize() {
    assert!(matches!(handle_request(&request("initialize")), McpReply::Initialize));
    assert_eq!(PROTOCOL_VERSION, "2024-11-05");
    assert_eq!(SERVER_NAME, "herd");
}

#[test]
fn test_tools_list_returns_6_no_run_command() {
    assert!(matches!(handle_request(&request("tools/list")), McpReply::ToolList));
    let names = tool_names();
    assert_eq!(names.len(), 6);
    assert!(!names.contains(&"run_command"));
    assert!(names.contains(&"list_processes"));
    assert!(names.contains(&"get_process_health"));
}

#[test]
fn test_tool_call_list_with_state() {
    let mut sup = Supervisor::new("test", None);
    sup.add_process(&config("web", "services", "npm run dev"));
    sup.set_state("web", ProcessState::Running);
    let snapshots = process_snapshots(&sup, &vec!["web".to_string()]);
    assert!(matches!(handle_request(&tool_call("list_processes")), McpReply::ProcessListText));
    assert_eq!(snapshots.len(), 1);
    assert!(snapshots[0].name.contains("web"));
    assert!(snapshots[0].state.to_lowercase().contains("running"));
}

#[test]
fn test_resource_read_process_list() {
    let mut sup = Supervisor::new("test", None);
    sup.add_process(&config("db", "services", "pg_ctl"));
    sup.set_state("db", ProcessState::Stopped);
    let req = McpRequest {
        method: "resources/read".to_string(),
        tool_name: String::new(),
        uri: "process://list".to_string(),
    };
    assert!(matches!(handle_request(&req), McpReply::ProcessListResource));
    let snapshots = process_snapshots(&sup, &vec!["db".to_string()]);
    assert_eq!(snapshots[0].name, "db");
}

#[test]
fn test_unknown_method_error() {
    let (code, _) = error_of(handle_request(&request("bad")));
    assert_eq!(code, -32601);
}

#[test]
fn test_missing_method_error() {
    let (code, message) = error_of(handle_request(&request("")));
    assert_eq!(code, -32600);
    assert_eq!(message, "Missing or invalid 'method' field");
}

#[test]
fn test_unknown_tool_error() {
    let (code, message) = error_of(handle_request(&tool_call("evil")));
    assert_eq!(code, -32602);
    assert_eq!(message, "Unknown tool: evil");
}

#[test]
fn long_unknown_methods_are_quoted_in_part() {
    let method = "x".repeat(250);
    let (code, message) = error_of(handle_request(&request(&method)));
    assert_eq!(code, -32601);
    assert_eq!(message, format!("Method not found: {}", "x".repeat(100)));
    let (_, short) = error_of(handle_request(&request("bad")));
    assert_eq!(short, "Method not found: bad");
}

#[test]
fn tool_calls_get_their_replies() {
    assert!(matches!(handle_request(&tool_call("get_process_health")), McpReply::ProcessListText));
    match handle_request(&tool_call("get_process_output")) {
        McpReply::Text(t) => assert_eq!(t, "Process output retrieval not yet implemented"),
        _ => panic!("expected a text reply"),
    }
    match handle_request(&tool_call("restart_process")) {
        McpReply::Text(t) => assert_eq!(t, "Process control via MCP not yet implemented (tool: restart_process)"),
        _ => panic!("expected a text reply"),
    }
    let (code, message) = error_of(handle_request(&tool_call("")));
    assert_eq!(code, -32602);
    assert_eq!(message, "Unknown tool: ");
}

#[test]
fn unknown_resources_are_errors() {
    assert!(matches!(handle_request(&request("resources/list")), McpReply::ResourceList));
    let req = McpRequest {
        method: "resources/read".to_string(),
        tool_name: String::new(),
        uri: "config://herd.toml".to_string(),
    };
    let (code, message) = error_of(handle_request(&req));
    assert_eq!(code, -32602);
    assert_eq!(message, "Unknown resource: config://herd.toml");
}

#[test]
fn resource_uris() {
    assert_eq!(RESOURCE_PROCESS_LIST, "process://list");
    assert_eq!(RESOURCE_PROJECT_CONFIG, "config://herd.toml");
    assert_eq!(process_output_uri("web"), "process://web/output");
}

#[test]
fn snapshots_follow_the_given_order_and_skip_unknown_names() {
    let mut sup = Supervisor::new("test", None);
    sup.add_process(&config("a", "services", "run-a"));
    sup.add_process(&config("b", "agents", "run-b"));
    sup.record_start("b", 4_000_000_100);
    let order = vec!["b".to_string(), "ghost".to_string(), "a".to_string()];
    let s: Vec<ProcessSnapshot> = process_snapshots(&sup, &order);
    assert_eq!(s.len(), 2);
    assert_eq!((s[0].name.as_str(), s[0].state.as_str(), s[0].pid), ("b", "Running", Some(4_000_000_100)));
    assert_eq!((s[0].section.as_str(), s[0].command.as_str()), ("agents", "run-b"));
    assert_eq!((s[1].name.as_str(), s[1].state.as_str(), s[1].pid), ("a", "Pending", None));
}

#[test]
fn soloterm_server_routes_methods() {
    assert!(matches!(solo_handle_request("initialize"), SoloReply::Initialize));
    assert!(matches!(solo_handle_request("tools/call"), SoloReply::ToolNotImplemented));
    assert!(matches!(solo_handle_request("resources/read"), SoloReply::EmptyProcessList));
    match solo_handle_request("") {
        SoloReply::Error { code, message } => {
            assert_eq!(code, -32601);
            assert_eq!(message, "Method not found: ");
        }
        _ => panic!("expected an error reply"),
    }
    assert!(solo_tool_names().contains(&"run_command"));
    assert_eq!(solo_tool_names().len(), 7);
}

#[test]
fn tool_definitions_describe_each_tool() {
    let tools = herd::mcp::server::tool_definitions();
    let names: Vec<&str> = tools.iter().map(|t| t.name).collect();
    assert_eq!(names, tool_names());
    assert_eq!(tools[0].description, "List all managed processes with status, PID, and resource usage");
    assert!(tools[0].params.is_empty());
    let output = &tools[1];
    assert_eq!(output.params.len(), 2);
    assert_eq!((output.params[0].name, output.params[0].kind, output.params[0].required), ("name", "string", true));
    assert_eq!((output.params[1].name, output.params[1].kind, output.params[1].default), ("lines", "integer", Some(50)));
    assert!(!output.params[1].required);
    let res = herd::mcp::server::resource_definitions();
    assert_eq!(res[1].uri, "config://herd.toml");
    assert_eq!(res[1].mime_type, "application/toml");
}

#[test]
fn solo_tool_definitions_describe_each_tool() {
    let tools = herd::soloterm::mcp::tool_definitions();
    let names: Vec<&str> = tools.iter().map(|t| t.name).collect();
    assert_eq!(names, solo_tool_names());
    let run = &tools[5];
    assert_eq!(run.name, "run_command");
    assert_eq!(run.params[0].description, Some("Shell command to execute"));
    assert!(run.params[0].required);
    assert_eq!(run.params[1].name, "working_dir");
    assert!(!run.params[1].required);
    assert_eq!(tools[1].params[1].description, Some("Number of lines (default 50)"));
    let res = herd::soloterm::mcp::resource_definitions();
    assert_eq!(res[0].description, "Live list of all managed processes with status");
    assert_eq!(res[1].uri, "config://solo.toml");
}
