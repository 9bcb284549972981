//! What an MCP server lists about itself: its tools, with their parameters,
//! and its resources.
use vstd::prelude::*;

verus! {

/// A parameter of a tool's input.
pub struct ToolParam {
    pub name: &'static str,
    /// The JSON type of the value (`string`, `integer`).
    pub kind: &'static str,
    pub description: Option<&'static str>,
    /// The value used when the parameter is not given.
    pub default: Option<u64>,
    pub required: bool,
}

/// A tool that the server offers.
pub struct ToolDef {
    pub name: &'static str,
    pub description: &'static str,
    pub params: Vec<ToolParam>,
}

/// A resource that the server exposes.
pub struct ResourceDef {
    pub uri: &'static str,
    pub name: &'static str,
    pub description: &'static str,
    pub mime_type: &'static str,
}

/// A parameter as (name, type, description, default, required).
pub type ParamView = (Seq<char>, Seq<char>, Option<Seq<char>>, Option<u64>, bool);

/// A tool as (name, description, parameters).
pub type ToolView = (Seq<char>, Seq<char>, Seq<ParamView>);

/// A resource as (URI, name, description, MIME type).
pub type ResourceView = (Seq<char>, Seq<char>, Seq<char>, Seq<char>);

pub open spec fn opt_str_view(s: Option<&'static str>) -> Option<Seq<char>> {
    match s {
        Some(t) => Some(t@),
        None => None,
    }
}

pub open spec fn param_view(p: ToolParam) -> ParamView {
    (p.name@, p.kind@, opt_str_view(p.description), p.default, p.required)
}

pub open spec fn tool_view(t: ToolDef) -> ToolView {
    (t.name@, t.description@, t.params@.map_values(|p: ToolParam| param_view(p)))
}

pub open spec fn tools_view(s: Seq<ToolDef>) -> Seq<ToolView> {
    s.map_values(|t: ToolDef| tool_view(t))
}

pub open spec fn resource_view(r: ResourceDef) -> ResourceView {
    (r.uri@, r.name@, r.description@, r.mime_type@)
}

pub open spec fn resources_view(s: Seq<ResourceDef>) -> Seq<ResourceView> {
    s.map_values(|r: ResourceDef| resource_view(r))
}

} // verus!
