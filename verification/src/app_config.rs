//! The parts of the application's configuration that MCP synchronisation
//! reads and changes.
use vstd::prelude::*;
use crate::json::{JsonV, JsonValue};

verus! {

/// The applications an MCP server is enabled for.
#[derive(Clone, Copy, Debug)]
pub struct McpApps {
    pub claude: bool,
    pub codex: bool,
    pub gemini: bool,
    pub grokbuild: bool,
    pub opencode: bool,
    pub hermes: bool,
    pub kimicode: bool,
}

/// An MCP server of the unified configuration.
#[derive(Debug)]
pub struct McpServer {
    pub id: String,
    pub name: String,
    pub server: JsonValue,
    pub apps: McpApps,
    pub description: Option<String>,
    pub homepage: Option<String>,
    pub docs: Option<String>,
    pub tags: Vec<String>,
}

/// The view of an MCP server.
pub struct McpServerV {
    pub id: Seq<char>,
    pub name: Seq<char>,
    pub server: JsonV,
    pub apps: McpApps,
    pub description: Option<Seq<char>>,
    pub homepage: Option<Seq<char>>,
    pub docs: Option<Seq<char>>,
    pub tags: Seq<Seq<char>>,
}

pub open spec fn opt_str_view(o: Option<String>) -> Option<Seq<char>> {
    match o {
        Some(s) => Some(s@),
        None => None,
    }
}

impl View for McpServer {
    type V = McpServerV;

    open spec fn view(&self) -> McpServerV {
        McpServerV {
            id: self.id@,
            name: self.name@,
            server: self.server@,
            apps: self.apps,
            description: opt_str_view(self.description),
            homepage: opt_str_view(self.homepage),
            docs: opt_str_view(self.docs),
            tags: Seq::new(self.tags@.len(), |i: int| self.tags@[i]@),
        }
    }
}

/// The per-application MCP configuration of earlier versions: entries by id,
/// each an object with `enabled` and `server`.
#[derive(Debug)]
pub struct McpConfig {
    pub servers: Vec<(String, JsonValue)>,
}

/// The MCP part of the configuration: the per-application entries and the unified
/// servers, by id.
#[derive(Debug)]
pub struct McpRoot {
    pub claude: McpConfig,
    pub servers: Option<Vec<(String, McpServer)>>,
}

/// The application's configuration.
#[derive(Debug)]
pub struct MultiAppConfig {
    pub mcp: McpRoot,
}

/// The view of the unified servers.
pub open spec fn servers_view(s: Seq<(String, McpServer)>) -> Seq<(Seq<char>, McpServerV)> {
    Seq::new(s.len(), |i: int| (s[i].0@, s[i].1@))
}

} // verus!
