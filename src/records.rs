//! The typed values that the registry's operations hand back.
use vstd::prelude::*;

verus! {

/// Connectivity of one server, as the detail view reports it.
#[derive(Debug, Clone, PartialEq, Eq)]
pub struct ServerStatus {
    /// Whether the server is running.
    pub running: bool,
    /// The last error message, if any.
    pub error: Option<String>,
    /// When this was read, in seconds since the Unix epoch.
    pub last_checked: Option<u64>,
}

/// One named server integration.
#[derive(Debug, Clone, PartialEq, Eq)]
pub struct MCPServer {
    /// Server name.
    pub name: String,
    /// Transport: "stdio" or "sse".
    pub transport: String,
    /// Command to execute (stdio).
    pub command: Option<String>,
    /// Command arguments (stdio).
    pub args: Vec<String>,
    /// Environment variables, keys unique, in the order given.
    pub env: Vec<(String, String)>,
    /// Endpoint (sse).
    pub url: Option<String>,
    /// Scope: "local", "project" or "user".
    pub scope: String,
    /// Whether the server is active.
    pub is_active: bool,
    /// Connectivity.
    pub status: ServerStatus,
}

/// The three configuration file locations.
#[derive(Debug, Clone, PartialEq, Eq)]
pub struct MCPConfigPaths {
    /// Project-specific private settings.
    pub local: String,
    /// The shared project file.
    pub project: String,
    /// The user's global file.
    pub user: String,
}

/// The project-scope configuration: server name to definition, names unique.
#[derive(Debug, Clone, PartialEq, Eq)]
pub struct MCPProjectConfig {
    pub mcp_servers: Vec<(String, MCPServerConfig)>,
}

/// One server definition of the project-scope file.
#[derive(Debug, Clone, PartialEq, Eq)]
pub struct MCPServerConfig {
    pub transport_type: String,
    pub command: String,
    pub args: Vec<String>,
    pub env: Vec<(String, String)>,
    pub url: Option<String>,
    pub headers: Option<Vec<(String, String)>>,
}

/// Outcome of adding a server.
#[derive(Debug, Clone, PartialEq, Eq)]
pub struct AddServerResult {
    pub success: bool,
    pub message: String,
    pub server_name: Option<String>,
}

/// Outcome of importing a set of servers.
#[derive(Debug, Clone, PartialEq, Eq)]
pub struct ImportResult {
    pub imported_count: u32,
    pub failed_count: u32,
    pub servers: Vec<ImportServerResult>,
}

/// Outcome of importing one server.
#[derive(Debug, Clone, PartialEq, Eq)]
pub struct ImportServerResult {
    pub name: String,
    pub success: bool,
    pub error: Option<String>,
}

/// Whether no two entries of `entries` share a key.
pub open spec fn keys_unique<V>(entries: Seq<(String, V)>) -> bool {
    forall|i: int, j: int|
        0 <= i < entries.len() && 0 <= j < entries.len() && i != j ==> entries[i].0@
            != entries[j].0@
}

impl MCPServer {
    /// Environment keys are unique.
    pub open spec fn wf(&self) -> bool {
        keys_unique(self.env@)
    }
}

impl MCPServerConfig {
    /// Environment and header keys are unique.
    pub open spec fn wf(&self) -> bool {
        &&& keys_unique(self.env@)
        &&& self.headers matches Some(h) ==> keys_unique(h@)
    }
}

impl MCPProjectConfig {
    /// Server names are unique.
    pub open spec fn wf(&self) -> bool {
        &&& keys_unique(self.mcp_servers@)
        &&& forall|i: int| 0 <= i < self.mcp_servers@.len() ==> (#[trigger] self.mcp_servers@[i]).1.wf()
    }
}

impl ImportResult {
    /// The counts add up to the per-item results, split by outcome.
    pub open spec fn wf(&self) -> bool {
        &&& self.imported_count + self.failed_count == self.servers@.len()
        &&& self.imported_count == self.servers@.filter(|s: ImportServerResult| s.success).len()
    }
}

} // verus!

verus! {

/// The view of an optional string.
pub open spec fn opt_view(o: Option<String>) -> Option<Seq<char>> {
    match o {
        Some(s) => Some(s@),
        None => None,
    }
}

/// The view of a sequence of strings.
pub open spec fn strings_view(v: Seq<String>) -> Seq<Seq<char>> {
    v.map_values(|s: String| s@)
}

/// The view of a sequence of string pairs.
pub open spec fn pairs_view(v: Seq<(String, String)>) -> Seq<(Seq<char>, Seq<char>)> {
    v.map_values(|p: (String, String)| (p.0@, p.1@))
}

/// A server record with its strings as character sequences.
pub struct ServerView {
    pub name: Seq<char>,
    pub transport: Seq<char>,
    pub command: Option<Seq<char>>,
    pub args: Seq<Seq<char>>,
    pub env: Seq<(Seq<char>, Seq<char>)>,
    pub url: Option<Seq<char>>,
    pub scope: Seq<char>,
    pub is_active: bool,
    pub running: bool,
    pub error: Option<Seq<char>>,
    pub last_checked: Option<u64>,
}

impl View for MCPServer {
    type V = ServerView;

    open spec fn view(&self) -> ServerView {
        ServerView {
            name: self.name@,
            transport: self.transport@,
            command: opt_view(self.command),
            args: strings_view(self.args@),
            env: pairs_view(self.env@),
            url: opt_view(self.url),
            scope: self.scope@,
            is_active: self.is_active,
            running: self.status.running,
            error: opt_view(self.status.error),
            last_checked: self.status.last_checked,
        }
    }
}

} // verus!
