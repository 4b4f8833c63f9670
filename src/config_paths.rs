//! Where the three configuration scopes live.
use vstd::prelude::*;
use crate::records::MCPConfigPaths;
use crate::text::{chars_of};

verus! {

/// `part` joined under `base` with `'/'`, as a path join does it for a relative part:
/// an empty base gives the part alone, and a base that ends in `'/'` gets no second one.
pub open spec fn join_path(base: Seq<char>, part: Seq<char>) -> Seq<char> {
    if base.len() == 0 {
        part
    } else if base.last() == '/' {
        base + part
    } else {
        base + "/"@ + part
    }
}

/// The project root, or the current directory (written as the empty path) without one.
pub open spec fn root_of(project: Option<String>) -> Seq<char> {
    match project {
        Some(p) => p@,
        None => seq![],
    }
}

/// `part` joined under `base`.
pub fn join(base: &str, part: &str) -> (r: String)
    ensures
        r@ == join_path(base@, part@),
{
    let cs = chars_of(base);
    let n = cs.len();
    if n == 0 {
        String::from_str(part)
    } else if cs[n - 1] == '/' {
        String::from_str(base).concat(part)
    } else {
        String::from_str(base).concat("/").concat(part)
    }
}

/// The project-scope file of a project: `<root>/.mcp.json`.
pub fn project_config_file(project_root: &str) -> (r: String)
    ensures
        r@ == join_path(project_root@, ".mcp.json"@),
{
    join(project_root, ".mcp.json")
}

/// The hidden directory of a tool: `.<tool>`.
pub open spec fn tool_dir(tool: Seq<char>) -> Seq<char> {
    "."@ + tool
}

/// The tool's file in the user's home: `.<tool>.json`.
pub open spec fn tool_file(tool: Seq<char>) -> Seq<char> {
    "."@ + tool + ".json"@
}

/// The three configuration files of the tool named `tool`, for a home directory and an
/// optional project root: user `<home>/.<tool>.json`, local
/// `<root>/.<tool>/settings.local.json` and project `<root>/.mcp.json`, the root being
/// the current directory when none is given. Without a home directory there is no answer.
pub fn config_paths_for(home: Option<String>, project: Option<String>, tool: &str) -> (r: Result<
    MCPConfigPaths,
    String,
>)
    ensures
        match home {
            None => r matches Err(m) && m@ == "Could not find home directory"@,
            Some(h) => r matches Ok(p) && p.user@ == join_path(h@, tool_file(tool@)) && p.local@
                == join_path(join_path(root_of(project), tool_dir(tool@)), "settings.local.json"@)
                && p.project@ == join_path(root_of(project), ".mcp.json"@),
        },
{
    match home {
        None => Err(String::from_str("Could not find home directory")),
        Some(h) => {
            let root = match project {
                Some(p) => p,
                None => String::new(),
            };
            let dir_name = String::from_str(".").concat(tool);
            let file_name = String::from_str(".").concat(tool).concat(".json");
            let dir = join(root.as_str(), dir_name.as_str());
            Ok(
                MCPConfigPaths {
                    local: join(dir.as_str(), "settings.local.json"),
                    project: join(root.as_str(), ".mcp.json"),
                    user: join(h.as_str(), file_name.as_str()),
                },
            )
        },
    }
}

/// Relies on `dirs::home_dir`: the current user's home directory, if one is known,
/// written with `to_string_lossy`. It depends on the environment, so nothing is promised.
#[verifier::external_body]
fn home_dir_text() -> (r: Option<String>) {
    dirs::home_dir().map(|p| p.to_string_lossy().to_string())
}

/// The three configuration file locations of the tool named `tool`, for the current
/// user's home directory and an optional project root (see `config_paths_for`). Fails
/// when no home directory is known.
pub fn mcp_get_config_paths(project_path: Option<String>, tool: &str) -> (r: Result<MCPConfigPaths, String>)
    ensures
        r is Ok ==> r->Ok_0.local@ == join_path(
            join_path(root_of(project_path), tool_dir(tool@)),
            "settings.local.json"@,
        ) && r->Ok_0.project@ == join_path(root_of(project_path), ".mcp.json"@),
        r is Ok ==> exists|h: Seq<char>| r->Ok_0.user@ == join_path(h, tool_file(tool@)),
        r is Err ==> r->Err_0@ == "Could not find home directory"@,
{
    let home = home_dir_text();
    let ghost known = home;
    let r = config_paths_for(home, project_path, tool);
    proof {
        if let Some(h) = known {
            assert(r->Ok_0.user@ == join_path(h@, tool_file(tool@)));
        }
    }
    r
}

} // verus!
