use mcp_sync::config_paths::{config_paths_for, join, mcp_get_config_paths, project_config_file};

#[test]
fn paths_with_project_root() {
    let p = config_paths_for(Some("/home/u".to_string()), Some("/work/proj".to_string()), "agent").unwrap();
    assert_eq!(p.user, "/home/u/.agent.json");
    assert_eq!(p.local, "/work/proj/.agent/settings.local.json");
    assert_eq!(p.project, "/work/proj/.mcp.json");
}

#[test]
fn paths_without_project_root() {
    let p = config_paths_for(Some("/root/".to_string()), None, "agent").unwrap();
    assert_eq!(p.user, "/root/.agent.json");
    assert_eq!(p.local, ".agent/settings.local.json");
    assert_eq!(p.project, ".mcp.json");
}

#[test]
fn paths_need_home() {
    assert_eq!(
        config_paths_for(None, Some("/p".to_string()), "agent"),
        Err("Could not find home directory".to_string())
    );
}

#[test]
fn project_file_location() {
    assert_eq!(project_config_file("/p/"), "/p/.mcp.json");
    assert_eq!(project_config_file("rel"), "rel/.mcp.json");
    assert_eq!(join("", "x"), "x");
}

#[test]
fn paths_for_current_user() {
    match mcp_get_config_paths(Some("/p".to_string()), "agent") {
        Ok(p) => {
            assert_eq!(p.local, "/p/.agent/settings.local.json");
            assert_eq!(p.project, "/p/.mcp.json");
            assert!(p.user.ends_with("/.agent.json"));
        }
        Err(e) => assert_eq!(e, "Could not find home directory"),
    }
}
