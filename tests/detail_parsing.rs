use mcp_sync::detail_output::{
    clean_command_string, parse_server_detail, scope_from_lowered, status_from_lowered,
};

#[test]
fn scope_project_shared() {
    let r = parse_server_detail("s".to_string(), "s:\n  Scope: Project (shared)\n", 1);
    assert_eq!(r.scope, "project");
}

#[test]
fn scope_user_global() {
    let r = parse_server_detail("s".to_string(), "  Scope: User config (global)", 1);
    assert_eq!(r.scope, "user");
}

#[test]
fn scope_absent_is_local() {
    let r = parse_server_detail("s".to_string(), "s:\n  Type: stdio\n", 1);
    assert_eq!(r.scope, "local");
}

#[test]
fn scope_local_config() {
    let r = parse_server_detail("s".to_string(), "Scope: Local config (private to you in this project)", 1);
    assert_eq!(r.scope, "local");
}

#[test]
fn status_connected() {
    let r = parse_server_detail("s".to_string(), "  Status: ✓ Connected", 5);
    assert!(r.status.running);
    assert!(r.is_active);
    assert_eq!(r.status.error, None);
}

#[test]
fn status_failed() {
    let r = parse_server_detail("s".to_string(), "  Status: ✗ Failed to connect: timeout", 5);
    assert!(!r.status.running);
    assert_eq!(r.status.error, Some("✗ Failed to connect: timeout".to_string()));
}

#[test]
fn status_words_without_glyphs() {
    let r = parse_server_detail("s".to_string(), "Status: CONNECTED", 5);
    assert!(r.status.running);
    let r = parse_server_detail("s".to_string(), "Status: failed", 5);
    assert!(!r.status.running);
    assert_eq!(r.status.error, Some("failed".to_string()));
}

#[test]
fn stdio_fields() {
    let out = "my-server:\n  Scope: Local config\n  Status: ✓ Connected\n  Type: stdio\n  Command: npx\n  Args: -y  @scope/server   --flag\n  Environment:\n    KEY=value\n";
    let r = parse_server_detail("my-server".to_string(), out, 42);
    assert_eq!(r.name, "my-server");
    assert_eq!(r.transport, "stdio");
    assert_eq!(r.command, Some("npx".to_string()));
    assert_eq!(r.args, vec!["-y", "@scope/server", "--flag"]);
    assert!(r.env.is_empty());
    assert_eq!(r.url, None);
    assert_eq!(r.status.last_checked, Some(42));
}

#[test]
fn sse_fields() {
    let out = "remote:\n  Scope: User config (global)\n  Type: sse\n  URL: https://example.com/sse\n";
    let r = parse_server_detail("remote".to_string(), out, 7);
    assert_eq!(r.transport, "sse");
    assert_eq!(r.url, Some("https://example.com/sse".to_string()));
    assert_eq!(r.command, None);
    assert_eq!(r.scope, "user");
}

#[test]
fn scope_words_are_tried_in_order() {
    let r = parse_server_detail("s".to_string(), "Scope: User config (available in all your projects)", 1);
    assert_eq!(r.scope, "project");
}

#[test]
fn first_matching_scope_line_wins() {
    let r = parse_server_detail("s".to_string(), "Scope: unknown\nScope: Project\nScope: User", 1);
    assert_eq!(r.scope, "project");
}

#[test]
fn empty_args_line_keeps_no_args() {
    let r = parse_server_detail("s".to_string(), "Args:   \nCommand: x", 1);
    assert!(r.args.is_empty());
    assert_eq!(r.command, Some("x".to_string()));
}

#[test]
fn default_transport_is_stdio() {
    let r = parse_server_detail("s".to_string(), "", 1);
    assert_eq!(r.transport, "stdio");
    assert!(!r.status.running);
}

#[test]
fn reparsing_is_identical_but_for_time() {
    let out = "x:\n  Scope: Project\n  Status: ✗ failed\n  Command: node\n  Args: a b\n";
    let mut a = parse_server_detail("x".to_string(), out, 1);
    let b = parse_server_detail("x".to_string(), out, 99);
    assert_eq!(a.status.last_checked, Some(1));
    assert_eq!(b.status.last_checked, Some(99));
    a.status.last_checked = b.status.last_checked;
    assert_eq!(a, b);
}

#[test]
fn clean_connected_suffix() {
    assert_eq!(clean_command_string("npx -y server - ✓ Connected"), "npx -y server");
    assert_eq!(clean_command_string("node x.js - ✗ Failed to connect"), "node x.js");
    assert_eq!(clean_command_string("cmd - ✗ failed"), "cmd");
}

#[test]
fn clean_bare_marks() {
    assert_eq!(clean_command_string("a  - ✓ later"), "a");
    assert_eq!(clean_command_string("b - ✗"), "b");
}

#[test]
fn clean_without_suffix_is_unchanged() {
    assert_eq!(clean_command_string("python -m server"), "python -m server");
    assert_eq!(clean_command_string("  spaced  "), "  spaced  ");
}

#[test]
fn scope_from_lowercase_value() {
    assert_eq!(scope_from_lowered("project (shared)"), Some("project".to_string()));
    assert_eq!(scope_from_lowered("global"), Some("user".to_string()));
    assert_eq!(scope_from_lowered("local and project"), Some("local".to_string()));
    assert_eq!(scope_from_lowered("Project"), None);
    assert_eq!(scope_from_lowered("elsewhere"), None);
}

#[test]
fn status_from_value_and_lowercase() {
    assert_eq!(status_from_lowered("✓ Connected", "✓ connected"), Some(true));
    assert_eq!(status_from_lowered("CONNECTED", "connected"), Some(true));
    assert_eq!(status_from_lowered("✗ Failed to connect: timeout", "✗ failed to connect: timeout"), Some(false));
    assert_eq!(status_from_lowered("FAILED", "FAILED"), None);
    assert_eq!(status_from_lowered("pending", "pending"), None);
}

#[test]
fn clean_cuts_at_earliest_mark() {
    assert_eq!(clean_command_string(" - ✗ - ✓"), "");
    assert_eq!(clean_command_string("a - ✗ - ✓ - ✓ Connected"), "a");
    assert_eq!(clean_command_string("x - ✗ b - ✓ c"), "x");
}

#[test]
fn clean_is_stable() {
    for s in ["a - ✗ b - ✓ c - ✓ Connected", "npx srv - ✓ Connected", "plain", " - ✓"] {
        let once = clean_command_string(s);
        assert_eq!(clean_command_string(&once), once);
        assert!(!once.contains(" - ✓") && !once.contains(" - ✗"));
    }
}
