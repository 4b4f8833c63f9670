use mcp_sync::list_output::parse_server_names;

#[test]
fn names_in_first_seen_order() {
    let out = "server-a: node a.js - ✓ Connected\nserver-b: http://localhost:9000 (SSE) - ✗ Failed to connect\nserver-c: npx tool\n";
    assert_eq!(parse_server_names(out), vec!["server-a", "server-b", "server-c"]);
}

#[test]
fn continuation_lines_are_absorbed() {
    let out = "alpha: python\n  -m server\n  /usr/local/bin/thing: extra\nbeta: node x.js";
    assert_eq!(parse_server_names(out), vec!["alpha", "beta"]);
}

#[test]
fn no_servers_sentinel_gives_nothing() {
    assert!(parse_server_names("No MCP servers configured").is_empty());
    assert!(parse_server_names("No MCP servers configured. Use `mcp add` to add one.").is_empty());
}

#[test]
fn blank_output_gives_nothing() {
    assert!(parse_server_names("").is_empty());
    assert!(parse_server_names("   \n\t  \n").is_empty());
}

#[test]
fn path_before_colon_is_not_a_record() {
    let out = "/tmp/a: b\nC\\dir\\x: y\nreal: c";
    assert_eq!(parse_server_names(out), vec!["real"]);
}

#[test]
fn path_line_after_record_is_continuation() {
    let out = "one: cmd\n/home/u/bin/tool: arg\ntwo: cmd";
    assert_eq!(parse_server_names(out), vec!["one", "two"]);
}

#[test]
fn crlf_lines_and_surrounding_spaces() {
    let out = "\r\n  first : a\r\nsecond:b\r\n";
    assert_eq!(parse_server_names(out), vec!["first", "second"]);
}

#[test]
fn lines_without_colon_before_any_record_are_skipped() {
    let out = "Checking MCP server health...\n\nsrv: cmd";
    assert_eq!(parse_server_names(out), vec!["srv"]);
}

#[test]
fn repeated_names_are_listed_once() {
    assert_eq!(parse_server_names("a:\na:"), vec!["a"]);
    assert_eq!(parse_server_names("b: x\na: y\nb: z\nc: w"), vec!["b", "a", "c"]);
}

#[test]
fn empty_name_never_opens_a_record() {
    assert!(parse_server_names(": x").is_empty());
    assert_eq!(parse_server_names(": x\nsrv: y\n  : z"), vec!["srv"]);
}
