use mcp_sync::lifecycle::{
    add_json_arguments, add_result, assemble_list, bare_arguments, command_outcome, get_result, list_entry,
    named_arguments, plan_add, remove_result, tool_command_line, update_after_remove, AddRequest,
    ProcessReport, Step,
};

fn request(transport: &str, command: Option<&str>, args: &[&str], url: Option<&str>) -> AddRequest {
    AddRequest {
        name: "srv".to_string(),
        transport: transport.to_string(),
        command: command.map(|c| c.to_string()),
        args: args.iter().map(|a| a.to_string()).collect(),
        env: vec![],
        url: url.map(|u| u.to_string()),
        scope: "local".to_string(),
    }
}

fn invoked(step: Step) -> Vec<String> {
    match step {
        Step::Invoke(a) => a,
        Step::Done(r) => panic!("unexpected result: {:?}", r),
    }
}

#[test]
fn stdio_without_command_is_refused_without_call() {
    match plan_add(&request("stdio", None, &["x"], None)) {
        Step::Done(r) => {
            assert!(!r.success);
            assert!(r.message.contains("Command is required"));
            assert_eq!(r.server_name, None);
        }
        Step::Invoke(a) => panic!("no call expected, got {:?}", a),
    }
}

#[test]
fn sse_without_url_is_refused_without_call() {
    match plan_add(&request("sse", Some("x"), &[], None)) {
        Step::Done(r) => {
            assert!(!r.success);
            assert_eq!(r.message, "URL is required for SSE transport");
        }
        Step::Invoke(a) => panic!("no call expected, got {:?}", a),
    }
}

#[test]
fn stdio_arguments_in_order() {
    let mut req = request("stdio", Some("node"), &["x.js", "--port", "1"], None);
    req.env = vec![("KEY".to_string(), "v1".to_string()), ("B".to_string(), "2".to_string())];
    req.scope = "project".to_string();
    let a = invoked(plan_add(&req));
    assert_eq!(
        a,
        vec!["add", "-s", "project", "-e", "KEY=v1", "-e", "B=2", "srv", "--", "node", "x.js", "--port", "1"]
    );
}

#[test]
fn stdio_plain_command_has_no_separator() {
    let a = invoked(plan_add(&request("stdio", Some("server"), &[], None)));
    assert_eq!(a, vec!["add", "-s", "local", "srv", "server"]);
}

#[test]
fn stdio_command_with_dash_gets_separator() {
    let a = invoked(plan_add(&request("stdio", Some("my-server"), &[], None)));
    assert_eq!(a, vec!["add", "-s", "local", "srv", "--", "my-server"]);
}

#[test]
fn sse_arguments_in_order() {
    let a = invoked(plan_add(&request("sse", None, &[], Some("https://h/sse"))));
    assert_eq!(a, vec!["add", "-s", "local", "--transport", "sse", "srv", "https://h/sse"]);
}

#[test]
fn add_result_success_and_failure() {
    let ok = add_result("srv".to_string(), Ok("  Added stdio server srv\n".to_string()));
    assert!(ok.success);
    assert_eq!(ok.message, "Added stdio server srv");
    assert_eq!(ok.server_name, Some("srv".to_string()));
    let bad = add_result("srv".to_string(), Err("Command failed: exists".to_string()));
    assert!(!bad.success);
    assert_eq!(bad.message, "Command failed: exists");
    assert_eq!(bad.server_name, None);
}

#[test]
fn update_stops_when_remove_fails() {
    let req = request("stdio", Some("node"), &[], None);
    match update_after_remove(Err("Command failed: no such server".to_string()), &req) {
        Step::Done(r) => {
            assert!(!r.success);
            assert_eq!(r.message, "Failed to remove old server: Command failed: no such server");
        }
        Step::Invoke(a) => panic!("add must not be attempted, got {:?}", a),
    }
}

#[test]
fn update_goes_on_to_add_after_remove() {
    let mut req = request("stdio", Some("node"), &[], None);
    req.name = "b".to_string();
    let a = invoked(update_after_remove(Ok("Removed a".to_string()), &req));
    assert_eq!(a, vec!["add", "-s", "local", "b", "node"]);
}

#[test]
fn outcome_of_process_runs() {
    let ok = ProcessReport::Exited { success: true, stdout: "out".to_string(), stderr: String::new() };
    assert_eq!(command_outcome(ok), Ok("out".to_string()));
    let bad = ProcessReport::Exited { success: false, stdout: String::new(), stderr: "boom".to_string() };
    assert_eq!(command_outcome(bad), Err("Command failed: boom".to_string()));
    assert_eq!(
        command_outcome(ProcessReport::SpawnFailed("agent".to_string())),
        Err("Failed to execute agent command".to_string())
    );
    assert_eq!(command_outcome(ProcessReport::NotFound("not on PATH".to_string())), Err("not on PATH".to_string()));
}

#[test]
fn list_entry_keeps_unreadable_server() {
    let r = list_entry("gone".to_string(), Err("Command failed: x".to_string()), 3);
    assert_eq!(r.name, "gone");
    assert_eq!(r.transport, "stdio");
    assert_eq!(r.scope, "local");
    assert!(!r.status.running);
    assert_eq!(r.status.error, Some("Failed to get details: Command failed: x".to_string()));
    assert_eq!(r.status.last_checked, None);
}

#[test]
fn list_entry_parses_details() {
    let r = list_entry("s".to_string(), Ok("s:\n  Scope: Project\n  Status: ✓ Connected\n".to_string()), 3);
    assert_eq!(r.scope, "project");
    assert!(r.status.running);
    assert_eq!(r.status.last_checked, Some(3));
}

#[test]
fn get_result_raises_failure() {
    assert_eq!(get_result("s".to_string(), Err("e".to_string()), 1), Err("e".to_string()));
    let r = get_result("s".to_string(), Ok("Type: sse".to_string()), 1).unwrap();
    assert_eq!(r.transport, "sse");
}

#[test]
fn remove_result_trims_or_raises() {
    assert_eq!(remove_result(Ok(" Removed srv \n".to_string())), Ok("Removed srv".to_string()));
    assert_eq!(remove_result(Err("Command failed: x".to_string())), Err("Command failed: x".to_string()));
}

#[test]
fn argument_builders() {
    assert_eq!(named_arguments("get", &"srv".to_string()), vec!["get", "srv"]);
    assert_eq!(bare_arguments("list"), vec!["list"]);
    assert_eq!(
        add_json_arguments(&"a".to_string(), &"{}".to_string(), &"user".to_string()),
        vec!["add-json", "a", "{}", "-s", "user"]
    );
    assert_eq!(tool_command_line(vec!["list".to_string()]), vec!["mcp", "list"]);
}

#[test]
fn listing_keeps_every_name_in_order() {
    let names = vec!["a".to_string(), "b".to_string(), "c".to_string()];
    let fetched = vec![
        (Ok("Scope: User (global)\nStatus: ✓ Connected".to_string()), 9),
        (Err("Command failed: timeout".to_string()), 10),
        (Ok("Type: sse\nURL: https://h".to_string()), 11),
    ];
    let r = assemble_list(names, fetched);
    assert_eq!(r.len(), 3);
    assert_eq!(r[0].name, "a");
    assert_eq!(r[0].scope, "user");
    assert!(r[0].status.running);
    assert_eq!(r[1].name, "b");
    assert_eq!(r[1].status.error, Some("Failed to get details: Command failed: timeout".to_string()));
    assert_eq!(r[0].status.last_checked, Some(9));
    assert_eq!(r[2].url, Some("https://h".to_string()));
    assert_eq!(r[2].status.last_checked, Some(11));
}
