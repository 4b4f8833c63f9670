use mcp_sync::import::{
    new_import_result, plan_import, record_failure, record_import, DesktopServer, ImportStep,
};

#[test]
fn import_one_server_with_command() {
    let mut ledger = new_import_result();
    let entry = DesktopServer {
        name: "serverA".to_string(),
        command: Some("node".to_string()),
        args_json: Some("[\"x.js\"]".to_string()),
        env_json: None,
    };
    let step = plan_import(&entry, &"user".to_string());
    match step {
        ImportStep::Invoke(a) => {
            assert_eq!(
                a,
                vec![
                    "add-json",
                    "serverA",
                    "{\"type\":\"stdio\",\"command\":\"node\",\"args\":[\"x.js\"],\"env\":{}}",
                    "-s",
                    "user"
                ]
            );
        }
        ImportStep::Failed(l) => panic!("a call was expected, got {:?}", l),
    }
    assert!(ledger.servers.is_empty());
    record_import(&mut ledger, "serverA".to_string(), Ok("Added".to_string()));
    assert_eq!(ledger.imported_count, 1);
    assert_eq!(ledger.failed_count, 0);
    assert_eq!(ledger.servers.len(), 1);
    assert!(ledger.servers[0].success);
    assert_eq!(ledger.servers[0].error, None);
}

#[test]
fn import_server_without_command_fails_without_call() {
    let mut ledger = new_import_result();
    let entry = DesktopServer { name: "serverB".to_string(), command: None, args_json: None, env_json: None };
    match plan_import(&entry, &"local".to_string()) {
        ImportStep::Failed(line) => record_failure(&mut ledger, line),
        ImportStep::Invoke(a) => panic!("no call expected, got {:?}", a),
    }
    assert_eq!(ledger.imported_count, 0);
    assert_eq!(ledger.failed_count, 1);
    assert_eq!(ledger.servers[0].name, "serverB");
    assert!(!ledger.servers[0].success);
    assert_eq!(ledger.servers[0].error, Some("missing command field".to_string()));
}

#[test]
fn import_escapes_command_and_keeps_env() {
    let mut ledger = new_import_result();
    let entry = DesktopServer {
        name: "q".to_string(),
        command: Some("say \"hi\"".to_string()),
        args_json: None,
        env_json: Some("{\"K\":\"V\"}".to_string()),
    };
    match plan_import(&entry, &"local".to_string()) {
        ImportStep::Invoke(a) => assert_eq!(
            a[2],
            "{\"type\":\"stdio\",\"command\":\"say \\\"hi\\\"\",\"args\":[],\"env\":{\"K\":\"V\"}}"
        ),
        ImportStep::Failed(l) => panic!("a call was expected, got {:?}", l),
    }
}

#[test]
fn import_failed_call_is_counted() {
    let mut ledger = new_import_result();
    record_import(&mut ledger, "a".to_string(), Ok(String::new()));
    record_import(&mut ledger, "b".to_string(), Err("Command failed: bad".to_string()));
    assert_eq!(ledger.imported_count, 1);
    assert_eq!(ledger.failed_count, 1);
    assert_eq!(ledger.servers[1].name, "b");
    assert_eq!(ledger.servers[1].error, Some("Command failed: bad".to_string()));
}

#[test]
fn import_escapes_control_characters() {
    let mut ledger = new_import_result();
    let entry = DesktopServer {
        name: "c".to_string(),
        command: Some("a\tb\u{1}c\\d/é".to_string()),
        args_json: None,
        env_json: None,
    };
    match plan_import(&entry, &"local".to_string()) {
        ImportStep::Invoke(a) => assert_eq!(
            a[2],
            "{\"type\":\"stdio\",\"command\":\"a\\tb\\u0001c\\\\d/é\",\"args\":[],\"env\":{}}"
        ),
        ImportStep::Failed(l) => panic!("a call was expected, got {:?}", l),
    }
}
