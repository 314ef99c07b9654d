//! MCP servers of a session: what a client may ask for, and pi's answers.

use pi_acp::mcp::{
    adapter_manifest, advertise_mcp_capabilities, is_mcp_marker, mcp_enabled,
    normalize_mcp_servers, parse_mcp_markers, registrar_dir, registrar_outdated,
    wire_mcp_servers, McpServer, McpServerHttp, McpServerStdio, McpSessionManager, NamedValue,
    Registration,
};

fn named(name: &str, value: &str) -> NamedValue {
    NamedValue {
        name: name.to_string(),
        value: value.to_string(),
    }
}

fn stdio_with(name: &str, command: &str) -> McpServer {
    McpServer::Stdio(McpServerStdio {
        name: name.to_string(),
        command: command.to_string(),
        args: vec!["--serve".to_string()],
        env: vec![named("TOKEN", "secret")],
    })
}

fn stdio(name: &str) -> McpServer {
    stdio_with(name, "/usr/bin/fake-mcp")
}

fn remote(name: &str, url: &str, headers: Vec<NamedValue>) -> McpServerHttp {
    McpServerHttp {
        name: name.to_string(),
        url: url.to_string(),
        headers,
    }
}

fn http(name: &str) -> McpServer {
    McpServer::Http(remote(
        name,
        "http://localhost:8000/mcp",
        vec![named("Authorization", "Bearer x")],
    ))
}

fn sse(name: &str) -> McpServer {
    McpServer::Sse(remote(name, "https://example.com/sse", Vec::new()))
}

#[test]
fn normalizes_all_three_transports() {
    let specs = normalize_mcp_servers(&vec![stdio("a"), http("b"), sse("c")]).unwrap();
    assert_eq!(specs.len(), 3);
    let std = &specs[0];
    assert_eq!(std.name, "a");
    assert_eq!(std.definition.command.as_deref(), Some("/usr/bin/fake-mcp"));
    assert_eq!(
        std.definition.args.as_deref(),
        Some(&["--serve".to_string()][..])
    );
    assert_eq!(
        std.definition.env.as_ref().unwrap().get("TOKEN"),
        Some("secret")
    );
    let h = &specs[1];
    assert_eq!(
        h.definition.url.as_deref(),
        Some("http://localhost:8000/mcp")
    );
    assert_eq!(
        h.definition.headers.as_ref().unwrap().get("Authorization"),
        Some("Bearer x")
    );
    assert_eq!(h.definition.http_transport, None);
    let s = &specs[2];
    assert_eq!(s.definition.url.as_deref(), Some("https://example.com/sse"));
    assert_eq!(s.definition.http_transport.as_deref(), Some("sse"));
}

#[test]
fn rejects_empty_names_and_missing_command() {
    assert!(normalize_mcp_servers(&vec![stdio("")]).is_err());
    assert!(normalize_mcp_servers(&vec![stdio("   ")]).is_err());
    let bad = McpServer::Stdio(McpServerStdio {
        name: "x".to_string(),
        command: "".to_string(),
        args: Vec::new(),
        env: Vec::new(),
    });
    let err = normalize_mcp_servers(&vec![bad]).unwrap_err();
    assert!(err.contains("\"x\"") && err.contains("command"), "{err}");
}

#[test]
fn rejects_bad_urls_and_empty_headers() {
    let bad = McpServer::Http(remote("h", "ftp://x/y", Vec::new()));
    let err = normalize_mcp_servers(&vec![bad]).unwrap_err();
    assert!(err.contains("\"h\"") && err.contains("http"), "{err}");
    let empty = McpServer::Sse(remote("s", "", Vec::new()));
    assert!(normalize_mcp_servers(&vec![empty]).is_err());
    let bad_header = McpServer::Http(remote("h", "http://x", vec![named("", "v")]));
    assert!(normalize_mcp_servers(&vec![bad_header]).is_err());
}

#[test]
fn rejects_duplicates_and_multiline_names() {
    let err = normalize_mcp_servers(&vec![stdio("a"), http("a")]).unwrap_err();
    assert!(
        err.contains("\"a\"") && err.contains("more than once"),
        "{err}"
    );
    let evil = McpServer::Http(remote("a\nb", "http://x", Vec::new()));
    assert!(normalize_mcp_servers(&vec![evil]).is_err());
}

#[test]
fn refuses_other_transports() {
    assert!(normalize_mcp_servers(&vec![McpServer::Other]).is_err());
}

#[test]
fn capability_matrix_needs_flag_and_adapter() {
    assert_eq!(advertise_mcp_capabilities(false, false), (false, false));
    assert_eq!(advertise_mcp_capabilities(true, false), (false, false));
    assert_eq!(advertise_mcp_capabilities(false, true), (false, false));
    assert_eq!(advertise_mcp_capabilities(true, true), (true, true));
}

#[test]
fn the_switch_is_the_word_true() {
    assert!(mcp_enabled(Some("true")));
    assert!(mcp_enabled(Some(" True ")));
    assert!(!mcp_enabled(Some("1")));
    assert!(!mcp_enabled(Some("")));
    assert!(!mcp_enabled(None));
}

#[test]
fn files_of_mcp_have_places() {
    assert_eq!(
        adapter_manifest("/h/.pi/agent", false),
        "/h/.pi/agent/npm/node_modules/pi-mcp-adapter/package.json"
    );
    assert!(registrar_dir("/tmp", false).starts_with("/tmp/"));
    assert!(registrar_outdated(None, "x"));
    assert!(registrar_outdated(Some("y"), "x"));
    assert!(!registrar_outdated(Some("x"), "x"));
}

#[test]
fn markers_parse_and_gate_settles() {
    let lines = vec![
        "some banner".to_string(),
        "PI_ACP_MCP:registered:a".to_string(),
        "PI_ACP_MCP:failed:b:already registered".to_string(),
        "PI_ACP_MCP:garbage".to_string(),
    ];
    assert!(!is_mcp_marker(&lines[0]));
    assert!(is_mcp_marker(&lines[1]));
    let parsed = parse_mcp_markers(&lines);
    assert_eq!(parsed.registered, vec!["a".to_string()]);
    assert_eq!(
        parsed.failed,
        vec![("b".to_string(), "already registered".to_string())]
    );

    let specs = normalize_mcp_servers(&vec![stdio("a"), http("b")]).unwrap();
    let mut mgr = McpSessionManager::new(specs);
    assert_eq!(mgr.requested_names(), vec!["a".to_string(), "b".to_string()]);
    assert_eq!(mgr.pending(), vec!["a".to_string(), "b".to_string()]);
    assert!(!mgr.is_settled());
    assert!(mgr.failure_message().is_none());
    mgr.apply_markers(&lines);
    assert!(mgr.is_settled());
    assert_eq!(mgr.registered_count(), 1);
    let msg = mgr.failure_message().unwrap();
    assert!(
        msg.contains("\"b\"") && msg.contains("already registered"),
        "{msg}"
    );
    // Re-applying overlapping snapshots is idempotent.
    mgr.apply_markers(&lines);
    assert_eq!(mgr.registered_count(), 1);
    assert_eq!(mgr.failure_message().unwrap(), msg);
}

#[test]
fn payload_json_carries_name_and_definition() {
    let specs = normalize_mcp_servers(&vec![stdio("a")]).unwrap();
    let mgr = McpSessionManager::new(specs);
    let payload = mgr.payload_json();
    let v: serde_json::Value = serde_json::from_str(&payload).unwrap();
    assert_eq!(v[0]["name"], "a");
    assert_eq!(v[0]["definition"]["command"], "/usr/bin/fake-mcp");
}

#[test]
fn a_refused_url_is_quoted() {
    let bad = McpServer::Http(remote("h", "ftp://a\"b", Vec::new()));
    let err = normalize_mcp_servers(&vec![bad]).unwrap_err();
    assert!(err.contains("(got \"ftp://a\\\"b\")"), "{err}");
}

#[test]
fn servers_are_wired_when_opted_in() {
    assert!(matches!(wire_mcp_servers(&Vec::new(), false, false), Ok(None)));
    let err = wire_mcp_servers(&vec![stdio("a")], false, true).unwrap_err();
    assert!(err.contains("MCP wiring is disabled"), "{err}");
    let err = wire_mcp_servers(&vec![stdio("a")], true, false).unwrap_err();
    assert!(err.contains("pi-mcp-adapter"), "{err}");
    assert!(wire_mcp_servers(&vec![stdio("")], true, true).is_err());
    let mgr = wire_mcp_servers(&vec![stdio("a")], true, true)
        .unwrap()
        .expect("servers");
    assert_eq!(mgr.requested_names(), vec!["a"]);
}

#[test]
fn registrations_are_waited_for() {
    let mut mgr = wire_mcp_servers(&vec![stdio("a"), http("b")], true, true)
        .unwrap()
        .expect("servers");
    assert!(matches!(mgr.progress(false), Registration::Waiting));
    match mgr.progress(true) {
        Registration::Failed(message) => assert!(message.ends_with(": a, b"), "{message}"),
        other => panic!("unexpected: {other:?}"),
    }
    mgr.apply_markers(&vec!["PI_ACP_MCP:registered:a".to_string()]);
    assert!(matches!(mgr.progress(false), Registration::Waiting));
    mgr.apply_markers(&vec!["PI_ACP_MCP:registered:b".to_string()]);
    assert!(matches!(mgr.progress(false), Registration::Done));
    let mut bad = wire_mcp_servers(&vec![stdio("a")], true, true)
        .unwrap()
        .expect("servers");
    bad.apply_markers(&vec!["PI_ACP_MCP:failed:a:taken".to_string()]);
    assert!(matches!(bad.progress(false), Registration::Failed(_)));
}
