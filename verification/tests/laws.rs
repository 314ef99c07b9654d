//! What holds over several steps, on chosen values.

use pi_acp::error::AcpxError;
use pi_acp::json::{parse, to_value};
use pi_acp::mcp::{
    normalize_mcp_servers, McpServer, McpServerStdio, McpSessionManager, Registration,
};
use pi_acp::mock::{
    mock_options, replay_scenario, startup_lines, MockEnv, MockOptions, MockState, MockStep,
    ScenarioStep,
};
use pi_acp::pi::events::RpcEvent;
use pi_acp::pi::rpc::{ExtensionUiResponse, RpcCommand};
use pi_acp::session::facts::{OutboundMessage, ToolStatusFact};
use pi_acp::session::pump::{Action, Pump, QueuedTurn};

fn turn(ticket: u64) -> QueuedTurn {
    QueuedTurn {
        message: "hello".to_string(),
        images: Vec::new(),
        extension_command: false,
        ticket,
    }
}

fn tell(p: &mut Pump, s: &str) {
    let event = RpcEvent::from_json(&parse(s).expect("JSON")).expect("an event");
    p.on_event(event, "2026-08-01T10:00:00.000Z", false, None);
}

fn resolved(p: &mut Pump) -> Vec<(u64, bool)> {
    p.take_actions()
        .iter()
        .filter_map(|a| match a {
            Action::Resolve { ticket, outcome } => Some((*ticket, outcome.is_ok())),
            _ => None,
        })
        .collect()
}

#[test]
fn a_closed_session_answers_and_stays_closed() {
    let mut p = Pump::new("s1", "/work", false, 600, None);
    p.on_prompt(turn(1));
    let refused = AcpxError::RpcFailed {
        command: "prompt".to_string(),
        message: "no".to_string(),
    };
    p.on_prompt_result(0, Some(refused));
    assert_eq!(resolved(&mut p), vec![(1, false)]);
    for ticket in 2..5 {
        p.on_prompt(turn(ticket));
        assert_eq!(resolved(&mut p), vec![(ticket, false)]);
        tell(&mut p, r#"{"type":"agent_settled"}"#);
        assert!(resolved(&mut p).is_empty());
    }
}

#[test]
fn a_running_call_is_never_shown_as_waiting() {
    let mut p = Pump::new("s1", "/work", false, 600, None);
    tell(
        &mut p,
        r#"{"type":"tool_execution_start","toolCallId":"t1","toolName":"read","args":{"path":"a.txt"}}"#,
    );
    tell(
        &mut p,
        r#"{"type":"message_update","usage":{},"assistantMessageEvent":{"type":"toolcall_end","contentIndex":0,"toolCall":{"id":"t1","name":"read","arguments":{"path":"a.txt"}}}}"#,
    );
    let shown: Vec<Option<ToolStatusFact>> = p
        .take_actions()
        .into_iter()
        .filter_map(|a| match a {
            Action::Emit(OutboundMessage::ToolCall(c)) => Some(c.status),
            _ => None,
        })
        .collect();
    assert_eq!(
        shown,
        vec![
            Some(ToolStatusFact::InProgress),
            Some(ToolStatusFact::InProgress)
        ]
    );
}

#[test]
fn every_turn_is_answered_once_whatever_comes() {
    let mut p = Pump::new("s1", "/work", false, 600, None);
    let mut all = Vec::new();
    p.on_prompt(turn(1));
    p.on_prompt(turn(2));
    p.on_prompt(turn(3));
    p.on_prompt_result(0, None);
    tell(&mut p, r#"{"type":"agent_settled"}"#);
    tell(&mut p, r#"{"type":"agent_settled"}"#);
    all.extend(resolved(&mut p));
    p.on_cancel(9);
    p.on_cancel_aborted(9, None);
    all.extend(resolved(&mut p));
    p.on_stream_end(Some(1), None);
    p.teardown();
    all.extend(resolved(&mut p));
    let mut tickets: Vec<u64> = all.iter().map(|(t, _)| *t).collect();
    tickets.sort();
    assert_eq!(tickets, vec![1, 2, 3]);
}

#[test]
fn lines_for_pi_are_lines_and_are_read_back() {
    let command = RpcCommand::Prompt {
        message: "two\nlines".to_string(),
        images: None,
        streaming_behavior: None,
    };
    let line = command.to_line("3");
    assert!(!line.contains('\n'));
    let v = to_value(&parse(&line).expect("JSON"));
    assert_eq!(v["message"], "two\nlines");
    assert_eq!(v["id"], "3");
    let answer = ExtensionUiResponse::Value {
        id: "ui-1".to_string(),
        value: "a\nb".to_string(),
    };
    let line = answer.to_line();
    assert!(!line.contains('\n'));
    let v = to_value(&parse(&line).expect("JSON"));
    assert_eq!(v["value"], "a\nb");
    assert_eq!(v["type"], "extension_ui_response");
}

#[test]
fn waiting_for_servers_comes_to_an_end() {
    let server = McpServer::Stdio(McpServerStdio {
        name: "a".to_string(),
        command: "/bin/a".to_string(),
        args: Vec::new(),
        env: Vec::new(),
    });
    let mut m = McpSessionManager::new(normalize_mcp_servers(&vec![server]).unwrap());
    assert!(matches!(m.progress(false), Registration::Waiting));
    assert!(matches!(m.progress(true), Registration::Failed(_)));
    m.apply_markers(&vec!["PI_ACP_MCP:registered:a".to_string()]);
    assert!(matches!(m.progress(true), Registration::Done));
    // What was once told stays.
    m.apply_markers(&vec!["PI_ACP_MCP:failed:a:late".to_string()]);
    assert!(matches!(m.progress(true), Registration::Done));
}

fn texts(v: Vec<&str>) -> Vec<String> {
    v.iter().map(|s| s.to_string()).collect()
}

fn options(args: Vec<&str>) -> MockOptions {
    mock_options(
        &texts(args),
        &MockEnv {
            scenario: None,
            command_log: None,
            prompt_error: None,
            models_error: None,
            exit_after: None,
        },
    )
}

#[test]
fn the_stand_in_follows_its_switches() {
    let lines = startup_lines(&options(vec!["--mock-prelude", "1", "--mock-unknown-event"]));
    assert_eq!(lines.len(), 2);
    assert!(lines[0].contains("mock context loaded"));
    assert_eq!(lines[1], r#"{"type":"brand_new_event","payload":1}"#);

    let mut s = MockState::new();
    let dying = options(vec!["--mock-exit-after", "2"]);
    assert!(matches!(
        s.on_line(&dying, r#"{"id":"1","type":"get_state"}"#),
        MockStep::Answer { .. }
    ));
    assert!(matches!(
        s.on_line(&dying, r#"{"id":"2","type":"get_state"}"#),
        MockStep::Exit
    ));

    let mut s = MockState::new();
    let silent = options(vec!["--mock-hang"]);
    assert!(matches!(
        s.on_line(&silent, r#"{"id":"1","type":"get_state"}"#),
        MockStep::Skip
    ));

    let mut s = MockState::new();
    let failing = options(vec!["--mock-prompt-error", "boom"]);
    match s.on_line(&failing, r#"{"id":"1","type":"prompt","message":"x"}"#) {
        MockStep::Answer {
            records, prompt, ..
        } => {
            let v = to_value(&records[0]);
            assert_eq!(v["success"], false);
            assert_eq!(v["error"], "boom");
            assert!(prompt.is_none());
        }
        other => panic!("unexpected step: {other:?}"),
    }
    match s.on_line(&options(vec![]), r#"{"id":"2","type":"abort"}"#) {
        MockStep::Answer { records, .. } => {
            assert_eq!(to_value(&records[1])["type"], "agent_settled");
        }
        other => panic!("unexpected step: {other:?}"),
    }
    match s.on_line(
        &options(vec![]),
        r#"{"type":"extension_ui_response","id":"ui-1","cancelled":true}"#,
    ) {
        MockStep::Record { line } => assert!(line.contains("ui-1")),
        other => panic!("unexpected step: {other:?}"),
    }
    match s.on_line(
        &options(vec![]),
        r#"{"id":"3","type":"set_session_name","name":"N"}"#,
    ) {
        MockStep::Answer { records, .. } => {
            assert_eq!(to_value(&records[1])["type"], "session_info_changed");
            assert_eq!(to_value(&records[1])["name"], "N");
        }
        other => panic!("unexpected step: {other:?}"),
    }
}

#[test]
fn a_scenario_carries_out_its_directives() {
    let steps = replay_scenario(
        concat_lines(&[
            r#"{"__directive__":"write_file","path":"/tmp/x","content":"y"}"#,
            r#"{"__directive__":"delete_file","path":"/tmp/x"}"#,
            r#"{"__directive__":"wait_ms","ms":7}"#,
            r#"{"type":"extension_ui_request","id":"ui-1","method":"notify","message":"m"}"#,
            r#"{"type":"agent_settled"}"#,
        ])
        .as_str(),
        false,
    );
    assert_eq!(steps.len(), 5);
    assert!(matches!(
        &steps[0],
        ScenarioStep::WriteFile { path, content } if path == "/tmp/x" && content == "y"
    ));
    assert!(matches!(&steps[1], ScenarioStep::DeleteFile { path } if path == "/tmp/x"));
    assert!(matches!(steps[2], ScenarioStep::Wait { ms: 7 }));
    assert!(matches!(
        steps[3],
        ScenarioStep::Emit {
            awaits_answer: true,
            settles: false,
            ..
        }
    ));
    assert!(matches!(
        steps[4],
        ScenarioStep::Emit { settles: true, .. }
    ));
    let bad = replay_scenario(r#"{"__directive__":"write_file"}"#, true);
    assert!(matches!(
        &bad[0],
        ScenarioStep::Fail { message } if message == "write_file directive needs a path"
    ));
}

fn concat_lines(lines: &[&str]) -> String {
    lines.join("\n")
}
