//! Turns, questions and the sessions that are open.

use pi_acp::error::AcpxError;
use pi_acp::json::{parse, to_value, Json};
use pi_acp::path::resolve_path;
use pi_acp::pi::events::{ExtensionUiRequest, RpcEvent};
use pi_acp::pi::rpc::ExtensionUiResponse;
use pi_acp::session::extension::{
    extension_answer, extension_ui_raw_input, handle_extension_ui_request, option_index,
    permission_error, request_permission, NoAnswer, Treatment,
};
use pi_acp::session::facts::{
    BashToolStatus, ForegroundState, OutboundMessage, PermissionOutcomeFact, StopReason,
};
use pi_acp::session::failure::assistant_error_text;
use pi_acp::session::manager::SessionManager;
use pi_acp::session::pump::{
    clear_thinking_stamp, format_auto_retry_message, raw_input_of_tool_call,
    thinking_event_is_echo, Action, Pump, QueuedTurn, THINKING_SET_ECHO_WINDOW_MS,
};

fn json(s: &str) -> Json {
    parse(s).expect("JSON")
}

fn ui(s: &str) -> ExtensionUiRequest {
    ExtensionUiRequest::from_json(&json(s)).expect("a question")
}

#[test]
fn thinking_echo_window_classifies_set_echoes() {
    let now = 1_000_000;
    // No set yet: never an echo (genuine pi-initiated change refreshes).
    assert!(!thinking_event_is_echo(None, now));
    // Fresh set: echo, skip the redundant re-read.
    assert!(thinking_event_is_echo(Some(now), now));
    assert!(thinking_event_is_echo(
        Some(now - THINKING_SET_ECHO_WINDOW_MS),
        now
    ));
    // Stale set: full refresh again.
    assert!(!thinking_event_is_echo(
        Some(now - THINKING_SET_ECHO_WINDOW_MS - 1),
        now
    ));
    // A failed set takes back its own mark only.
    assert_eq!(clear_thinking_stamp(Some(7), 7), None);
    assert_eq!(clear_thinking_stamp(Some(8), 7), Some(8));
}

#[test]
fn option_index_parses_choice_ids() {
    assert_eq!(option_index("choice-0"), Some(0));
    assert_eq!(option_index("choice-12"), Some(12));
    assert_eq!(option_index("choice-"), None);
    assert_eq!(option_index("choice"), None);
    assert_eq!(option_index("choice-01"), None); // non-canonical decimal
    assert_eq!(option_index("choice-1x"), None);
    assert_eq!(option_index("other"), None);
}

#[test]
fn format_auto_retry_message_rounds_delays() {
    assert_eq!(
        format_auto_retry_message(1, 3, 5000),
        "Retrying (attempt 1/3, waiting 5s)..."
    );
    // sub-second delays round up to 1s
    assert_eq!(
        format_auto_retry_message(2, 4, 300),
        "Retrying (attempt 2/4, waiting 1s)..."
    );
    assert_eq!(
        format_auto_retry_message(1, 2, 0),
        "Retrying (attempt 1/2, waiting 0s)..."
    );
    // missing/zero fields fall back
    assert_eq!(format_auto_retry_message(0, 3, 1000), "Retrying...");
    assert_eq!(format_auto_retry_message(1, 0, 1000), "Retrying...");
}

#[test]
fn raw_input_prefers_arguments_object() {
    let tc = json(r#"{ "id": "t1", "name": "read", "arguments": { "path": "a.txt" } }"#);
    assert_eq!(
        raw_input_of_tool_call(&tc),
        Some(json(r#"{ "path": "a.txt" }"#))
    );
}

#[test]
fn raw_input_parses_partial_args() {
    let tc = json(r#"{ "id": "t1", "name": "read", "partialArgs": "{\"path\":\"x\"}" }"#);
    assert_eq!(
        raw_input_of_tool_call(&tc),
        Some(json(r#"{ "path": "x" }"#))
    );
    // unparseable partial args are kept verbatim
    let tc = json(r#"{ "id": "t1", "partialArgs": "not json {" }"#);
    assert_eq!(
        raw_input_of_tool_call(&tc),
        Some(json(r#"{ "partialArgs": "not json {" }"#))
    );
    // empty/missing -> None
    assert_eq!(raw_input_of_tool_call(&json(r#"{ "id": "t1" }"#)), None);
}

#[test]
fn extension_ui_raw_input_carries_salient_fields() {
    let req = ui(r#"{ "id": "ui-1", "method": "select", "title": "Pick", "options": ["a", "b"] }"#);
    let input = to_value(&extension_ui_raw_input(&req));
    assert_eq!(input["method"], "select");
    assert_eq!(input["title"], "Pick");
    assert_eq!(input["options"], to_value(&json(r#"["a", "b"]"#)));

    let req =
        ui(r#"{ "id": "ui-2", "method": "input", "title": "Type", "placeholder": "hint" }"#);
    let input = to_value(&extension_ui_raw_input(&req));
    assert_eq!(input["method"], "input");
    assert_eq!(input["placeholder"], "hint");
    assert!(input.get("options").is_none());
}

#[test]
fn extension_ui_timeout_is_read_from_interactive_requests() {
    let select = ui(
        r#"{ "id": "ui-1", "method": "select", "title": "Pick", "options": ["a"], "timeout": 250 }"#,
    );
    assert_eq!(select.timeout_ms(), Some(250));

    let notify = ui(r#"{ "id": "ui-2", "method": "notify", "message": "hello" }"#);
    assert_eq!(notify.timeout_ms(), None);
}

#[test]
fn request_permission_honors_extension_timeout() {
    let request = ui(
        r#"{ "id": "ui-1", "method": "select", "title": "Pick", "options": ["a"], "timeout": 10 }"#,
    );
    let asked = request_permission("session", &request, "Pick", Vec::new());
    assert_eq!(asked.tool_call_id, "pi-ui-ui-1");
    // Nobody answers within the question's own time.
    let ms = request.timeout_ms().expect("a timeout");
    match permission_error(NoAnswer::TimedOut(ms)) {
        AcpxError::RpcFailed { command, message } => {
            assert_eq!(command, "request_permission");
            assert!(message.contains("10ms"), "{message}");
        }
        other => panic!("expected permission timeout, got {other:?}"),
    }
}

#[test]
fn resolve_path_handles_relative_and_absolute() {
    assert_eq!(resolve_path("/work", "a.txt", false), "/work/a.txt");
    assert_eq!(resolve_path("/work", "/abs/x", false), "/abs/x");
}

#[test]
fn manager_unknown_session_is_explicit_error() {
    let manager = SessionManager::new();
    assert!(manager.maybe_get("nope").is_none());
    match manager.get("nope") {
        Err(AcpxError::UnknownSession(id)) => assert_eq!(id, "nope"),
        other => panic!("expected UnknownSession, got {other:?}"),
    }
}

#[test]
fn manager_close_and_close_all_except_are_noops_on_empty() {
    let mut manager = SessionManager::new();
    assert!(manager.close("x").is_none()); // unknown id: no-op
    assert!(manager.close_all_except("x").is_empty());
    assert!(manager.dispose_all().is_empty());
    assert!(manager.maybe_get("x").is_none());
}

#[test]
fn the_manager_keeps_one_session_per_id() {
    let mut manager = SessionManager::default();
    assert_eq!(manager.insert("a", 1), None);
    assert_eq!(manager.insert("b", 2), None);
    assert_eq!(manager.insert("a", 3), Some(1));
    assert_eq!(manager.get("a").unwrap(), 3);
    assert_eq!(manager.insert("c", 4), None);
    let mut closed = manager.close_all_except("b");
    closed.sort();
    assert_eq!(closed, vec![3, 4]);
    assert_eq!(manager.maybe_get("b"), Some(2));
    assert_eq!(manager.close("b"), Some(2));
    assert!(manager.maybe_get("b").is_none());
}

#[test]
fn a_choice_is_answered_with_its_value() {
    let req = ui(r#"{ "id": "ui-1", "method": "select", "title": "Pick", "options": ["a", "b"] }"#);
    match handle_extension_ui_request("s1", &req) {
        Treatment::Ask(q) => {
            assert_eq!(q.options.len(), 2);
            let chosen = PermissionOutcomeFact::Selected(q.options[1].id.clone());
            match extension_answer(&req, &Some(chosen)) {
                ExtensionUiResponse::Value { id, value } => {
                    assert_eq!(id, "ui-1");
                    assert_eq!(value, "b");
                }
                other => panic!("unexpected answer: {other:?}"),
            }
        }
        other => panic!("unexpected treatment: {other:?}"),
    }
    assert!(matches!(
        extension_answer(&req, &None),
        ExtensionUiResponse::Cancelled { .. }
    ));
}

#[test]
fn what_needs_no_answer_is_answered_at_once() {
    let req = ui(r#"{ "id": "ui-2", "method": "notify", "message": "hello" }"#);
    match handle_extension_ui_request("s1", &req) {
        Treatment::Answer { notice, .. } => assert!(notice.expect("a notice").text.contains("hello")),
        other => panic!("unexpected treatment: {other:?}"),
    }
}

fn turn(message: &str, ticket: u64) -> QueuedTurn {
    QueuedTurn {
        message: message.to_string(),
        images: Vec::new(),
        extension_command: false,
        ticket,
    }
}

fn event(s: &str) -> RpcEvent {
    RpcEvent::from_json(&json(s)).expect("an event")
}

fn tell(p: &mut Pump, s: &str) {
    p.on_event(event(s), "2026-08-01T10:00:00.000Z", false, None);
}

fn resolved(actions: &Vec<Action>) -> Vec<(u64, bool)> {
    actions
        .iter()
        .filter_map(|a| match a {
            Action::Resolve { ticket, outcome } => Some((*ticket, outcome.is_ok())),
            _ => None,
        })
        .collect()
}

fn started(actions: &Vec<Action>) -> Option<u64> {
    actions.iter().find_map(|a| match a {
        Action::SendPrompt { turn_id, .. } => Some(*turn_id),
        _ => None,
    })
}

#[test]
fn a_turn_runs_from_its_prompt_to_its_end() {
    let mut p = Pump::new("s1", "/work", false, 600, Some(1000));
    p.on_prompt(turn("hello", 1));
    let actions = p.take_actions();
    let id = started(&actions).expect("a prompt is sent");
    assert!(p.take_actions().is_empty());
    p.on_prompt_result(id, None);
    tell(&mut p, r#"{"type":"agent_start"}"#);
    tell(
        &mut p,
        r#"{"type":"message_update","usage":{},"assistantMessageEvent":{"type":"text_delta","contentIndex":0,"delta":"hi"}}"#,
    );
    let actions = p.take_actions();
    assert!(actions.iter().any(|a| matches!(
        a,
        Action::Emit(OutboundMessage::TextChunk(c)) if c.text == "hi"
    )));
    assert!(resolved(&actions).is_empty());
    tell(&mut p, r#"{"type":"agent_settled"}"#);
    let actions = p.take_actions();
    assert_eq!(resolved(&actions), vec![(1, true)]);
    assert!(actions.iter().any(|a| matches!(
        a,
        Action::Emit(OutboundMessage::Foreground {
            state: ForegroundState::Idle(StopReason::EndTurn),
            ..
        })
    )));
    // A settle without a turn answers nobody.
    tell(&mut p, r#"{"type":"agent_settled"}"#);
    assert!(resolved(&p.take_actions()).is_empty());
}

#[test]
fn waiting_turns_run_one_after_another() {
    let mut p = Pump::new("s1", "/work", false, 600, None);
    p.on_prompt(turn("one", 1));
    let first = started(&p.take_actions()).expect("a prompt is sent");
    p.on_prompt(turn("two", 2));
    assert!(started(&p.take_actions()).is_none());
    p.on_prompt_result(first, None);
    tell(&mut p, r#"{"type":"agent_settled"}"#);
    let actions = p.take_actions();
    assert_eq!(resolved(&actions), vec![(1, true)]);
    let second = started(&actions).expect("the next prompt is sent");
    assert_ne!(first, second);
    // A late answer to the first prompt changes nothing.
    p.on_prompt_result(
        first,
        Some(AcpxError::RpcTimeout {
            cmd: "prompt".to_string(),
            secs: 30,
        }),
    );
    assert!(resolved(&p.take_actions()).is_empty());
}

#[test]
fn a_cancel_ends_what_waits() {
    let mut p = Pump::new("s1", "/work", false, 600, None);
    p.on_prompt(turn("one", 1));
    p.on_prompt(turn("two", 2));
    p.take_actions();
    p.on_cancel(9);
    let actions = p.take_actions();
    assert_eq!(resolved(&actions), vec![(2, true)]);
    assert!(actions
        .iter()
        .any(|a| matches!(a, Action::AbortTurn { ticket: 9, .. })));
    p.on_cancel_aborted(9, None);
    tell(&mut p, r#"{"type":"agent_settled"}"#);
    let actions = p.take_actions();
    assert!(actions.iter().any(|a| matches!(
        a,
        Action::Resolve {
            ticket: 1,
            outcome: Ok(StopReason::Cancelled)
        }
    )));
}

#[test]
fn every_turn_fails_when_pi_ends() {
    let mut p = Pump::new("s1", "/work", false, 600, None);
    p.on_prompt(turn("one", 1));
    p.on_prompt(turn("two", 2));
    p.take_actions();
    p.on_stream_end(Some(1), None);
    assert_eq!(resolved(&p.take_actions()), vec![(1, false), (2, false)]);
    p.teardown();
    assert!(resolved(&p.take_actions()).is_empty());
}

#[test]
fn a_refused_prompt_closes_the_session() {
    let mut p = Pump::new("s1", "/work", false, 600, None);
    p.on_prompt(turn("one", 1));
    let id = started(&p.take_actions()).expect("a prompt is sent");
    p.on_prompt_result(
        id,
        Some(AcpxError::RpcTimeout {
            cmd: "prompt".to_string(),
            secs: 30,
        }),
    );
    assert_eq!(resolved(&p.take_actions()), vec![(1, false)]);
    p.on_prompt(turn("two", 2));
    let actions = p.take_actions();
    assert!(actions.iter().any(|a| matches!(
        a,
        Action::Resolve {
            ticket: 2,
            outcome: Err(AcpxError::SessionClosed(_))
        }
    )));
}

#[test]
fn a_turn_that_never_settles_is_given_up() {
    let mut p = Pump::new("s1", "/work", false, 5, None);
    p.on_prompt(turn("one", 1));
    let id = started(&p.take_actions()).expect("a prompt is sent");
    p.on_prompt_result(id, None);
    assert!(p
        .take_actions()
        .iter()
        .any(|a| matches!(a, Action::ArmSettle { secs: 5 })));
    assert!(p.is_settle_armed());
    p.on_settle_timeout();
    let actions = p.take_actions();
    assert!(actions.iter().any(|a| matches!(
        a,
        Action::Resolve {
            ticket: 1,
            outcome: Err(AcpxError::SettleTimeout { secs: 5 })
        }
    )));
    assert!(actions.iter().any(|a| matches!(a, Action::AbortStale)));
    assert!(p.is_recovering());
    // A prompt waits until the stale turn is certainly gone.
    p.on_prompt(turn("two", 2));
    assert!(started(&p.take_actions()).is_none());
    p.on_recovery_abort_result(true);
    tell(&mut p, r#"{"type":"agent_settled"}"#);
    assert!(!p.is_recovering());
    assert!(started(&p.take_actions()).is_some());
}

#[test]
fn a_bash_call_is_told_by_its_output() {
    let mut p = Pump::new("s1", "/work", false, 600, None);
    tell(
        &mut p,
        r#"{"type":"tool_execution_start","toolCallId":"t1","toolName":"bash","args":{"command":"ls"}}"#,
    );
    tell(
        &mut p,
        r#"{"type":"tool_execution_update","toolCallId":"t1","toolName":"bash","args":{},"partialResult":{"content":[{"type":"text","text":"ab"}]}}"#,
    );
    tell(
        &mut p,
        r#"{"type":"tool_execution_end","toolCallId":"t1","toolName":"bash","result":{"content":[{"type":"text","text":"abcd"}],"details":{"exitCode":0}},"isError":false}"#,
    );
    let mut told = String::new();
    let mut last = None;
    for a in p.take_actions() {
        if let Action::Emit(OutboundMessage::BashToolCall(c)) = a {
            told.push_str(&c.output_delta);
            last = Some(c);
        }
    }
    assert_eq!(told, "abcd");
    let last = last.expect("frames");
    assert_eq!(last.status, BashToolStatus::Completed);
    assert_eq!(last.exit_code, Some(0));
    assert_eq!(last.command, "ls");
}

#[test]
fn an_edit_is_told_with_its_difference() {
    let mut p = Pump::new("s1", "/work", false, 600, None);
    let start = event(
        r#"{"type":"tool_execution_start","toolCallId":"t1","toolName":"edit","args":{"path":"a.txt","oldText":"two","newText":"2"}}"#,
    );
    assert_eq!(p.file_to_read(&start), Some("/work/a.txt".to_string()));
    p.on_event(start, "now", false, Some("one\ntwo".to_string()));
    let end = event(
        r#"{"type":"tool_execution_end","toolCallId":"t1","toolName":"edit","result":{},"isError":false}"#,
    );
    assert_eq!(p.file_to_read(&end), Some("/work/a.txt".to_string()));
    p.on_event(end, "now", false, Some("one\n2".to_string()));
    let actions = p.take_actions();
    let calls: Vec<String> = actions
        .iter()
        .filter_map(|a| match a {
            Action::Emit(OutboundMessage::ToolCall(c)) => Some(format!("{c:?}")),
            _ => None,
        })
        .collect();
    assert_eq!(calls.len(), 2);
    assert!(calls[0].contains("line: Some(2)"), "{}", calls[0]);
    assert!(calls[1].contains("Diff"), "{}", calls[1]);
    assert!(calls[1].contains("one\\n2"), "{}", calls[1]);
}

#[test]
fn usage_is_told_against_the_window() {
    let mut p = Pump::new("s1", "/work", false, 600, Some(1000));
    p.emit_initial_usage_update();
    p.set_context_window(Some(2000));
    tell(
        &mut p,
        r#"{"type":"message_update","usage":{"totalTokens":8},"assistantMessageEvent":{"type":"start","contentIndex":0}}"#,
    );
    let told: Vec<(u64, u64)> = p
        .take_actions()
        .iter()
        .filter_map(|a| match a {
            Action::Emit(OutboundMessage::Usage(u)) => Some((u.used, u.size)),
            _ => None,
        })
        .collect();
    assert_eq!(told, vec![(0, 1000), (8, 2000)]);
}

#[test]
fn an_assistant_error_is_told_in_words() {
    assert_eq!(
        assistant_error_text("error", &json(r#"{"errorMessage":"overloaded"}"#)),
        "overloaded"
    );
    assert_eq!(
        assistant_error_text("error", &Json::Null),
        "Pi reported an assistant error."
    );
}

fn assistant_error(reason: &str) -> String {
    format!(
        r#"{{"type":"message_update","usage":{{}},"assistantMessageEvent":{{"type":"error","reason":"error","error":{{"errorMessage":"{reason}"}}}}}}"#
    )
}

#[test]
fn an_error_is_told_once_per_message() {
    let mut p = Pump::new("s1", "/work", false, 600, None);
    p.on_prompt(turn("one", 1));
    p.take_actions();
    tell(&mut p, &assistant_error("overloaded"));
    tell(&mut p, &assistant_error("overloaded"));
    let told = p
        .take_actions()
        .iter()
        .filter(|a| matches!(
            a,
            Action::Emit(OutboundMessage::TextChunk(c)) if c.text.contains("overloaded")
        ))
        .count();
    assert_eq!(told, 1);
}

#[test]
fn an_extension_command_is_over_once_pi_took_it() {
    let mut p = Pump::new("s1", "/work", false, 600, None);
    let mut t = turn("/ext", 1);
    t.extension_command = true;
    p.on_prompt(t);
    let id = started(&p.take_actions()).expect("a prompt is sent");
    p.on_prompt_result(id, None);
    assert_eq!(resolved(&p.take_actions()), vec![(1, true)]);
}

#[test]
fn messages_have_ids_of_their_own() {
    let mut p = Pump::new("s1", "/work", false, 600, None);
    let mut ids: Vec<String> = Vec::new();
    for text in ["a", "b"] {
        tell(&mut p, r#"{"type":"message_start","message":{"role":"assistant"}}"#);
        tell(
            &mut p,
            &format!(
                r#"{{"type":"message_update","usage":{{}},"assistantMessageEvent":{{"type":"text_delta","contentIndex":0,"delta":"{text}"}}}}"#
            ),
        );
        tell(
            &mut p,
            r#"{"type":"message_end","message":{"role":"assistant","content":[]}}"#,
        );
    }
    for a in p.take_actions() {
        if let Action::Emit(OutboundMessage::TextChunk(c)) = a {
            ids.push(c.message_id.expect("an id"));
        }
    }
    assert_eq!(ids.len(), 2);
    assert_ne!(ids[0], ids[1]);
}

#[test]
fn an_unanswered_recovery_closes_the_session() {
    let mut p = Pump::new("s1", "/work", false, 5, None);
    p.on_prompt(turn("one", 1));
    let id = started(&p.take_actions()).expect("a prompt is sent");
    p.on_prompt_result(id, None);
    p.on_settle_timeout();
    p.on_prompt(turn("two", 2));
    p.take_actions();
    p.on_recover_timeout();
    let actions = p.take_actions();
    assert!(actions.iter().any(|a| matches!(
        a,
        Action::Resolve {
            ticket: 2,
            outcome: Err(AcpxError::SessionClosed(_))
        }
    )));
    // What had arrived by then counts.
    let mut q = Pump::new("s1", "/work", false, 5, None);
    q.on_prompt(turn("one", 1));
    let id = started(&q.take_actions()).expect("a prompt is sent");
    q.on_prompt_result(id, None);
    q.on_settle_timeout();
    q.on_recovery_abort_result(true);
    q.on_drained_event(RpcEvent::AgentSettled, "now", false, None);
    q.on_recover_timeout();
    assert!(!q.is_recovering());
    q.on_prompt(turn("two", 2));
    assert!(started(&q.take_actions()).is_some());
}
