//! The exchange with a pi process.

use pi_acp::error::AcpxError;
use pi_acp::json::{parse, to_value, Json};
use pi_acp::pi::events::{AssistantMessageEvent, RpcEvent};
use pi_acp::pi::process::{
    answer_of, exported_path, launch_args, model_of, spawn_error, state_of, strip_ansi,
    text_delta_of, turn_over, Exchange, LineOutcome, PRELUDE_CAP,
};
use pi_acp::pi::resolve::ResolvedPi;
use pi_acp::pi::rpc::RpcCommand;

fn json(s: &str) -> Json {
    parse(s).expect("JSON")
}

fn event(s: &str) -> RpcEvent {
    RpcEvent::from_json(&json(s)).expect("an event")
}

#[test]
fn strips_csi_color_codes() {
    let input = "\u{1b}[32mContext\u{1b}[0m: mock context";
    assert_eq!(strip_ansi(input), "Context: mock context");
}

#[test]
fn strips_8bit_csi_and_osx_title() {
    assert_eq!(strip_ansi("\u{9b}1mplain\u{9b}0m"), "plain");
    assert_eq!(strip_ansi("\u{1b}]0;my title\u{07}body"), "body");
}

#[test]
fn leaves_plain_text_alone() {
    assert_eq!(
        strip_ansi("plain line with no escapes"),
        "plain line with no escapes"
    );
    assert_eq!(strip_ansi(""), "");
}

#[test]
fn extracts_text_delta_from_typed_event() {
    let ev = event(
        r#"{"type":"message_update","usage":{},"assistantMessageEvent":{"type":"text_delta","contentIndex":1,"delta":"pong"}}"#,
    );
    assert_eq!(text_delta_of(&ev), Some("pong"));

    let thinking = event(
        r#"{"type":"message_update","usage":{},"assistantMessageEvent":{"type":"thinking_delta","contentIndex":0,"delta":"hmm"}}"#,
    );
    assert_eq!(text_delta_of(&thinking), None);

    let settled = event(r#"{"type":"agent_settled"}"#);
    assert_eq!(text_delta_of(&settled), None);

    // Direct sub-event accessor.
    let ev = AssistantMessageEvent::from_json(&json(
        r#"{"type":"text_delta","contentIndex":2,"delta":"x"}"#,
    ))
    .unwrap();
    assert_eq!(ev.content_index(), 2);
    assert_eq!(ev.text_delta(), Some("x"));
}

#[test]
fn a_request_gets_its_own_answer_once() {
    let mut ex = Exchange::new();
    assert!(ex.has_room());
    let first = ex.begin(&RpcCommand::GetState).unwrap();
    let second = ex.begin(&RpcCommand::GetMessages).unwrap();
    assert_ne!(first.id, second.id);
    let reply = format!(
        r#"{{"type":"response","id":"{}","command":"get_state","success":true,"data":{{"n":1}}}}"#,
        first.id
    );
    match ex.on_line(&reply) {
        LineOutcome::Response { id, value } => {
            assert_eq!(id, first.id);
            let data = answer_of(&value, "").unwrap();
            assert_eq!(to_value(&data)["n"], 1);
        }
        other => panic!("unexpected outcome: {other:?}"),
    }
    // The second copy finds nobody waiting.
    match ex.on_line(&reply) {
        LineOutcome::Event(RpcEvent::UnmatchedResponse { .. }) => {}
        other => panic!("unexpected outcome: {other:?}"),
    }
    // The other request is still open.
    let e = ex.expired(&second.id, &RpcCommand::GetMessages, 30);
    assert_eq!(
        e,
        AcpxError::RpcTimeout {
            cmd: "get_messages".to_string(),
            secs: 30
        }
    );
}

#[test]
fn a_dead_process_takes_no_requests() {
    let mut ex = Exchange::new();
    let open = ex.begin(&RpcCommand::GetState).unwrap();
    assert!(!ex.is_dead());
    let gone = ex.ended(Some(3), None);
    assert_eq!(
        gone,
        AcpxError::PiExited {
            code: Some(3),
            signal: None
        }
    );
    assert!(ex.is_dead());
    assert_eq!(ex.exit_status(), Some((Some(3), None)));
    assert_eq!(
        ex.abandoned(&open.id),
        AcpxError::PiExited {
            code: None,
            signal: None
        }
    );
    match ex.begin(&RpcCommand::Abort) {
        Err(AcpxError::PiExited { code, .. }) => assert_eq!(code, Some(3)),
        other => panic!("unexpected outcome: {:?}", other.err()),
    }
}

#[test]
fn lines_before_the_records_are_kept_up_to_a_cap() {
    let mut ex = Exchange::new();
    for n in 0..PRELUDE_CAP + 5 {
        let line = format!("\u{1b}[1mline {n}\u{1b}[0m");
        assert!(matches!(ex.on_line(&line), LineOutcome::Nothing));
    }
    let lines = ex.consume_prelude_lines();
    assert_eq!(lines.len(), PRELUDE_CAP);
    assert_eq!(lines[0], "line 0");
    assert!(ex.consume_prelude_lines().is_empty());
}

#[test]
fn unknown_records_are_passed_on_raw() {
    let mut ex = Exchange::new();
    match ex.on_line(r#"{"type":"brand_new_event","some":"field"}"#) {
        LineOutcome::Event(RpcEvent::Unknown { raw }) => {
            assert_eq!(to_value(&raw)["some"], "field");
        }
        other => panic!("unexpected outcome: {other:?}"),
    }
}

#[test]
fn a_turn_ends_with_settling_or_with_pi() {
    let settled = RpcEvent::AgentSettled;
    assert!(matches!(turn_over(Some(&settled), None), Some(Ok(()))));
    assert!(turn_over(Some(&RpcEvent::TurnStart), None).is_none());
    assert!(matches!(
        turn_over(None, Some((Some(1), None))),
        Some(Err(AcpxError::PiExited {
            code: Some(1),
            signal: None
        }))
    ));
}

#[test]
fn pi_is_started_in_rpc_mode() {
    let resolved = ResolvedPi {
        program: "cmd.exe".to_string(),
        cmd_args: vec!["/c".to_string()],
    };
    let args = launch_args(&resolved, Some("/s.jsonl"), &vec!["--x".to_string()]);
    assert_eq!(args[0], "/c");
    assert!(args.contains(&"rpc".to_string()));
    assert!(args.contains(&"/s.jsonl".to_string()));
    assert_eq!(args.last().unwrap(), "--x");
    let without = launch_args(&resolved, None, &Vec::new());
    assert!(!without.contains(&"--session".to_string()));
    let text = spawn_error("pi", "/usr/bin/pi", true, "no such file");
    assert!(text.contains("pi"), "{text}");
}

#[test]
fn answers_have_their_shapes() {
    let bad = json(r#"{"type":"response","command":"prompt","success":false,"error":"boom"}"#);
    assert_eq!(
        answer_of(&bad, "").unwrap_err(),
        AcpxError::RpcFailed {
            command: "prompt".to_string(),
            message: "boom".to_string()
        }
    );
    assert_eq!(
        answer_of(&json("3"), "invalid type").unwrap_err(),
        AcpxError::Json("invalid type".to_string())
    );
    match state_of(&json("{}"), "missing field `thinkingLevel`") {
        Err(AcpxError::Json(why)) => assert_eq!(why, "missing field `thinkingLevel`"),
        other => panic!("unexpected state: {other:?}"),
    }
    match model_of(&json("{}"), "missing field `id`") {
        Err(AcpxError::Json(why)) => assert_eq!(why, "missing field `id`"),
        other => panic!("unexpected model: {other:?}"),
    }
    assert_eq!(
        exported_path(&json(r#"{"path":"/x.html"}"#)).unwrap(),
        "/x.html"
    );
    assert!(exported_path(&json("{}")).is_err());
}

#[test]
fn a_list_can_be_an_event() {
    let mut ex = Exchange::new();
    match ex.on_line(r#"["agent_settled"]"#) {
        LineOutcome::Event(RpcEvent::AgentSettled) => {}
        other => panic!("unexpected outcome: {other:?}"),
    }
    match ex.on_line("[1,2]") {
        LineOutcome::Event(RpcEvent::Unknown { raw }) => assert_eq!(raw.compact(), "[1,2]"),
        other => panic!("unexpected outcome: {other:?}"),
    }
}
