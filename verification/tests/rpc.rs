//! The records that pi and its clients exchange.

use pi_acp::error::AcpxError;
use pi_acp::json::{parse, to_value, Json};
use pi_acp::pi::events::{AssistantMessageEvent, ExtensionUiRequest, RpcEvent};
use pi_acp::pi::rpc::{
    available_models, CompactionReason, ExtensionUiResponse, ImageContent, Model, QueueMode,
    RpcCommand, RpcResponse, RpcSessionState, RpcSlashCommand, StreamingBehavior, ThinkingLevel,
    Usage,
};
use serde_json::Value;

fn json(s: &str) -> Json {
    parse(s).expect("JSON")
}

fn parse_event(s: &str) -> RpcEvent {
    RpcEvent::from_json(&json(s)).expect("an event")
}

fn wire(cmd: RpcCommand) -> Value {
    to_value(&Json::Object(cmd.to_map()))
}

#[test]
fn parses_core_agent_events() {
    let settled = parse_event(r#"{"type":"agent_settled"}"#);
    assert!(matches!(settled, RpcEvent::AgentSettled));

    let start = parse_event(r#"{"type":"turn_start"}"#);
    assert!(matches!(start, RpcEvent::TurnStart));

    let end = parse_event(
        r#"{"type":"agent_end","messages":[{"role":"assistant"}],"willRetry":false}"#,
    );
    match end {
        RpcEvent::AgentEnd {
            messages,
            will_retry,
        } => {
            assert_eq!(messages.len(), 1);
            assert!(!will_retry);
        }
        other => panic!("unexpected event: {other:?}"),
    }
}

#[test]
fn parses_message_update_with_text_delta() {
    let ev = parse_event(
        r#"{"type":"message_update","usage":{},"assistantMessageEvent":{"type":"text_delta","contentIndex":1,"delta":"pong"}}"#,
    );
    match ev {
        RpcEvent::MessageUpdate {
            usage,
            assistant_message_event,
        } => {
            assert_eq!(usage.total_tokens, 0);
            assert_eq!(assistant_message_event.text_delta(), Some("pong"));
            assert_eq!(assistant_message_event.content_index(), 1);
        }
        other => panic!("unexpected event: {other:?}"),
    }
}

#[test]
fn parses_usage_and_thinking_events() {
    let ev = parse_event(
        r#"{"type":"message_update","usage":{"input":5,"output":3,"totalTokens":8,"cost":{"input":1.0,"output":2.0,"total":3.0}},"assistantMessageEvent":{"type":"thinking_delta","contentIndex":0,"delta":"hmm"}}"#,
    );
    match ev {
        RpcEvent::MessageUpdate { usage, .. } => {
            assert_eq!(usage.input, 5);
            assert_eq!(usage.output, 3);
            assert_eq!(usage.total_tokens, 8);
            let cost = usage.cost.unwrap();
            assert_eq!(to_value(&Json::Number(cost.total)).as_f64(), Some(3.0));
        }
        other => panic!("unexpected event: {other:?}"),
    }

    let level = parse_event(r#"{"type":"thinking_level_changed","level":"xhigh"}"#);
    match level {
        RpcEvent::ThinkingLevelChanged { level } => {
            assert_eq!(level, ThinkingLevel::XHigh);
        }
        other => panic!("unexpected event: {other:?}"),
    }
}

#[test]
fn parses_tool_events() {
    let ts = parse_event(
        r#"{"type":"message_update","usage":{},"assistantMessageEvent":{"type":"toolcall_start","contentIndex":0,"id":"tool-1","toolName":"bash"}}"#,
    );
    match ts {
        RpcEvent::MessageUpdate {
            assistant_message_event,
            ..
        } => match assistant_message_event {
            AssistantMessageEvent::ToolcallStart {
                content_index,
                id,
                tool_name,
            } => {
                assert_eq!(content_index, 0);
                assert_eq!(id, "tool-1");
                assert_eq!(tool_name, "bash");
            }
            other => panic!("unexpected sub-event: {other:?}"),
        },
        other => panic!("unexpected event: {other:?}"),
    }

    let exec = parse_event(
        r#"{"type":"tool_execution_end","toolCallId":"tool-1","toolName":"bash","result":{"exitCode":0},"isError":false}"#,
    );
    match exec {
        RpcEvent::ToolExecutionEnd {
            tool_call_id,
            tool_name,
            result,
            is_error,
        } => {
            assert_eq!(tool_call_id, "tool-1");
            assert_eq!(tool_name, "bash");
            assert_eq!(to_value(&result)["exitCode"], 0);
            assert!(!is_error);
        }
        other => panic!("unexpected event: {other:?}"),
    }
}

#[test]
fn parses_session_events() {
    let queue = parse_event(r#"{"type":"queue_update","steering":["s"],"followUp":["f1","f2"]}"#);
    match queue {
        RpcEvent::QueueUpdate {
            steering,
            follow_up,
        } => {
            assert_eq!(steering, vec!["s"]);
            assert_eq!(follow_up, vec!["f1", "f2"]);
        }
        other => panic!("unexpected event: {other:?}"),
    }

    let info = parse_event(r#"{"type":"session_info_changed","name":"My Session"}"#);
    assert!(matches!(
        info,
        RpcEvent::SessionInfoChanged { name: Some(_) }
    ));

    let compact = parse_event(
        r#"{"type":"compaction_end","reason":"threshold","aborted":false,"willRetry":true,"errorMessage":"boom"}"#,
    );
    match compact {
        RpcEvent::CompactionEnd {
            reason,
            aborted,
            will_retry,
            error_message,
            ..
        } => {
            assert_eq!(reason, CompactionReason::Threshold);
            assert!(!aborted);
            assert!(will_retry);
            assert_eq!(error_message.as_deref(), Some("boom"));
        }
        other => panic!("unexpected event: {other:?}"),
    }

    let retry = parse_event(
        r#"{"type":"summarization_retry_attempt_start","source":"compaction","reason":"overflow"}"#,
    );
    match retry {
        RpcEvent::SummarizationRetryAttemptStart { source, reason } => {
            assert_eq!(source, "compaction");
            assert_eq!(reason, Some(CompactionReason::Overflow));
        }
        other => panic!("unexpected event: {other:?}"),
    }

    let bash = parse_event(r#"{"type":"bash_execution_update","id":"b1","delta":"out"}"#);
    assert!(matches!(
        bash,
        RpcEvent::BashExecutionUpdate { id: Some(_), .. }
    ));
}

#[test]
fn parses_extension_ui_requests() {
    let select = parse_event(
        r#"{"type":"extension_ui_request","id":"ui-1","method":"select","title":"Pick","options":["a","b"]}"#,
    );
    match select {
        RpcEvent::ExtensionUiRequest { inner } => match inner {
            ExtensionUiRequest::Select {
                id, title, options, ..
            } => {
                assert_eq!(id, "ui-1");
                assert_eq!(title, "Pick");
                assert_eq!(options, vec!["a", "b"]);
            }
            other => panic!("unexpected ui request: {other:?}"),
        },
        other => panic!("unexpected event: {other:?}"),
    }

    let confirm = parse_event(
        r#"{"type":"extension_ui_request","id":"ui-2","method":"confirm","title":"Run?","message":"sure?"}"#,
    );
    assert!(matches!(
        confirm,
        RpcEvent::ExtensionUiRequest {
            inner: ExtensionUiRequest::Confirm { .. }
        }
    ));

    let widget = parse_event(
        r#"{"type":"extension_ui_request","id":"ui-3","method":"setWidget","widgetKey":"k","widgetLines":["l1"],"widgetPlacement":"aboveEditor"}"#,
    );
    match widget {
        RpcEvent::ExtensionUiRequest { inner } => match inner {
            ExtensionUiRequest::SetWidget {
                widget_key,
                widget_lines,
                widget_placement,
                ..
            } => {
                assert_eq!(widget_key, "k");
                assert_eq!(widget_lines, Some(vec!["l1".to_string()]));
                assert_eq!(widget_placement.as_deref(), Some("aboveEditor"));
            }
            other => panic!("unexpected ui request: {other:?}"),
        },
        other => panic!("unexpected event: {other:?}"),
    }
}

#[test]
fn catches_unknown_event_types_as_unknown() {
    let raw = json(r#"{"type":"brand_new_event","some":"field"}"#);
    // An unknown tag is not silently swallowed: no event is read from it, and
    // the reader wraps the raw line into RpcEvent::Unknown.
    assert!(RpcEvent::from_json(&raw).is_none());

    let wrapped = RpcEvent::Unknown { raw };
    assert!(matches!(wrapped, RpcEvent::Unknown { .. }));
}

#[test]
fn parses_response_lines() {
    let ok = RpcResponse::from_json(&json(
        r#"{"id":"3","type":"response","command":"get_state","success":true,"data":{"sessionId":"s1"}}"#,
    ))
    .unwrap();
    assert_eq!(ok.id.as_deref(), Some("3"));
    assert_eq!(ok.command, "get_state");
    assert!(ok.success);
    assert_eq!(to_value(&ok.ok().unwrap())["sessionId"], "s1");

    let err = RpcResponse::from_json(&json(
        r#"{"id":"4","type":"response","command":"prompt","success":false,"error":"no provider"}"#,
    ))
    .unwrap();
    match err.ok() {
        Err(AcpxError::RpcFailed { command, message }) => {
            assert_eq!(command, "prompt");
            assert_eq!(message, "no provider");
        }
        other => panic!("unexpected result: {other:?}"),
    }
}

#[test]
fn serializes_commands_with_type_tag_and_id_friendly() {
    let v = wire(RpcCommand::Prompt {
        message: "hi".to_string(),
        images: None,
        streaming_behavior: None,
    });
    assert_eq!(v["type"], "prompt");
    assert_eq!(v["message"], "hi");
    // optional fields stay off the wire
    assert!(v.get("images").is_none());

    let v = wire(RpcCommand::SetModel {
        provider: "anthropic".to_string(),
        model_id: "acme-sonnet".to_string(),
    });
    assert_eq!(v["type"], "set_model");
    assert_eq!(v["modelId"], "acme-sonnet");

    let v = wire(RpcCommand::SetThinkingLevel {
        level: ThinkingLevel::Medium,
    });
    assert_eq!(v["type"], "set_thinking_level");
    assert_eq!(v["level"], "medium");

    let v = wire(RpcCommand::SetSteeringMode {
        mode: QueueMode::OneAtATime,
    });
    assert_eq!(v["type"], "set_steering_mode");
    assert_eq!(v["mode"], "one-at-a-time");

    assert_eq!(RpcCommand::GetState.name(), "get_state");
}

#[test]
fn a_prompt_carries_its_images() {
    let v = wire(RpcCommand::Prompt {
        message: "see".to_string(),
        images: Some(vec![ImageContent {
            data: "AAAA".to_string(),
            mime_type: "image/png".to_string(),
        }]),
        streaming_behavior: Some(StreamingBehavior::FollowUp),
    });
    assert_eq!(v["images"][0]["data"], "AAAA");
    assert_eq!(v["images"][0]["mimeType"], "image/png");
    assert_eq!(v["streaming_behavior"], "followUp");
}

#[test]
fn a_line_is_one_record_with_its_id() {
    let line = RpcCommand::Abort.to_line("7");
    let v: Value = serde_json::from_str(&line).unwrap();
    assert_eq!(v["type"], "abort");
    assert_eq!(v["id"], "7");
    assert!(!line.trim_end_matches('\n').contains('\n'));
}

#[test]
fn parses_session_state() {
    let state = RpcSessionState::from_json(&json(
        r#"{
            "model":{"id":"m1","name":"Model","provider":"mock","reasoning":false,"contextWindow":1000},
            "thinkingLevel":"medium",
            "isStreaming":false,
            "isCompacting":false,
            "steeringMode":"one-at-a-time",
            "followUpMode":"all",
            "sessionFile":"/tmp/s.jsonl",
            "sessionId":"abc",
            "sessionName":"T",
            "autoCompactionEnabled":true,
            "messageCount":3,
            "pendingMessageCount":0
        }"#,
    ))
    .unwrap();
    assert_eq!(state.session_id, "abc");
    assert_eq!(state.session_file.as_deref(), Some("/tmp/s.jsonl"));
    assert_eq!(state.thinking_level, ThinkingLevel::Medium);
    assert_eq!(state.steering_mode, QueueMode::OneAtATime);
    assert_eq!(state.follow_up_mode, QueueMode::All);
    assert!(state.auto_compaction_enabled);
    let model = state.model.unwrap();
    assert_eq!(model.id, "m1");
    assert_eq!(model.context_window, Some(1000));

    // pi emits "queue" for a migrated legacy queueMode setting; unknown future
    // values fall through to `Other` without breaking the parse.
    let state = RpcSessionState::from_json(&json(
        r#"{
            "thinkingLevel":"medium",
            "isStreaming":false,
            "isCompacting":false,
            "steeringMode":"queue",
            "followUpMode":"one-at-a-time",
            "sessionId":"abc",
            "autoCompactionEnabled":false,
            "messageCount":0,
            "pendingMessageCount":0
        }"#,
    ))
    .unwrap();
    assert_eq!(state.steering_mode, QueueMode::Queue);
    let state = RpcSessionState::from_json(&json(
        r#"{
            "thinkingLevel":"medium",
            "isStreaming":false,
            "isCompacting":false,
            "steeringMode":"future-mode",
            "followUpMode":"all",
            "sessionId":"abc",
            "autoCompactionEnabled":false,
            "messageCount":0,
            "pendingMessageCount":0
        }"#,
    ))
    .unwrap();
    assert_eq!(state.steering_mode, QueueMode::Other);
}

#[test]
fn serializes_extension_ui_responses() {
    let v = to_value(&Json::Object(
        ExtensionUiResponse::Value {
            id: "ui-1".to_string(),
            value: "pick-a".to_string(),
        }
        .to_map(),
    ));
    assert_eq!(v["id"], "ui-1");
    assert_eq!(v["value"], "pick-a");

    let v = to_value(&Json::Object(
        ExtensionUiResponse::Cancelled {
            id: "ui-2".to_string(),
            cancelled: true,
        }
        .to_map(),
    ));
    assert_eq!(v["cancelled"], true);
}

/// Any new `RpcEvent` variant is a compile error here until it is
/// deliberately classified.
fn classify(e: &RpcEvent) -> &'static str {
    match e {
        RpcEvent::AgentStart | RpcEvent::AgentSettled => "agent",
        RpcEvent::TurnStart
        | RpcEvent::TurnEnd { .. }
        | RpcEvent::MessageStart { .. }
        | RpcEvent::MessageUpdate { .. }
        | RpcEvent::MessageEnd { .. } => "message",
        RpcEvent::AgentEnd { .. } => "agent-end",
        RpcEvent::ToolExecutionStart { .. }
        | RpcEvent::ToolExecutionUpdate { .. }
        | RpcEvent::ToolExecutionEnd { .. } => "tool",
        RpcEvent::QueueUpdate { .. }
        | RpcEvent::SessionInfoChanged { .. }
        | RpcEvent::ThinkingLevelChanged { .. }
        | RpcEvent::BashExecutionUpdate { .. } => "session",
        RpcEvent::CompactionStart { .. } | RpcEvent::CompactionEnd { .. } => "compaction",
        RpcEvent::EntryAppended { .. } => "entry",
        RpcEvent::AutoRetryStart { .. } | RpcEvent::AutoRetryEnd { .. } => "retry",
        RpcEvent::SummarizationRetryScheduled { .. }
        | RpcEvent::SummarizationRetryAttemptStart { .. }
        | RpcEvent::SummarizationRetryFinished => "summarization",
        RpcEvent::ExtensionUiRequest { .. } => "extension-ui",
        RpcEvent::ExtensionError { .. } => "extension-error",
        RpcEvent::UnmatchedResponse { .. } => "unmatched-response",
        RpcEvent::Unknown { .. } => "unknown",
    }
}

#[test]
fn event_enum_is_exhaustively_classified() {
    assert_eq!(classify(&RpcEvent::AgentSettled), "agent");
}

#[test]
fn level_names_are_read_back() {
    for level in ThinkingLevel::all() {
        assert_eq!(ThinkingLevel::parse(level.id()), Some(level));
    }
    assert_eq!(ThinkingLevel::parse("extreme"), None);
    assert_eq!(QueueMode::parse("all"), QueueMode::All);
    assert_eq!(QueueMode::parse(QueueMode::OneAtATime.id()), QueueMode::OneAtATime);
}

#[test]
fn models_are_read_from_their_list() {
    let models = available_models(
        &json(r#"{"models":[{"id":"m","name":"M","provider":"p","reasoning":true}]}"#),
        "",
    )
    .unwrap();
    assert_eq!(models.len(), 1);
    assert_eq!(models[0].id, "m");
    assert!(models[0].reasoning);
    match available_models(&json(r#"{"models":[{"id":3}]}"#), "invalid type") {
        Err(AcpxError::Json(why)) => assert_eq!(why, "invalid type"),
        other => panic!("unexpected models: {other:?}"),
    }
}

#[test]
fn lists_stand_for_records() {
    let m = Model::from_json(&json(r#"["m","M","p"]"#)).expect("a model");
    assert_eq!((m.id.as_str(), m.name.as_str(), m.provider.as_str()), ("m", "M", "p"));
    assert!(!m.reasoning);
    let m = Model::from_json(&json(r#"["m","M","p",true,null,7]"#)).expect("a model");
    assert!(m.reasoning);
    assert_eq!(m.context_window, Some(7));
    assert!(Model::from_json(&json(r#"["m","M"]"#)).is_none());
    assert!(Model::from_json(&json(r#"["m","M","p",true,null,7,8,null,9]"#)).is_none());

    let r = RpcResponse::from_json(&json(r#"["1","response","prompt",true]"#)).expect("a response");
    assert_eq!(r.command, "prompt");
    assert!(r.success);
    assert!(RpcResponse::from_json(&json(r#"["1","response","prompt"]"#)).is_none());

    let s = RpcSessionState::from_json(&json(
        r#"[null,"high",false,true,"all","queue",null,"s1",null,false,3,0]"#,
    ))
    .expect("a state");
    assert!(s.model.is_none());
    assert_eq!(s.thinking_level, ThinkingLevel::High);
    assert!(s.is_compacting);
    assert_eq!(s.session_id, "s1");
    assert_eq!(s.message_count, 3);

    let u = Usage::from_json(&json("[5,3]")).expect("a usage report");
    assert_eq!((u.input, u.output, u.total_tokens), (5, 3, 0));
    assert!(Usage::from_json(&json("[]")).is_some());
    assert!(Usage::from_json(&json("null")).is_none());

    let c = RpcSlashCommand::from_json(&json(r#"["fix",null,"prompt"]"#)).expect("a command");
    assert_eq!(c.source, "prompt");
}

#[test]
fn names_may_be_members_without_a_value() {
    let s = RpcSessionState::from_json(&json(
        r#"{"thinkingLevel":{"low":null},"isStreaming":false,"isCompacting":false,
            "steeringMode":{"all":null},"followUpMode":{"later":null},"sessionId":"s1",
            "autoCompactionEnabled":false,"messageCount":0,"pendingMessageCount":0}"#,
    ))
    .expect("a state");
    assert_eq!(s.thinking_level, ThinkingLevel::Low);
    assert_eq!(s.steering_mode, QueueMode::All);
    assert_eq!(s.follow_up_mode, QueueMode::Other);
    match RpcEvent::from_json(&json(r#"{"type":"compaction_start","reason":{"manual":{}}}"#)) {
        Some(RpcEvent::CompactionStart { reason }) => {
            assert_eq!(reason, CompactionReason::Manual);
        }
        other => panic!("unexpected event: {other:?}"),
    }
    assert!(RpcEvent::from_json(&json(
        r#"{"type":"compaction_start","reason":{"manual":1}}"#
    ))
    .is_none());
}

#[test]
fn events_may_be_lists() {
    assert!(matches!(
        RpcEvent::from_json(&json(r#"["agent_settled"]"#)),
        Some(RpcEvent::AgentSettled)
    ));
    assert!(RpcEvent::from_json(&json(r#"["agent_settled",1]"#)).is_none());
    assert!(RpcEvent::from_json(&json("[]")).is_none());
    assert!(RpcEvent::from_json(&json(r#"["extension_ui_request"]"#)).is_none());
    match RpcEvent::from_json(&json(
        r#"["message_update",[],["text_delta",2,"pong"]]"#,
    )) {
        Some(RpcEvent::MessageUpdate {
            assistant_message_event,
            ..
        }) => {
            assert_eq!(assistant_message_event.text_delta(), Some("pong"));
            assert_eq!(assistant_message_event.content_index(), 2);
        }
        other => panic!("unexpected event: {other:?}"),
    }
    match RpcEvent::from_json(&json(r#"["bash_execution_update",null,"out"]"#)) {
        Some(RpcEvent::BashExecutionUpdate { id, delta }) => {
            assert_eq!(id, None);
            assert_eq!(delta, "out");
        }
        other => panic!("unexpected event: {other:?}"),
    }
}

#[test]
fn tags_within_events_may_be_numbers() {
    match RpcEvent::from_json(&json(
        r#"{"type":"message_update","usage":{},
            "assistantMessageEvent":{"type":2,"contentIndex":1,"delta":"x"}}"#,
    )) {
        Some(RpcEvent::MessageUpdate {
            assistant_message_event,
            ..
        }) => assert_eq!(assistant_message_event.text_delta(), Some("x")),
        other => panic!("unexpected event: {other:?}"),
    }
    match RpcEvent::from_json(&json(
        r#"{"type":"extension_ui_request","method":7,"id":"q","title":"T"}"#,
    )) {
        Some(RpcEvent::ExtensionUiRequest {
            inner: ExtensionUiRequest::SetTitle { title, .. },
        }) => assert_eq!(title, "T"),
        other => panic!("unexpected event: {other:?}"),
    }
    assert!(RpcEvent::from_json(&json(r#"{"type":0}"#)).is_none());
}

#[test]
fn records_tagged_unknown_carry_their_raw_member() {
    match RpcEvent::from_json(&json(r#"{"type":"unknown","raw":{"a":1}}"#)) {
        Some(RpcEvent::Unknown { raw }) => assert_eq!(raw.compact(), r#"{"a":1}"#),
        other => panic!("unexpected event: {other:?}"),
    }
    match RpcEvent::from_json(&json(r#"{"type":"unmatched_response","raw":3}"#)) {
        Some(RpcEvent::UnmatchedResponse { raw }) => assert_eq!(raw.compact(), "3"),
        other => panic!("unexpected event: {other:?}"),
    }
    assert!(RpcEvent::from_json(&json(r#"{"type":"unknown"}"#)).is_none());
}

#[test]
fn commands_are_read_from_their_records() {
    let c = RpcSlashCommand::from_json(&json(
        r#"{"name":"fix","source":"prompt","sourceInfo":{"path":"/p"}}"#,
    ))
    .expect("a command");
    assert_eq!(c.name, "fix");
    assert_eq!(c.source, "prompt");
    assert!(c.description.is_none());
    assert_eq!(to_value(&c.source_info.expect("more"))["path"], "/p");
    assert!(RpcSlashCommand::from_json(&json(r#"{"name":"fix"}"#)).is_none());
    assert!(
        RpcSlashCommand::from_json(&json(r#"{"name":"a","source":"b","description":1}"#)).is_none()
    );
}
