//! The frames of both protocol versions, read back with the protocol's types.

use agent_client_protocol::schema::v1;
use agent_client_protocol_schema::v2;
use agent_client_protocol_schema::v2::conversion::try_v1_to_v2;
use pi_acp::json::{parse, to_value, Json};
use pi_acp::protocol::Protocol;
use pi_acp::render::{
    acp_stop_reason, bash_replay_v1, bash_replay_v2, bash_v1_frames, bash_v2_frames,
    foreground_v2, message_patch_v1, message_patch_v2, needs_synthetic_id, outbound_frames,
    permission_request, text_chunk_v1, text_chunk_v2, tool_call_v1, tool_call_v2, SyntheticIds,
};
use pi_acp::session::facts::{
    AvailableCommandFact, AvailableCommandsFact, BashToolCall, BashToolStatus as S,
    ConfigCategoryFact, ConfigChoiceFact, ConfigOptionFact, ConfigOptionsFact, CostFact,
    ForegroundState, LinkChunkFact, MessagePatch, ModeFact, OutboundMessage,
    PermissionOptionFact, PermissionOptionKindFact, PermissionRequestFact, SessionInfoFact,
    StopReason, TextChunk, TextChunkKind, ToolCallFact, ToolContentFact, ToolKindFact,
    ToolLocationFact, ToolStatusFact, UsageFact,
};
use serde_json::Value;

fn json(s: &str) -> Json {
    parse(s).expect("JSON")
}

fn v1_frame(params: &Json) -> v1::SessionNotification {
    serde_json::from_value(to_value(params)).expect("a v1 notification")
}

fn v2_frame(params: &Json) -> v2::UpdateSessionNotification {
    serde_json::from_value(to_value(params)).expect("a v2 notification")
}

fn call(first: bool, status: S) -> BashToolCall {
    BashToolCall {
        session_id: "s1".to_string(),
        tool_call_id: "t1".to_string(),
        command: "ls -la".to_string(),
        cwd: Some("/work".to_string()),
        status,
        output: String::new(),
        output_delta: String::new(),
        exit_code: None,
        first,
    }
}

/// v1 keeps its embedded client terminal and `terminal_info` meta exactly.
#[test]
fn v1_open_embeds_the_client_terminal() {
    let frames = bash_v1_frames(&call(true, S::Pending));
    let v1::SessionUpdate::ToolCall(tool_call) = v1_frame(&frames[0]).update else {
        panic!("a bash call opens as a tool_call on v1");
    };
    assert_eq!(tool_call.kind, v1::ToolKind::Execute);
    assert!(matches!(
        tool_call.content.first(),
        Some(v1::ToolCallContent::Terminal(_))
    ));
    assert_eq!(
        tool_call.meta.as_ref().unwrap()["terminal_info"]["terminal_id"],
        "t1"
    );
}

/// Later v1 frames are status + output/exit patches.
#[test]
fn v1_output_and_exit_are_meta_updates() {
    let mut c = call(false, S::Completed);
    c.output_delta = "done\n".to_string();
    c.output = "done\n".to_string();
    c.exit_code = Some(0);
    let frames = bash_v1_frames(&c);
    let v1::SessionUpdate::ToolCallUpdate(update) = v1_frame(&frames[0]).update else {
        panic!("a bash continuation is a tool_call_update on v1");
    };
    let meta = update.meta.as_ref().expect("terminal meta");
    assert_eq!(meta["terminal_output"]["data"], "done\n");
    assert_eq!(meta["terminal_exit"]["exit_code"], 0);
}

/// The v2 opening frame names the call itself, because v2 dropped the
/// client-owned terminal v1 embeds.
#[test]
fn v2_open_names_the_call_and_never_embeds_a_v1_terminal() {
    let frames = bash_v2_frames(&call(true, S::InProgress));
    let v2::SessionUpdate::ToolCallUpdate(update) = v2_frame(&frames[0]).update else {
        panic!("a bash call is a tool_call_update on v2");
    };
    assert_eq!(update.kind.value(), Some(&v2::ToolKind::Execute));
    assert_eq!(update.title.value().map(String::as_str), Some("ls -la"));
    assert_eq!(
        update.raw_input.value().and_then(|v| v.get("command")),
        Some(&Value::from("ls -la"))
    );
}

/// v2 streams the terminal through `_meta`, which is what the client reads.
#[test]
fn v2_output_and_exit_travel_as_meta() {
    let mut c = call(true, S::Completed);
    c.output_delta = "done\n".to_string();
    c.output = "done\n".to_string();
    c.exit_code = Some(0);
    let frames = bash_v2_frames(&c);
    let v2::SessionUpdate::ToolCallUpdate(update) = v2_frame(&frames[0]).update else {
        panic!("a bash call is a tool_call_update on v2");
    };
    let meta = update.meta.value().expect("terminal meta");
    assert_eq!(meta["terminal_output"]["data"], "done\n");
    assert_eq!(meta["terminal_exit"]["exit_code"], 0);
}

/// A v1 frame with terminal content has no v2 form, so a converted call would
/// be lost; the native v2 frame needs no conversion.
#[test]
fn the_old_v1_bash_frame_could_not_be_converted_but_the_native_one_needs_no_conversion() {
    let legacy = v1_frame(&bash_v1_frames(&call(true, S::InProgress))[0]);
    let converted: Result<v2::UpdateSessionNotification, _> = try_v1_to_v2(legacy);
    assert!(
        converted.is_err(),
        "v1 terminal content has no v2 form"
    );

    let native = bash_v2_frames(&call(true, S::InProgress));
    assert_eq!(native.len(), 1);
    let serialized = serde_json::to_value(v2_frame(&native[0])).expect("a v2 frame serializes");
    assert_eq!(serialized["update"]["sessionUpdate"], "tool_call_update");
    assert_eq!(serialized["update"]["kind"], "execute");
    assert_eq!(serialized["update"]["title"], "ls -la");
}

fn chunk(kind: TextChunkKind, message_id: Option<&str>) -> TextChunk {
    TextChunk {
        session_id: "s1".to_string(),
        message_id: message_id.map(|m| m.to_string()),
        kind,
        text: "hello".to_string(),
        meta: None,
    }
}

#[test]
fn text_is_told_in_both_versions() {
    let v1::SessionUpdate::AgentMessageChunk(c) =
        v1_frame(&text_chunk_v1(&chunk(TextChunkKind::Agent, Some("m1")))).update
    else {
        panic!("an agent text is an agent_message_chunk");
    };
    let v1::ContentBlock::Text(t) = c.content else {
        panic!("a text");
    };
    assert_eq!(t.text, "hello");

    let v2::SessionUpdate::AgentThoughtChunk(c) =
        v2_frame(&text_chunk_v2(&chunk(TextChunkKind::Thought, None), "made-up")).update
    else {
        panic!("a thought is an agent_thought_chunk");
    };
    assert_eq!(c.message_id.0.as_ref(), "made-up");

    let v2::SessionUpdate::UserMessageChunk(c) =
        v2_frame(&text_chunk_v2(&chunk(TextChunkKind::User, Some("m2")), "x")).update
    else {
        panic!("a user's text is a user_message_chunk");
    };
    assert_eq!(c.message_id.0.as_ref(), "m2");
}

#[test]
fn made_up_ids_differ() {
    let mut ids = SyntheticIds::new();
    assert!(ids.has_room());
    let a = ids.mint();
    let b = ids.mint();
    assert_ne!(a, b);
}

#[test]
fn a_replayed_call_is_one_frame() {
    let v1::SessionUpdate::ToolCall(t) =
        v1_frame(&bash_replay_v1("s1", "t1", "ls", "/w", "out", 3, true)).update
    else {
        panic!("a replayed call is a tool_call on v1");
    };
    assert_eq!(t.status, v1::ToolCallStatus::Failed);
    let meta = t.meta.expect("meta");
    assert_eq!(meta["terminal_output"]["data"], "out");
    assert_eq!(meta["terminal_exit"]["exit_code"], 3);

    let v2::SessionUpdate::ToolCallUpdate(t) =
        v2_frame(&bash_replay_v2("s1", "t1", "ls", "/w", "out", 0, false)).update
    else {
        panic!("a replayed call is a tool_call_update on v2");
    };
    assert_eq!(t.status.value(), Some(&v2::ToolCallStatus::Completed));
    assert_eq!(t.title.value().map(String::as_str), Some("ls"));
}

#[test]
fn a_patched_message_is_told_to_v2_only() {
    let patch = MessagePatch {
        session_id: "s1".to_string(),
        message_id: "m1".to_string(),
        text: "whole".to_string(),
    };
    assert!(message_patch_v1(&patch).is_empty());
    let v2::SessionUpdate::AgentMessage(m) = v2_frame(&message_patch_v2(&patch)).update else {
        panic!("a patch is an agent_message");
    };
    assert_eq!(m.message_id.0.as_ref(), "m1");
}

#[test]
fn the_end_of_a_turn_is_told_to_v2() {
    assert_eq!(acp_stop_reason(StopReason::EndTurn), "end_turn");
    assert_eq!(acp_stop_reason(StopReason::Cancelled), "cancelled");
    let v2::SessionUpdate::StateUpdate(v2::StateUpdate::Running(_)) =
        v2_frame(&foreground_v2("s1", ForegroundState::Running)).update
    else {
        panic!("a running state");
    };
    let v2::SessionUpdate::StateUpdate(v2::StateUpdate::Idle(idle)) = v2_frame(&foreground_v2(
        "s1",
        ForegroundState::Idle(StopReason::Cancelled),
    ))
    .update
    else {
        panic!("an idle state");
    };
    assert_eq!(idle.stop_reason, Some(v2::StopReason::Cancelled));
}

fn tool_call(first: bool) -> ToolCallFact {
    ToolCallFact {
        session_id: "s1".to_string(),
        tool_call_id: "t1".to_string(),
        first,
        title: Some("edit".to_string()),
        kind: Some(ToolKindFact::Edit),
        status: Some(ToolStatusFact::Completed),
        content: Some(vec![
            ToolContentFact::Diff {
                path: "/w/a".to_string(),
                new_text: "b".to_string(),
                old_text: Some("a".to_string()),
            },
            ToolContentFact::Text("done".to_string()),
        ]),
        locations: vec![ToolLocationFact {
            path: "/w/a".to_string(),
            line: Some(3),
        }],
        raw_input: Some(json(r#"{"path":"a"}"#)),
        raw_output: Some(json(r#"{"ok":true}"#)),
        meta: None,
    }
}

#[test]
fn tool_calls_are_told_in_both_versions() {
    let v1::SessionUpdate::ToolCall(t) = v1_frame(&tool_call_v1(&tool_call(true))).update else {
        panic!("a first call is a tool_call on v1");
    };
    assert_eq!(t.title, "edit");
    assert_eq!(t.content.len(), 2);
    assert!(matches!(t.content[0], v1::ToolCallContent::Diff(_)));
    assert_eq!(t.locations[0].line, Some(3));

    let v1::SessionUpdate::ToolCallUpdate(t) = v1_frame(&tool_call_v1(&tool_call(false))).update
    else {
        panic!("a later call is a tool_call_update on v1");
    };
    assert_eq!(t.fields.status, Some(v1::ToolCallStatus::Completed));

    let v2::SessionUpdate::ToolCallUpdate(t) = v2_frame(&tool_call_v2(&tool_call(true))).update
    else {
        panic!("a call is a tool_call_update on v2");
    };
    assert_eq!(t.kind.value(), Some(&v2::ToolKind::Edit));
    assert_eq!(t.status.value(), Some(&v2::ToolCallStatus::Completed));
    assert_eq!(t.content.value().map(|c| c.len()), Some(2));
    assert_eq!(t.locations.value().map(|l| l.len()), Some(1));
}

fn every_message() -> Vec<OutboundMessage> {
    let sid = "s1".to_string();
    vec![
        OutboundMessage::SessionInfo(SessionInfoFact {
            session_id: sid.clone(),
            title: Some("T".to_string()),
            updated_at: Some("2026-08-01T10:00:00.000Z".to_string()),
            meta: None,
        }),
        OutboundMessage::Usage(UsageFact {
            session_id: sid.clone(),
            used: 5,
            size: 100,
            cost: Some(CostFact {
                amount: number("0.25"),
                currency: "USD".to_string(),
            }),
        }),
        OutboundMessage::ConfigOptions(ConfigOptionsFact {
            session_id: sid.clone(),
            options: vec![ConfigOptionFact {
                id: "thought_level".to_string(),
                name: "Thinking".to_string(),
                description: None,
                category: Some(ConfigCategoryFact::ThoughtLevel),
                current_value: "low".to_string(),
                choices: vec![ConfigChoiceFact {
                    value: "low".to_string(),
                    name: "Low".to_string(),
                    description: None,
                    meta: None,
                }],
                meta: None,
            }],
        }),
        OutboundMessage::AvailableCommands(AvailableCommandsFact {
            session_id: sid.clone(),
            commands: vec![AvailableCommandFact {
                name: "compact".to_string(),
                description: "Compact".to_string(),
                input_hint: Some("what to keep".to_string()),
                meta: None,
            }],
        }),
        OutboundMessage::ToolCall(tool_call(true)),
        OutboundMessage::LinkChunk(LinkChunkFact {
            session_id: sid.clone(),
            message_id: None,
            name: "x.html".to_string(),
            uri: "file:///x.html".to_string(),
            mime_type: Some("text/html".to_string()),
            title: Some("Export".to_string()),
        }),
        OutboundMessage::TextChunk(chunk(TextChunkKind::Agent, None)),
        OutboundMessage::BashToolCall(call(true, S::Pending)),
    ]
}

fn number(s: &str) -> pi_acp::json::JsonNumber {
    match json(s) {
        Json::Number(n) => n,
        other => panic!("not a number: {other:?}"),
    }
}

#[test]
fn every_message_is_a_frame_of_both_versions() {
    for message in every_message() {
        let v1_frames = outbound_frames(&message, Protocol::V1, "made-up");
        assert_eq!(v1_frames.len(), 1, "{message:?}");
        assert_eq!(v1_frame(&v1_frames[0]).session_id.0.as_ref(), "s1");
        assert!(!needs_synthetic_id(&message, Protocol::V1));

        let v2_frames = outbound_frames(&message, Protocol::V2, "made-up");
        assert_eq!(v2_frames.len(), 1, "{message:?}");
        let frame = v2_frame(&v2_frames[0]);
        assert_eq!(frame.session_id.0.as_ref(), "s1");
        assert!(
            !matches!(frame.update, v2::SessionUpdate::Other(_)),
            "{:?}",
            v2_frames[0]
        );
    }
}

#[test]
fn details_survive_in_their_places() {
    let messages = every_message();
    let usage = v1_frame(&outbound_frames(&messages[1], Protocol::V1, "x")[0]);
    let v1::SessionUpdate::UsageUpdate(u) = usage.update else {
        panic!("a usage_update");
    };
    assert_eq!(u.used, 5);
    assert_eq!(u.size, 100);
    assert_eq!(u.cost.expect("cost").amount, 0.25);

    let options = v2_frame(&outbound_frames(&messages[2], Protocol::V2, "x")[0]);
    let v2::SessionUpdate::ConfigOptionUpdate(o) = options.update else {
        panic!("a config_option_update");
    };
    assert_eq!(o.config_options.len(), 1);

    let commands = v2_frame(&outbound_frames(&messages[3], Protocol::V2, "x")[0]);
    let v2::SessionUpdate::AvailableCommandsUpdate(c) = commands.update else {
        panic!("an available_commands_update");
    };
    assert_eq!(c.available_commands.len(), 1);

    assert!(needs_synthetic_id(&messages[6], Protocol::V2));
    let text = v2_frame(&outbound_frames(&messages[6], Protocol::V2, "made-up")[0]);
    let v2::SessionUpdate::AgentMessageChunk(t) = text.update else {
        panic!("an agent_message_chunk");
    };
    assert_eq!(t.message_id.0.as_ref(), "made-up");
}

#[test]
fn modes_are_told_to_v1_only() {
    let mode = OutboundMessage::Mode(ModeFact {
        session_id: "s1".to_string(),
        mode_id: "low".to_string(),
    });
    let frames = outbound_frames(&mode, Protocol::V1, "x");
    let v1::SessionUpdate::CurrentModeUpdate(m) = v1_frame(&frames[0]).update else {
        panic!("a current_mode_update");
    };
    assert_eq!(m.current_mode_id.0.as_ref(), "low");
    assert!(outbound_frames(&mode, Protocol::V2, "x").is_empty());

    let state = OutboundMessage::Foreground {
        session_id: "s1".to_string(),
        state: ForegroundState::Running,
    };
    assert!(outbound_frames(&state, Protocol::V1, "x").is_empty());
    assert_eq!(outbound_frames(&state, Protocol::V2, "x").len(), 1);
}

#[test]
fn a_question_is_a_request_of_both_versions() {
    let request = PermissionRequestFact {
        session_id: "s1".to_string(),
        tool_call_id: "ui-1".to_string(),
        title: "Pick".to_string(),
        raw_input: json(r#"{"method":"select"}"#),
        options: vec![PermissionOptionFact {
            id: "choice-0".to_string(),
            name: "a".to_string(),
            kind: PermissionOptionKindFact::AllowOnce,
        }],
        meta: None,
    };
    let one: v1::RequestPermissionRequest =
        serde_json::from_value(to_value(&permission_request(&request, Protocol::V1)))
            .expect("a v1 request");
    assert_eq!(one.options.len(), 1);
    assert_eq!(one.options[0].option_id.0.as_ref(), "choice-0");
    assert_eq!(one.tool_call.tool_call_id.0.as_ref(), "ui-1");
    let two: v2::RequestPermissionRequest =
        serde_json::from_value(to_value(&permission_request(&request, Protocol::V2)))
            .expect("a v2 request");
    assert_eq!(two.options.len(), 1);
}
