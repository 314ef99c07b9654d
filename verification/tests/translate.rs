//! What pi says, in the protocol's words.

use agent_client_protocol::schema::v1::{ToolCallContent, ToolCallStatus, ToolKind};
use pi_acp::json::{parse, to_value, Json};
use pi_acp::render::tool_call_v1;
use pi_acp::session::facts::{ToolKindFact, ToolLocationFact, ToolStatusFact};
use pi_acp::translate::bash::{
    bash_command, bash_exit_code, bash_output_delta, bash_result_text, bash_terminal_content,
    bash_terminal_exit_meta, bash_terminal_info_meta, bash_terminal_output_meta, is_bash_tool,
};
use pi_acp::translate::messages::{
    normalize_pi_assistant_text, normalize_pi_message_text, replay_message, ReplayMessage,
};
use pi_acp::translate::prompt::{
    base64_decoded_len, prompt_to_pi_message, to_pi_images, ContentBlock, PiImage,
    ResourceContents,
};
use pi_acp::translate::tools::{
    edit_old_texts, find_unique_line_number, parsed_edits, to_tool_call_locations, to_tool_kind,
    tool_call_from_parts, tool_path, tool_result_own_text, tool_result_to_text, Edit,
};

fn json(s: &str) -> Json {
    parse(s).expect("JSON")
}

// --- bash ---

#[test]
fn is_bash_tool_is_case_insensitive() {
    assert!(is_bash_tool("bash"));
    assert!(is_bash_tool("Bash"));
    assert!(is_bash_tool("BASH"));
    assert!(!is_bash_tool("read"));
    assert!(!is_bash_tool("bashish"));
}

#[test]
fn bash_command_extracts_from_all_shapes() {
    assert_eq!(
        bash_command(&json(r#"{ "command": "ls -la" }"#)),
        Some("ls -la".to_string())
    );
    assert_eq!(
        bash_command(&json(r#"{ "cmd": "pwd" }"#)),
        Some("pwd".to_string())
    );
    assert_eq!(
        bash_command(&json(r#"{ "args": { "command": "git status" } }"#)),
        Some("git status".to_string())
    );
    assert_eq!(
        bash_command(&json(r#"{ "input": { "cmd": "npm test" } }"#)),
        Some("npm test".to_string())
    );
    assert_eq!(
        bash_command(&json(r#"{ "rawInput": { "command": "cargo build" } }"#)),
        Some("cargo build".to_string())
    );
    assert_eq!(
        bash_command(&json(r#"{ "toolInput": { "command": "make" } }"#)),
        Some("make".to_string())
    );
    assert_eq!(
        bash_command(&json(r#"{ "details": { "cmd": "ls" } }"#)),
        Some("ls".to_string())
    );
}

#[test]
fn bash_command_ignores_non_string_or_blank() {
    assert_eq!(bash_command(&json(r#"{ "command": 42 }"#)), None);
    assert_eq!(bash_command(&json(r#"{ "command": "   " }"#)), None);
    assert_eq!(bash_command(&json(r#"{ "cmd": null }"#)), None);
    assert_eq!(bash_command(&json("null")), None);
    assert_eq!(bash_command(&json(r#""plain string""#)), None);
    // top-level wins over nested
    assert_eq!(
        bash_command(&json(
            r#"{ "command": "top", "args": { "command": "nested" } }"#
        )),
        Some("top".to_string())
    );
}

#[test]
fn bash_result_text_joins_content_blocks() {
    let text = bash_result_text(&json(
        r#"{
            "content": [
                { "type": "text", "text": "out1" },
                { "type": "text", "text": "out2" }
            ]
        }"#,
    ));
    assert_eq!(text, "out1out2");
}

#[test]
fn bash_result_text_prefers_details_over_top_level() {
    let text = bash_result_text(&json(
        r#"{ "stdout": "top", "details": { "stdout": "nested" } }"#,
    ));
    assert_eq!(text, "nested");
}

#[test]
fn bash_result_text_combines_stdout_and_stderr() {
    let text = bash_result_text(&json(
        r#"{ "details": { "stdout": "hello", "stderr": "warn" } }"#,
    ));
    assert_eq!(text, "hello\nwarn");
}

#[test]
fn bash_result_text_supports_output_alias() {
    let text = bash_result_text(&json(r#"{ "details": { "output": "alias-out" } }"#));
    assert_eq!(text, "alias-out");
}

#[test]
fn bash_result_text_empty_for_no_text() {
    assert_eq!(bash_result_text(&Json::Null), "");
    assert_eq!(bash_result_text(&json("{}")), "");
    assert_eq!(bash_result_text(&json("[]")), "");
    // empty strings are dropped
    assert_eq!(
        bash_result_text(&json(
            r#"{ "details": { "stdout": "", "stderr": "" } }"#
        )),
        ""
    );
}

#[test]
fn bash_exit_code_priority_and_fallback() {
    assert_eq!(
        bash_exit_code(&json(r#"{ "details": { "exitCode": 0 } }"#), false),
        0
    );
    assert_eq!(bash_exit_code(&json(r#"{ "exitCode": 2 }"#), false), 2);
    assert_eq!(
        bash_exit_code(&json(r#"{ "details": { "code": 3 } }"#), false),
        3
    );
    assert_eq!(bash_exit_code(&json(r#"{ "code": 4 }"#), false), 4);
    // negative (killed by signal) is preserved
    assert_eq!(
        bash_exit_code(&json(r#"{ "details": { "exitCode": -9 } }"#), false),
        -9
    );
    // fallback
    assert_eq!(bash_exit_code(&json("{}"), false), 0);
    assert_eq!(bash_exit_code(&json("{}"), true), 1);
    assert_eq!(bash_exit_code(&json(r#"{ "exitCode": "0" }"#), true), 1);
}

#[test]
fn bash_output_delta_prefix_and_reset() {
    assert_eq!(bash_output_delta("hello", "hello world"), " world");
    assert_eq!(bash_output_delta("hello", "goodbye"), "goodbye");
    assert_eq!(bash_output_delta("", "fresh"), "fresh");
    assert_eq!(bash_output_delta("same", "same"), "");
}

#[test]
fn bash_terminal_content_embeds_terminal_by_id() {
    let content: Vec<ToolCallContent> =
        serde_json::from_value(to_value(&bash_terminal_content("tc-9"))).unwrap();
    assert_eq!(content.len(), 1);
    match &content[0] {
        ToolCallContent::Terminal(t) => {
            assert_eq!(t.terminal_id.0.as_ref(), "tc-9");
        }
        other => panic!("expected terminal content, got {other:?}"),
    }
}

#[test]
fn bash_terminal_meta_shapes_match_zed_contract() {
    let info = bash_terminal_info_meta("tc-1", "/work");
    assert_eq!(
        Json::Object(info),
        json(r#"{ "terminal_info": { "terminal_id": "tc-1", "cwd": "/work" } }"#)
    );

    let out = bash_terminal_output_meta("tc-1", "delta");
    assert_eq!(
        Json::Object(out),
        json(r#"{ "terminal_output": { "terminal_id": "tc-1", "data": "delta" } }"#)
    );

    let exit = bash_terminal_exit_meta("tc-1", 5);
    assert_eq!(
        to_value(&Json::Object(exit)),
        to_value(&json(
            r#"{ "terminal_exit": { "terminal_id": "tc-1", "exit_code": 5, "signal": null } }"#
        ))
    );
}

// --- messages ---

#[test]
fn normalize_message_text_supports_string() {
    assert_eq!(normalize_pi_message_text(&json(r#""hello""#)), "hello");
}

#[test]
fn normalize_message_text_joins_text_blocks() {
    let content = json(
        r#"[
            { "type": "text", "text": "a" },
            { "type": "text", "text": "b" },
            { "type": "not_text", "x": 1 }
        ]"#,
    );
    assert_eq!(normalize_pi_message_text(&content), "ab");
}

#[test]
fn normalize_message_text_edge_cases() {
    assert_eq!(normalize_pi_message_text(&Json::Null), "");
    assert_eq!(normalize_pi_message_text(&json("42")), "");
    assert_eq!(normalize_pi_message_text(&json("[]")), "");
    // non-string text blocks are skipped
    assert_eq!(
        normalize_pi_message_text(&json(r#"[{ "type": "text", "text": 7 }]"#)),
        ""
    );
}

#[test]
fn normalize_assistant_text_joins_only_text_blocks() {
    let content = json(
        r#"[
            { "type": "text", "text": "hi" },
            { "type": "thinking", "text": "..." },
            { "type": "text", "text": "!" }
        ]"#,
    );
    assert_eq!(normalize_pi_assistant_text(&content), "hi!");
}

#[test]
fn normalize_assistant_text_non_array_is_empty() {
    assert_eq!(normalize_pi_assistant_text(&json(r#""str""#)), "");
    assert_eq!(normalize_pi_assistant_text(&Json::Null), "");
}

#[test]
fn replay_user_message() {
    let msg = json(r#"{ "role": "user", "content": "hi there" }"#);
    assert_eq!(
        replay_message(&msg),
        Some(ReplayMessage::UserText("hi there".to_string()))
    );
}

#[test]
fn replay_user_message_skips_empty() {
    let msg = json(r#"{ "role": "user", "content": "" }"#);
    assert_eq!(replay_message(&msg), None);
    let msg = json(r#"{ "role": "user", "content": [] }"#);
    assert_eq!(replay_message(&msg), None);
}

#[test]
fn replay_assistant_message_joins_text() {
    let msg = json(
        r#"{
            "role": "assistant",
            "content": [
                { "type": "thinking", "text": "hmm" },
                { "type": "text", "text": "answer" }
            ]
        }"#,
    );
    assert_eq!(
        replay_message(&msg),
        Some(ReplayMessage::AssistantText("answer".to_string()))
    );
}

#[test]
fn replay_tool_result_non_bash() {
    let msg = json(
        r#"{
            "role": "toolResult",
            "toolName": "edit",
            "toolCallId": "tc-1",
            "isError": false,
            "content": [{ "type": "text", "text": "ok" }]
        }"#,
    );
    match replay_message(&msg) {
        Some(ReplayMessage::ToolResult(r)) => {
            assert_eq!(r.tool_name, "edit");
            assert_eq!(r.tool_call_id.as_deref(), Some("tc-1"));
            assert!(!r.is_error);
            assert!(!r.is_bash);
            assert_eq!(r.title, "edit");
            assert_eq!(r.text, "ok");
        }
        other => panic!("expected tool result replay, got {other:?}"),
    }
}

#[test]
fn replay_tool_result_prefers_details_diff() {
    let msg = json(
        r#"{
            "role": "toolResult",
            "toolName": "edit",
            "content": [{ "type": "text", "text": "done" }],
            "details": { "diff": "--- a\n+++ b\n" }
        }"#,
    );
    match replay_message(&msg) {
        Some(ReplayMessage::ToolResult(r)) => {
            assert_eq!(r.text, "--- a\n+++ b\n");
        }
        other => panic!("expected tool result replay, got {other:?}"),
    }
}

#[test]
fn replay_tool_result_bash_uses_terminal_text_and_command_title() {
    let msg = json(
        r#"{
            "role": "toolResult",
            "toolName": "bash",
            "toolCallId": "tc-b",
            "isError": true,
            "content": [{ "type": "text", "text": "boom" }],
            "details": { "exitCode": 1 }
        }"#,
    );
    match replay_message(&msg) {
        Some(ReplayMessage::ToolResult(r)) => {
            assert!(r.is_bash);
            assert!(r.is_error);
            // no command in content => title falls back to tool name
            assert_eq!(r.title, "bash");
            assert_eq!(r.text, "boom");
        }
        other => panic!("expected tool result replay, got {other:?}"),
    }
}

#[test]
fn replay_tool_result_bash_command_title() {
    let msg = json(
        r#"{
            "role": "toolResult",
            "toolName": "Bash",
            "content": [{ "type": "text", "text": "out" }],
            "details": { "command": "ls -la" }
        }"#,
    );
    match replay_message(&msg) {
        Some(ReplayMessage::ToolResult(r)) => {
            assert!(r.is_bash);
            assert_eq!(r.title, "ls -la");
        }
        other => panic!("expected tool result replay, got {other:?}"),
    }
}

#[test]
fn replay_unknown_role_is_none() {
    assert_eq!(
        replay_message(&json(r#"{ "role": "system", "content": "x" }"#)),
        None
    );
    assert_eq!(replay_message(&json(r#"{ "content": "x" }"#)), None);
    assert_eq!(replay_message(&Json::Null), None);
}

#[test]
fn replay_tool_result_always_yields_even_without_text() {
    let msg = json(r#"{ "role": "toolResult", "toolName": "read" }"#);
    match replay_message(&msg) {
        Some(ReplayMessage::ToolResult(r)) => {
            // No content/diff/stdout: the text is the pretty-printed message
            // itself (the client sees the raw result rather than nothing).
            assert_eq!(
                r.text,
                serde_json::to_string_pretty(&to_value(&msg)).unwrap()
            );
            assert_eq!(r.tool_call_id, None);
        }
        other => panic!("expected tool result replay, got {other:?}"),
    }
}

// --- prompts ---

fn text(s: &str) -> ContentBlock {
    ContentBlock::Text(s.to_string())
}

#[test]
fn concatenates_text_and_resource_links() {
    let out = prompt_to_pi_message(&vec![
        text("Hello"),
        ContentBlock::ResourceLink {
            uri: "file:///tmp/foo.txt".to_string(),
        },
        text(" world"),
    ]);
    assert_eq!(out.message, "Hello\n[Context] file:///tmp/foo.txt world");
    assert!(out.images.is_empty());
}

#[test]
fn empty_blocks_produce_empty_prompt() {
    let out = prompt_to_pi_message(&Vec::new());
    assert_eq!(out.message, "");
    assert!(out.images.is_empty());
}

#[test]
fn embedded_resource_text_becomes_marker() {
    let out = prompt_to_pi_message(&vec![ContentBlock::Resource(ResourceContents::Text {
        uri: "file:///tmp/a.txt".to_string(),
        mime_type: Some("text/plain".to_string()),
        text: "hi".to_string(),
    })]);
    assert_eq!(
        out.message,
        "\n[Embedded Context] file:///tmp/a.txt (text/plain)\nhi"
    );
    assert!(out.images.is_empty());
}

#[test]
fn embedded_resource_defaults_mime_to_text_plain() {
    let out = prompt_to_pi_message(&vec![ContentBlock::Resource(ResourceContents::Text {
        uri: "file:///tmp/a.txt".to_string(),
        mime_type: None,
        text: "hi".to_string(),
    })]);
    assert_eq!(
        out.message,
        "\n[Embedded Context] file:///tmp/a.txt (text/plain)\nhi"
    );
}

#[test]
fn embedded_resource_blob_reports_byte_count() {
    // "xyz" base64-encoded
    let blob = "eHl6";
    let out = prompt_to_pi_message(&vec![ContentBlock::Resource(ResourceContents::Blob {
        uri: "file:///tmp/a.bin".to_string(),
        mime_type: Some("application/octet-stream".to_string()),
        blob: blob.to_string(),
    })]);
    assert_eq!(
        out.message,
        "\n[Embedded Context] file:///tmp/a.bin (application/octet-stream, 3 bytes)"
    );
}

#[test]
fn audio_becomes_unsupported_marker() {
    // "abc" base64-encoded
    let out = prompt_to_pi_message(&vec![ContentBlock::Audio {
        data: "YWJj".to_string(),
        mime_type: "audio/wav".to_string(),
    }]);
    assert_eq!(
        out.message,
        "\n[Audio] (audio/wav, 3 bytes) not supported by pi-acp"
    );
    assert!(out.images.is_empty());
}

#[test]
fn image_maps_to_pi_image_content() {
    // "abc" base64-encoded
    let data = "YWJj";
    let out = prompt_to_pi_message(&vec![
        text("see"),
        ContentBlock::Image {
            data: data.to_string(),
            mime_type: "image/png".to_string(),
        },
    ]);
    assert_eq!(out.message, "see");
    assert_eq!(out.images.len(), 1);
    assert_eq!(
        out.images[0],
        PiImage {
            mime_type: "image/png".to_string(),
            data: data.to_string(),
        }
    );
    let wire = to_pi_images(&out.images).expect("images");
    assert_eq!(wire[0].mime_type, "image/png");
    assert_eq!(wire[0].data, data);
    assert!(to_pi_images(&Vec::new()).is_none());
}

#[test]
fn base64_decoded_lengths() {
    assert_eq!(base64_decoded_len(""), 0);
    assert_eq!(base64_decoded_len("YQ=="), 1);
    assert_eq!(base64_decoded_len("YWJj"), 3);
    assert_eq!(base64_decoded_len("YWJjZA=="), 4);
    assert_eq!(base64_decoded_len("YWJjZGVm"), 6);
    // padding ignored; whitespace tolerated
    assert_eq!(base64_decoded_len("Y Q = ="), 1);
}

// --- tools ---

#[test]
fn extracts_text_from_content_blocks() {
    let text = tool_result_to_text(&json(
        r#"{
            "content": [
                { "type": "text", "text": "hello" },
                { "type": "text", "text": " world" }
            ]
        }"#,
    ));
    assert_eq!(text, "hello world");
}

#[test]
fn prefers_details_diff_when_present() {
    let text = tool_result_to_text(&json(
        r#"{
            "content": [{ "type": "text", "text": "Successfully replaced 2 block(s) in a.txt." }],
            "details": { "diff": "--- a\n+++ b\n" }
        }"#,
    ));
    assert_eq!(text, "--- a\n+++ b\n");
}

#[test]
fn ignores_blank_diff() {
    let text = tool_result_to_text(&json(
        r#"{
            "content": [{ "type": "text", "text": "ok" }],
            "details": { "diff": "   " }
        }"#,
    ));
    assert_eq!(text, "ok");
}

#[test]
fn falls_back_to_json() {
    let result = json(r#"{ "a": 1 }"#);
    assert_eq!(tool_result_own_text(&result), None);
    let text = tool_result_to_text(&result);
    assert!(text.contains("\"a\": 1"), "got: {text}");
}

#[test]
fn extracts_bash_stdout_stderr_from_details() {
    let text = tool_result_to_text(&json(
        r#"{ "details": { "stdout": "ok\n", "stderr": "warn\n", "exitCode": 0 } }"#,
    ));
    assert!(text.contains("ok"));
    assert!(text.contains("stderr:"));
    assert!(text.contains("warn"));
    assert!(text.contains("exit code: 0"));
}

#[test]
fn stdout_stderr_prefer_details_over_top_level() {
    let text = tool_result_to_text(&json(
        r#"{ "stdout": "top", "details": { "stdout": "nested" } }"#,
    ));
    assert_eq!(text, "nested");
}

#[test]
fn empty_results_yield_empty_text() {
    assert_eq!(tool_result_to_text(&Json::Null), "");
    assert_eq!(tool_result_to_text(&json("false")), "");
    assert_eq!(tool_result_to_text(&json("0")), "");
    assert_eq!(tool_result_to_text(&json(r#""""#)), "");
    assert_eq!(tool_result_to_text(&json("{}")), "{}");
    assert_eq!(tool_result_to_text(&json("[]")), "[]");
}

#[test]
fn scalar_result_falls_back_to_json() {
    assert_eq!(tool_result_to_text(&json(r#""boom""#)), "\"boom\"");
}

#[test]
fn non_string_values_in_content_are_ignored() {
    let text = tool_result_to_text(&json(
        r#"{
            "content": [
                { "type": "text", "text": "a" },
                { "type": "text", "text": 42 },
                { "type": "image", "text": "ignored" }
            ]
        }"#,
    ));
    assert_eq!(text, "a");
}

#[test]
fn find_unique_line_number_locations() {
    let text = "one\ntwo\nthree";
    assert_eq!(find_unique_line_number(text, "two"), Some(2));
    assert_eq!(find_unique_line_number(text, "one"), Some(1));
    assert_eq!(find_unique_line_number(text, "three"), Some(3));
    // absent
    assert_eq!(find_unique_line_number(text, "four"), None);
    // empty needle
    assert_eq!(find_unique_line_number(text, ""), None);
}

#[test]
fn find_unique_line_number_rejects_duplicates() {
    let text = "dup\ndup\nother";
    assert_eq!(find_unique_line_number(text, "dup"), None);
    // substring that appears once is fine
    assert_eq!(find_unique_line_number(text, "other"), Some(3));
}

#[test]
fn find_unique_line_number_uses_newline_only() {
    let text = "a\r\nb\r\nc";
    // \r\n is one line separator; "b" is on line 2
    assert_eq!(find_unique_line_number(text, "b"), Some(2));
}

#[test]
fn tool_path_extracts_path_and_file_path() {
    assert_eq!(
        tool_path(&json(r#"{ "path": "src/main.rs" }"#)),
        Some("src/main.rs".to_string())
    );
    assert_eq!(
        tool_path(&json(r#"{ "file_path": "a.txt" }"#)),
        Some("a.txt".to_string())
    );
    assert_eq!(tool_path(&json(r#"{ "other": 1 }"#)), None);
    assert_eq!(tool_path(&json("null")), None);
}

fn edit(old_text: &str, new_text: &str) -> Edit {
    Edit {
        old_text: old_text.to_string(),
        new_text: new_text.to_string(),
    }
}

#[test]
fn parsed_edits_accepts_all_shapes() {
    // legacy top-level
    assert_eq!(
        parsed_edits(&json(r#"{ "oldText": "a", "newText": "b" }"#)),
        vec![edit("a", "b")]
    );
    // current edits[] shape
    assert_eq!(
        parsed_edits(&json(
            r#"{ "edits": [{ "oldText": "x", "newText": "y" }] }"#
        )),
        vec![edit("x", "y")]
    );
    // stringified edits (pi normalizes these)
    assert_eq!(
        parsed_edits(&json(
            r#"{ "edits": "[{\"oldText\":\"p\",\"newText\":\"q\"}]" }"#
        )),
        vec![edit("p", "q")]
    );
    // malformed stringified edits are ignored
    assert_eq!(
        parsed_edits(&json(r#"{ "edits": "not-json" }"#)),
        Vec::<Edit>::new()
    );
    // partial entries skipped
    assert_eq!(
        parsed_edits(&json(
            r#"{ "edits": [{ "oldText": "a" }, { "newText": "b" }] }"#
        )),
        Vec::<Edit>::new()
    );
}

#[test]
fn edit_old_texts_are_distinct() {
    let old = edit_old_texts(&json(
        r#"{
            "oldText": "dup",
            "edits": [
                { "oldText": "one", "newText": "1" },
                { "oldText": "dup", "newText": "2" }
            ]
        }"#,
    ));
    assert_eq!(old, vec!["one", "dup"]);
}

#[test]
fn edit_old_texts_parse_stringified_edits() {
    let old = edit_old_texts(&json(
        r#"{ "edits": "[{\"oldText\":\"s1\",\"newText\":\"t1\"}]" }"#,
    ));
    assert_eq!(old, vec!["s1"]);
}

#[test]
fn tool_kind_mapping() {
    assert_eq!(to_tool_kind("read"), ToolKindFact::Read);
    assert_eq!(to_tool_kind("write"), ToolKindFact::Edit);
    assert_eq!(to_tool_kind("edit"), ToolKindFact::Edit);
    assert_eq!(to_tool_kind("bash"), ToolKindFact::Execute);
    assert_eq!(to_tool_kind("weird"), ToolKindFact::Other);
}

#[test]
fn locations_resolve_relative_to_cwd_and_carry_line() {
    let locs = to_tool_call_locations(&json(r#"{ "path": "src/lib.rs" }"#), "/work", Some(7), false);
    assert_eq!(locs.len(), 1);
    assert_eq!(locs[0].path, "/work/src/lib.rs");
    assert_eq!(locs[0].line, Some(7));
}

#[test]
fn locations_keep_absolute_paths_and_omit_line() {
    let locs =
        to_tool_call_locations(&json(r#"{ "path": "/abs/x.rs", "other": 1 }"#), "/work", None, false);
    assert_eq!(locs.len(), 1);
    assert_eq!(locs[0].path, "/abs/x.rs");
    assert_eq!(locs[0].line, None);
}

#[test]
fn locations_empty_without_path() {
    assert!(to_tool_call_locations(&json(r#"{ "cmd": "ls" }"#), "/w", None, false).is_empty());
}

#[test]
fn tool_call_from_parts_builds_acp_shape() {
    let fact = tool_call_from_parts(
        "s-1",
        "t-1",
        "read",
        ToolKindFact::Read,
        ToolStatusFact::InProgress,
        vec![ToolLocationFact {
            path: "/w/a.txt".to_string(),
            line: None,
        }],
        Some(json(r#"{ "path": "a.txt" }"#)),
    );
    let params = to_value(&tool_call_v1(&fact));
    let call: agent_client_protocol::schema::v1::ToolCall =
        serde_json::from_value(params["update"].clone()).unwrap();
    assert_eq!(call.tool_call_id.0.as_ref(), "t-1");
    assert_eq!(call.title, "read");
    assert_eq!(call.kind, ToolKind::Read);
    assert_eq!(call.status, ToolCallStatus::InProgress);
    assert_eq!(call.locations.len(), 1);
    assert_eq!(
        call.raw_input,
        Some(to_value(&json(r#"{ "path": "a.txt" }"#)))
    );
}
