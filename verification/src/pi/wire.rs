//! What stands on the wire between the adapter and pi, member by member.

use crate::json;
use crate::json::{JsonView, NumberView};
use crate::pi::events::{AssistantMessageEvent, RpcEvent};
use crate::pi::rpc;
use crate::pi::rpc::{
    ExtensionUiResponse, ImageContent, Model, RpcCommand, RpcSessionState, Usage,
};
use crate::text;
use vstd::prelude::*;

verus! {

/// The record of a command, as pi reads it.
pub open spec fn record(c: RpcCommand) -> JsonView {
    JsonView::Object(c.members())
}

/// A prompt is sent word for word, with its images in order, each with its
/// bytes and its type; without images none are mentioned.
pub proof fn a_prompt_is_sent_whole(message: String, images: Option<Vec<ImageContent>>)
    ensures
        ({
            let r = record(RpcCommand::Prompt { message, images, streaming_behavior: None });
            &&& json::member(r, "type"@) == Some(JsonView::Str("prompt"@))
            &&& json::member(r, "message"@) == Some(JsonView::Str(message@))
            &&& images is None ==> json::member(r, "images"@) is None
            &&& images matches Some(v) ==> (json::member(r, "images"@) matches Some(
                JsonView::Array(shown),
            ) && shown.len() == v@.len() && forall|k: int|
                0 <= k < v@.len() ==> shows_image(#[trigger] shown[k], v@[k]))
            &&& json::member(r, "streaming_behavior"@) is None
        }),
{
    broadcast use json::entry_of_put;

    reveal_strlit("type");
    reveal_strlit("message");
    reveal_strlit("images");
    reveal_strlit("streaming_behavior");
    assert("type"@.len() == 4 && "message"@.len() == 7 && "images"@.len() == 6);
    assert("streaming_behavior"@.len() == 18);
    let r = record(RpcCommand::Prompt { message, images, streaming_behavior: None });
    if let Some(v) = images {
        let shown = v@.map_values(|i: ImageContent| rpc::image_json(i));
        assert(json::member(r, "images"@) == Some(JsonView::Array(shown)));
        assert forall|k: int| 0 <= k < v@.len() implies shows_image(#[trigger] shown[k], v@[k]) by {
            image_is_shown(v@[k]);
        }
    }
}

/// Whether a value shows an image.
pub open spec fn shows_image(v: JsonView, i: ImageContent) -> bool {
    &&& json::member(v, "data"@) == Some(JsonView::Str(i.data@))
    &&& json::member(v, "mimeType"@) == Some(JsonView::Str(i.mime_type@))
}

proof fn image_is_shown(i: ImageContent)
    ensures
        shows_image(rpc::image_json(i), i),
{
    broadcast use json::entry_of_put;

    reveal_strlit("data");
    reveal_strlit("mimeType");
    assert("data"@.len() == 4 && "mimeType"@.len() == 8);
}

/// A command that sets something says what, under pi's name for it.
pub proof fn settings_are_sent(c: RpcCommand)
    ensures
        ({
            let r = record(c);
            match c {
                RpcCommand::SetModel { provider, model_id } => {
                    &&& json::member(r, "type"@) == Some(JsonView::Str("set_model"@))
                    &&& json::member(r, "provider"@) == Some(JsonView::Str(provider@))
                    &&& json::member(r, "modelId"@) == Some(JsonView::Str(model_id@))
                },
                RpcCommand::SetThinkingLevel { level } => {
                    &&& json::member(r, "type"@) == Some(JsonView::Str("set_thinking_level"@))
                    &&& json::member(r, "level"@) matches Some(JsonView::Str(s))
                        && rpc::level_named(s) == Some(level)
                },
                RpcCommand::SetFollowUpMode { mode } => {
                    &&& json::member(r, "type"@) == Some(JsonView::Str("set_follow_up_mode"@))
                    &&& json::member(r, "mode"@) == Some(JsonView::Str(rpc::mode_id(mode)))
                },
                RpcCommand::SetSteeringMode { mode } => {
                    &&& json::member(r, "type"@) == Some(JsonView::Str("set_steering_mode"@))
                    &&& json::member(r, "mode"@) == Some(JsonView::Str(rpc::mode_id(mode)))
                },
                RpcCommand::Compact { custom_instructions } => {
                    &&& json::member(r, "type"@) == Some(JsonView::Str("compact"@))
                    &&& json::member(r, "customInstructions"@) == (match custom_instructions {
                        Some(s) => Some(JsonView::Str(s@)),
                        None => None,
                    })
                },
                RpcCommand::SetAutoCompaction { enabled } => {
                    &&& json::member(r, "type"@) == Some(JsonView::Str("set_auto_compaction"@))
                    &&& json::member(r, "enabled"@) == Some(JsonView::Bool(enabled))
                },
                RpcCommand::SetSessionName { name } => {
                    &&& json::member(r, "type"@) == Some(JsonView::Str("set_session_name"@))
                    &&& json::member(r, "name"@) == Some(JsonView::Str(name@))
                },
                RpcCommand::ExportHtml { output_path } => {
                    &&& json::member(r, "type"@) == Some(JsonView::Str("export_html"@))
                    &&& json::member(r, "outputPath"@) == (match output_path {
                        Some(s) => Some(JsonView::Str(s@)),
                        None => None,
                    })
                },
                RpcCommand::SwitchSession { session_path } => {
                    &&& json::member(r, "type"@) == Some(JsonView::Str("switch_session"@))
                    &&& json::member(r, "sessionPath"@) == Some(JsonView::Str(session_path@))
                },
                _ => json::member(r, "type"@) == Some(JsonView::Str(c.name_view())),
            }
        }),
{
    broadcast use json::entry_of_put;

    reveal_strlit("type");
    reveal_strlit("message");
    reveal_strlit("images");
    reveal_strlit("streaming_behavior");
    reveal_strlit("provider");
    reveal_strlit("modelId");
    reveal_strlit("level");
    reveal_strlit("mode");
    reveal_strlit("customInstructions");
    reveal_strlit("enabled");
    reveal_strlit("name");
    reveal_strlit("outputPath");
    reveal_strlit("sessionPath");
    assert("type"@.len() == 4 && "message"@.len() == 7 && "images"@.len() == 6);
    assert("streaming_behavior"@.len() == 18 && "provider"@.len() == 8 && "modelId"@.len() == 7);
    assert("level"@.len() == 5 && "mode"@.len() == 4 && "customInstructions"@.len() == 18);
    assert("enabled"@.len() == 7 && "name"@.len() == 4 && "outputPath"@.len() == 10);
    assert("sessionPath"@.len() == 11);
    assert("type"@[0] != "mode"@[0]);
    assert("type"@[0] != "name"@[0]);
    assert("mode"@[0] != "name"@[0]);
    assert("message"@[1] != "modelId"@[1]);
    assert("message"@[0] != "enabled"@[0]);
    assert("modelId"@[0] != "enabled"@[0]);
    assert("streaming_behavior"@[0] != "customInstructions"@[0]);
    if let RpcCommand::SetThinkingLevel { level } = c {
        rpc::level_names_round_trip(level);
    }
}

/// The modes of delivery are told apart by their names, in both directions.
pub proof fn modes_round_trip()
    ensures
        rpc::mode_named("all"@) == rpc::QueueMode::All,
        rpc::mode_named("one-at-a-time"@) == rpc::QueueMode::OneAtATime,
        rpc::mode_id(rpc::QueueMode::All) == "all"@,
        rpc::mode_id(rpc::QueueMode::OneAtATime) == "one-at-a-time"@,
{
    reveal_strlit("all");
    reveal_strlit("one-at-a-time");
    reveal_strlit("queue");
    assert("all"@.len() == 3 && "one-at-a-time"@.len() == 13 && "queue"@.len() == 5);
}

/// The answer to a question goes to the question it answers, and says the value
/// that was chosen, whether it was confirmed, or that it was cancelled.
pub proof fn answers_are_sent(a: ExtensionUiResponse)
    ensures
        ({
            let r = JsonView::Object(a.members());
            &&& json::member(r, "type"@) == Some(JsonView::Str("extension_ui_response"@))
            &&& match a {
                ExtensionUiResponse::Value { id, value } => json::member(r, "id"@) == Some(
                    JsonView::Str(id@),
                ) && json::member(r, "value"@) == Some(JsonView::Str(value@)),
                ExtensionUiResponse::Confirmed { id, confirmed } => json::member(r, "id"@) == Some(
                    JsonView::Str(id@),
                ) && json::member(r, "confirmed"@) == Some(JsonView::Bool(confirmed)),
                ExtensionUiResponse::Cancelled { id, cancelled } => json::member(r, "id"@) == Some(
                    JsonView::Str(id@),
                ) && json::member(r, "cancelled"@) == Some(JsonView::Bool(cancelled)),
            }
        }),
{
    broadcast use json::entry_of_put;

    reveal_strlit("type");
    reveal_strlit("id");
    reveal_strlit("value");
    reveal_strlit("confirmed");
    reveal_strlit("cancelled");
    assert("type"@.len() == 4 && "id"@.len() == 2 && "value"@.len() == 5);
    assert("confirmed"@.len() == 9 && "cancelled"@.len() == 9);
    assert("confirmed"@[1] != "cancelled"@[1]);
}

// ---------------------------------------------------------------------------
// What pi reports
// ---------------------------------------------------------------------------

/// Whether a record is of a kind.
pub open spec fn is_kind(v: JsonView, kind: Seq<char>) -> bool {
    v is Object && json::member(v, "type"@) == Some(JsonView::Str(kind))
}

/// What pi reports of a tool call is read with the call, the tool, what it was
/// given, what it gave and whether it failed.
pub proof fn calls_are_read(v: JsonView, ev: RpcEvent, id: Seq<char>, name: Seq<char>)
    requires
        v is Object,
        ev.reads(v),
        json::member(v, "toolCallId"@) == Some(JsonView::Str(id)),
        json::member(v, "toolName"@) == Some(JsonView::Str(name)),
    ensures
        is_kind(v, "tool_execution_start"@) ==> (ev matches RpcEvent::ToolExecutionStart {
            tool_call_id,
            tool_name,
            args,
        } && tool_call_id@ == id && tool_name@ == name && json::member(v, "args"@) == Some(args@)),
        is_kind(v, "tool_execution_update"@) ==> (ev matches RpcEvent::ToolExecutionUpdate {
            tool_call_id,
            tool_name,
            args,
            partial_result,
        } && tool_call_id@ == id && tool_name@ == name && json::member(v, "partialResult"@)
            == Some(partial_result@)),
        is_kind(v, "tool_execution_end"@) ==> (ev matches RpcEvent::ToolExecutionEnd {
            tool_call_id,
            tool_name,
            result,
            is_error,
        } && tool_call_id@ == id && tool_name@ == name && json::member(v, "result"@) == Some(
            result@,
        ) && json::member(v, "isError"@) == Some(JsonView::Bool(is_error))),
{
    tags_differ();
}

/// Other reports are read with what they say.
pub proof fn reports_are_read(v: JsonView, ev: RpcEvent)
    requires
        v is Object,
        ev.reads(v),
    ensures
        is_kind(v, "agent_settled"@) ==> ev is AgentSettled,
        is_kind(v, "agent_start"@) ==> ev is AgentStart,
        is_kind(v, "agent_end"@) ==> ev is AgentEnd,
        is_kind(v, "message_start"@) ==> ev is MessageStart,
        is_kind(v, "message_end"@) ==> (ev matches RpcEvent::MessageEnd { message }
            && json::member(v, "message"@) == Some(message@)),
        is_kind(v, "session_info_changed"@) ==> (ev matches RpcEvent::SessionInfoChanged { name }
            && (json::member(v, "name"@) matches Some(JsonView::Str(s)) ==> text::opt_text(name)
            == Some(s))),
        is_kind(v, "bash_execution_update"@) ==> (ev matches RpcEvent::BashExecutionUpdate {
            id,
            delta,
        } && json::member(v, "delta"@) == Some(JsonView::Str(delta@)) && (json::member(
            v,
            "id"@,
        ) matches Some(JsonView::Str(s)) ==> text::opt_text(id) == Some(s))),
        is_kind(v, "auto_retry_start"@) ==> (ev matches RpcEvent::AutoRetryStart {
            attempt,
            max_attempts,
            delay_ms,
            ..
        } && json::member(v, "attempt"@) == Some(
            JsonView::Number(NumberView::Int(attempt as int)),
        ) && json::member(v, "maxAttempts"@) == Some(
            JsonView::Number(NumberView::Int(max_attempts as int)),
        ) && json::member(v, "delayMs"@) == Some(
            JsonView::Number(NumberView::Int(delay_ms as int)),
        )),
        is_kind(v, "message_update"@) ==> (ev matches RpcEvent::MessageUpdate {
            usage,
            assistant_message_event,
        } && (json::member(v, "assistantMessageEvent"@) matches Some(e)
            && assistant_message_event.reads(e)) && (json::member(v, "usage"@) matches Some(u)
            && usage.reads(u))),
{
    tags_differ();
}

proof fn tags_differ()
    ensures
        forall|a: RpcEvent, v: JsonView|
            v is Object && #[trigger] a.reads(v) ==> a.reads_record(v),
        kinds().no_duplicates(),
{
    names_of_kinds();
}

/// The kinds of reports that are told apart here.
pub open spec fn kinds() -> Seq<Seq<char>> {
    seq![
        "agent_start"@,
        "agent_end"@,
        "turn_start"@,
        "turn_end"@,
        "message_start"@,
        "message_end"@,
        "tool_execution_start"@,
        "tool_execution_update"@,
        "tool_execution_end"@,
        "agent_settled"@,
        "queue_update"@,
        "compaction_start"@,
        "entry_appended"@,
        "session_info_changed"@,
        "thinking_level_changed"@,
        "compaction_end"@,
        "auto_retry_start"@,
        "auto_retry_end"@,
        "summarization_retry_scheduled"@,
        "summarization_retry_attempt_start"@,
        "summarization_retry_finished"@,
        "bash_execution_update"@,
        "extension_error"@,
        "message_update"@,
        "extension_ui_request"@,
        "unmatched_response"@,
        "unknown"@,
    ]
}

/// No two kinds have one name.
pub proof fn names_of_kinds()
    ensures
        kinds().no_duplicates(),
{
    reveal_strlit("agent_start");
    reveal_strlit("agent_end");
    reveal_strlit("turn_start");
    reveal_strlit("turn_end");
    reveal_strlit("message_start");
    reveal_strlit("message_end");
    reveal_strlit("tool_execution_start");
    reveal_strlit("tool_execution_update");
    reveal_strlit("tool_execution_end");
    reveal_strlit("agent_settled");
    reveal_strlit("queue_update");
    reveal_strlit("compaction_start");
    reveal_strlit("entry_appended");
    reveal_strlit("session_info_changed");
    reveal_strlit("thinking_level_changed");
    reveal_strlit("compaction_end");
    reveal_strlit("auto_retry_start");
    reveal_strlit("auto_retry_end");
    reveal_strlit("summarization_retry_scheduled");
    reveal_strlit("summarization_retry_attempt_start");
    reveal_strlit("summarization_retry_finished");
    reveal_strlit("bash_execution_update");
    reveal_strlit("extension_error");
    reveal_strlit("message_update");
    reveal_strlit("extension_ui_request");
    reveal_strlit("unmatched_response");
    reveal_strlit("unknown");
    assert("agent_start"@.len() == 11 && "agent_end"@.len() == 9 && "turn_start"@.len() == 10);
    assert("turn_end"@.len() == 8 && "message_start"@.len() == 13 && "message_end"@.len() == 11);
    assert("tool_execution_start"@.len() == 20 && "tool_execution_update"@.len() == 21 && "tool_execution_end"@.len() == 18);
    assert("agent_settled"@.len() == 13 && "queue_update"@.len() == 12 && "compaction_start"@.len() == 16);
    assert("entry_appended"@.len() == 14 && "session_info_changed"@.len() == 20 && "thinking_level_changed"@.len() == 22);
    assert("compaction_end"@.len() == 14 && "auto_retry_start"@.len() == 16 && "auto_retry_end"@.len() == 14);
    assert("summarization_retry_scheduled"@.len() == 29 && "summarization_retry_attempt_start"@.len() == 33 && "summarization_retry_finished"@.len() == 28);
    assert("bash_execution_update"@.len() == 21 && "extension_error"@.len() == 15 && "message_update"@.len() == 14);
    assert("extension_ui_request"@.len() == 20 && "unmatched_response"@.len() == 18 && "unknown"@.len() == 7);
    assert("agent_start"@[0] != "message_end"@[0]);
    assert("message_start"@[0] != "agent_settled"@[0]);
    assert("entry_appended"@[0] != "compaction_end"@[0]);
    assert("entry_appended"@[0] != "auto_retry_end"@[0]);
    assert("entry_appended"@[0] != "message_update"@[0]);
    assert("compaction_end"@[0] != "auto_retry_end"@[0]);
    assert("compaction_end"@[0] != "message_update"@[0]);
    assert("auto_retry_end"@[0] != "message_update"@[0]);
    assert("compaction_start"@[0] != "auto_retry_start"@[0]);
    assert("tool_execution_end"@[0] != "unmatched_response"@[0]);
    assert("tool_execution_start"@[0] != "session_info_changed"@[0]);
    assert("tool_execution_start"@[0] != "extension_ui_request"@[0]);
    assert("session_info_changed"@[0] != "extension_ui_request"@[0]);
    assert("tool_execution_update"@[0] != "bash_execution_update"@[0]);
}

/// What the assistant writes is read word for word.
pub proof fn pieces_are_read(v: JsonView, e: AssistantMessageEvent, s: Seq<char>)
    requires
        v is Object,
        e.reads(v),
        json::member(v, "delta"@) == Some(JsonView::Str(s)),
    ensures
        is_kind(v, "text_delta"@) ==> (e matches AssistantMessageEvent::TextDelta { delta, .. }
            && delta@ == s),
        is_kind(v, "thinking_delta"@) ==> (e matches AssistantMessageEvent::ThinkingDelta {
            delta,
            ..
        } && delta@ == s),
{
    reveal_strlit("start");
    reveal_strlit("text_start");
    reveal_strlit("text_delta");
    reveal_strlit("text_end");
    reveal_strlit("thinking_start");
    reveal_strlit("thinking_delta");
    reveal_strlit("thinking_end");
    reveal_strlit("toolcall_start");
    reveal_strlit("toolcall_delta");
    reveal_strlit("toolcall_end");
    reveal_strlit("done");
    reveal_strlit("error");
    assert("start"@.len() == 5 && "text_start"@.len() == 10 && "text_delta"@.len() == 10);
    assert("text_end"@.len() == 8 && "thinking_start"@.len() == 14 && "thinking_delta"@.len() == 14);
    assert("thinking_end"@.len() == 12 && "toolcall_start"@.len() == 14 && "toolcall_delta"@.len() == 14);
    assert("toolcall_end"@.len() == 12 && "done"@.len() == 4 && "error"@.len() == 5);
    assert("start"@[0] != "error"@[0]);
    assert("text_start"@[5] != "text_delta"@[5]);
    assert("thinking_end"@[1] != "toolcall_end"@[1]);
    assert("thinking_start"@[9] != "thinking_delta"@[9]);
    assert("thinking_start"@[1] != "toolcall_start"@[1]);
    assert("thinking_start"@[1] != "toolcall_delta"@[1]);
    assert("thinking_delta"@[1] != "toolcall_start"@[1]);
    assert("thinking_delta"@[1] != "toolcall_delta"@[1]);
    assert("toolcall_start"@[9] != "toolcall_delta"@[9]);
}

/// A usage report is read number by number; what is not named counts as none.
pub proof fn usage_is_read(v: JsonView, u: Usage)
    requires
        v is Object,
        u.reads(v),
    ensures
        read_as(v, "input"@, u.input),
        read_as(v, "output"@, u.output),
        read_as(v, "cacheRead"@, u.cache_read),
        read_as(v, "cacheWrite"@, u.cache_write),
        read_as(v, "totalTokens"@, u.total_tokens),
{
}

/// Whether a number is what a record says under a name, or zero when it says
/// nothing.
pub open spec fn read_as(v: JsonView, name: Seq<char>, n: u64) -> bool {
    match json::member(v, name) {
        Some(x) => x == JsonView::Number(NumberView::Int(n as int)),
        None => n == 0,
    }
}

/// A model is read with its provider, its id, its name and whether it reasons.
pub proof fn a_model_is_read(v: JsonView, m: Model)
    requires
        v is Object,
        m.reads(v),
    ensures
        json::member(v, "id"@) == Some(JsonView::Str(m.id@)),
        json::member(v, "name"@) == Some(JsonView::Str(m.name@)),
        json::member(v, "provider"@) == Some(JsonView::Str(m.provider@)),
        m.reasoning <==> json::member(v, "reasoning"@) == Some(JsonView::Bool(true)),
        json::member(v, "contextWindow"@) matches Some(JsonView::Number(NumberView::Int(n)))
            ==> m.context_window == Some(n as u64),
        json::member(v, "contextWindow"@) is None ==> m.context_window is None,
{
}

/// A session's state is read with its session, its file, its level and its
/// modes.
pub proof fn a_state_is_read(v: JsonView, s: RpcSessionState)
    requires
        v is Object,
        s.reads(v),
    ensures
        json::member(v, "sessionId"@) == Some(JsonView::Str(s.session_id@)),
        json::member(v, "sessionFile"@) matches Some(JsonView::Str(f)) ==> text::opt_text(
            s.session_file,
        ) == Some(f),
        json::member(v, "sessionFile"@) is None ==> s.session_file is None,
        json::member(v, "thinkingLevel"@) matches Some(JsonView::Str(l)) ==> rpc::level_named(l)
            == Some(s.thinking_level),
        json::member(v, "steeringMode"@) matches Some(JsonView::Str(m)) ==> rpc::mode_named(m)
            == s.steering_mode,
        json::member(v, "followUpMode"@) matches Some(JsonView::Str(m)) ==> rpc::mode_named(m)
            == s.follow_up_mode,
        json::member(v, "messageCount"@) == Some(
            JsonView::Number(NumberView::Int(s.message_count as int)),
        ),
        json::member(v, "autoCompactionEnabled"@) == Some(
            JsonView::Bool(s.auto_compaction_enabled),
        ),
{
}

} // verus!
