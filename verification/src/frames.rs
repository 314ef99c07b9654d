//! What the frames for a client say, member by member.

use crate::json;
use crate::json::{JsonView, NumberView};
use crate::protocol::Protocol;
use crate::render;
use crate::session::facts::{
    AvailableCommandView, BashToolCallView, BashToolStatus, ConfigOptionView, ForegroundState,
    LinkChunkView, MessagePatchView, OutboundView, PermissionRequestView, SessionInfoView,
    StopReason, TextChunkKind, TextChunkView, ToolCallView, ToolContentView, ToolKindFact,
    ToolStatusFact, UsageView,
};
use vstd::prelude::*;

verus! {

/// What a frame says of its update under a name.
pub open spec fn says(f: JsonView, name: Seq<char>) -> Option<JsonView> {
    match json::member(f, "update"@) {
        Some(u) => json::member(u, name),
        None => None,
    }
}

/// What a frame says in a record of its update.
pub open spec fn says_in(f: JsonView, record: Seq<char>, name: Seq<char>) -> Option<JsonView> {
    match says(f, record) {
        Some(r) => json::member(r, name),
        None => None,
    }
}

/// What a frame says in a record within a record of its update.
pub open spec fn says_within(
    f: JsonView,
    record: Seq<char>,
    inner: Seq<char>,
    name: Seq<char>,
) -> Option<JsonView> {
    match says_in(f, record, inner) {
        Some(r) => json::member(r, name),
        None => None,
    }
}

/// The frame that a message is told by, for one that every client is told.
pub open spec fn the_frame(m: OutboundView, protocol: Protocol, synthetic: Seq<char>) -> JsonView {
    render::frames(m, protocol, synthetic)[0]
}

/// The session that a message is about.
pub open spec fn about(m: OutboundView) -> Seq<char> {
    match m {
        OutboundView::SessionInfo(f) => f.session_id,
        OutboundView::Usage(f) => f.session_id,
        OutboundView::Mode(session_id, _) => session_id,
        OutboundView::ConfigOptions(session_id, _) => session_id,
        OutboundView::AvailableCommands(session_id, _) => session_id,
        OutboundView::ToolCall(f) => f.session_id,
        OutboundView::LinkChunk(f) => f.session_id,
        OutboundView::TextChunk(f) => f.session_id,
        OutboundView::MessagePatch(f) => f.session_id,
        OutboundView::Foreground(session_id, _) => session_id,
        OutboundView::BashToolCall(f) => f.session_id,
    }
}

/// Every frame is addressed to its session.
pub proof fn frames_name_their_session(
    m: OutboundView,
    protocol: Protocol,
    synthetic: Seq<char>,
    k: int,
)
    requires
        0 <= k < render::frames(m, protocol, synthetic).len(),
    ensures
        json::member(render::frames(m, protocol, synthetic)[k], "sessionId"@) == Some(
            JsonView::Str(about(m)),
        ),
{
    broadcast use json::entry_of_put;

    reveal_strlit("sessionId");
    reveal_strlit("update");
    assert("sessionId"@.len() == 9 && "update"@.len() == 6);
}

/// A piece of text is shown word for word on its stream, under its message.
pub proof fn a_text_is_shown(c: TextChunkView, protocol: Protocol, synthetic: Seq<char>)
    ensures
        ({
            let f = the_frame(OutboundView::TextChunk(c), protocol, synthetic);
            &&& says(f, "sessionUpdate"@) == Some(
                JsonView::Str(
                    match c.kind {
                        TextChunkKind::Agent => "agent_message_chunk"@,
                        TextChunkKind::Thought => "agent_thought_chunk"@,
                        TextChunkKind::User => "user_message_chunk"@,
                    },
                ),
            )
            &&& says_in(f, "content"@, "type"@) == Some(JsonView::Str("text"@))
            &&& says_in(f, "content"@, "text"@) == Some(JsonView::Str(c.text))
            &&& c.message_id matches Some(id) ==> says(f, "messageId"@) == Some(JsonView::Str(id))
            &&& c.message_id is None ==> says(f, "messageId"@) == (if protocol is V2 {
                Some(JsonView::Str(synthetic))
            } else {
                None
            })
            &&& says(f, "_meta"@) == (match c.meta {
                Some(m) => Some(JsonView::Object(m)),
                None => None,
            })
        }),
{
    broadcast use json::entry_of_put;

    reveal_strlit("sessionId");
    reveal_strlit("update");
    reveal_strlit("sessionUpdate");
    reveal_strlit("content");
    reveal_strlit("type");
    reveal_strlit("text");
    reveal_strlit("messageId");
    reveal_strlit("_meta");
    assert("sessionId"@.len() == 9 && "update"@.len() == 6 && "sessionUpdate"@.len() == 13);
    assert("content"@.len() == 7 && "type"@.len() == 4 && "text"@.len() == 4);
    assert("messageId"@.len() == 9 && "_meta"@.len() == 5);
    assert("type"@[1] != "text"@[1]);
    assert("sessionId"@[0] != "messageId"@[0]);
}

/// The status of a call, as clients read it.
pub open spec fn status_word(s: BashToolStatus) -> Seq<char> {
    match s {
        BashToolStatus::Pending => "pending"@,
        BashToolStatus::InProgress => "in_progress"@,
        BashToolStatus::Completed => "completed"@,
        BashToolStatus::Failed => "failed"@,
    }
}

/// A frame of a terminal brings all of its news: the rendered output is the
/// frame's output, under the terminal of the call; a call that ended brings its
/// exit code. A frame without news brings none.
pub proof fn a_terminal_is_brought_its_news(
    c: BashToolCallView,
    protocol: Protocol,
    synthetic: Seq<char>,
)
    requires
        !c.first || protocol is V2,
    ensures
        ({
            let f = the_frame(OutboundView::BashToolCall(c), protocol, synthetic);
            let ended = c.status == BashToolStatus::Completed || c.status
                == BashToolStatus::Failed;
            &&& says(f, "sessionUpdate"@) == Some(JsonView::Str("tool_call_update"@))
            &&& says(f, "toolCallId"@) == Some(JsonView::Str(c.tool_call_id))
            &&& says(f, "status"@) == Some(JsonView::Str(status_word(c.status)))
            &&& c.output_delta.len() > 0 ==> {
                &&& says_within(f, "_meta"@, "terminal_output"@, "terminal_id"@) == Some(
                    JsonView::Str(c.tool_call_id),
                )
                &&& says_within(f, "_meta"@, "terminal_output"@, "data"@) == Some(
                    JsonView::Str(c.output_delta),
                )
            }
            &&& c.output_delta.len() == 0 ==> says_in(f, "_meta"@, "terminal_output"@) is None
            &&& ended ==> (c.exit_code matches Some(code) ==> says_within(
                f,
                "_meta"@,
                "terminal_exit"@,
                "terminal_id"@,
            ) == Some(JsonView::Str(c.tool_call_id)) && says_within(
                f,
                "_meta"@,
                "terminal_exit"@,
                "exit_code"@,
            ) == Some(JsonView::Number(NumberView::Int(code as int))))
            &&& !ended || c.exit_code is None ==> says_in(f, "_meta"@, "terminal_exit"@) is None
        }),
{
    broadcast use json::entry_of_put;

    reveal_strlit("sessionId");
    reveal_strlit("update");
    reveal_strlit("sessionUpdate");
    reveal_strlit("toolCallId");
    reveal_strlit("title");
    reveal_strlit("kind");
    reveal_strlit("status");
    reveal_strlit("rawInput");
    reveal_strlit("_meta");
    reveal_strlit("terminal_output");
    reveal_strlit("terminal_exit");
    reveal_strlit("terminal_id");
    reveal_strlit("data");
    reveal_strlit("exit_code");
    reveal_strlit("signal");
    assert("sessionId"@.len() == 9 && "update"@.len() == 6 && "sessionUpdate"@.len() == 13);
    assert("toolCallId"@.len() == 10 && "title"@.len() == 5 && "kind"@.len() == 4);
    assert("status"@.len() == 6 && "rawInput"@.len() == 8 && "_meta"@.len() == 5);
    assert("terminal_output"@.len() == 15 && "terminal_exit"@.len() == 13 && "terminal_id"@.len() == 11);
    assert("data"@.len() == 4 && "exit_code"@.len() == 9 && "signal"@.len() == 6);
    assert("kind"@[0] != "data"@[0]);
    assert("title"@[0] != "_meta"@[0]);
    assert("update"@[0] != "status"@[0]);
    assert("update"@[0] != "signal"@[0]);
    assert("status"@[1] != "signal"@[1]);
    assert("sessionId"@[0] != "exit_code"@[0]);
    assert("sessionUpdate"@[0] != "terminal_exit"@[0]);
}

/// The frame that opens a terminal names the command, and where it runs.
pub proof fn a_terminal_is_opened(c: BashToolCallView, protocol: Protocol, synthetic: Seq<char>)
    requires
        c.first,
    ensures
        ({
            let f = the_frame(OutboundView::BashToolCall(c), protocol, synthetic);
            &&& says(f, "sessionUpdate"@) == Some(
                JsonView::Str(
                    if protocol is V2 {
                        "tool_call_update"@
                    } else {
                        "tool_call"@
                    },
                ),
            )
            &&& says(f, "toolCallId"@) == Some(JsonView::Str(c.tool_call_id))
            &&& says(f, "title"@) == Some(JsonView::Str(c.command))
            &&& says(f, "kind"@) == Some(JsonView::Str("execute"@))
            &&& protocol is V1 && c.status != BashToolStatus::Pending ==> says(f, "status"@)
                == Some(JsonView::Str(status_word(c.status)))
            &&& protocol is V1 ==> (c.cwd matches Some(cwd) ==> says_within(
                f,
                "_meta"@,
                "terminal_info"@,
                "cwd"@,
            ) == Some(JsonView::Str(cwd)))
            &&& protocol is V1 ==> says_within(f, "_meta"@, "terminal_info"@, "terminal_id"@)
                == Some(JsonView::Str(c.tool_call_id))
            &&& protocol is V1 ==> says(f, "content"@) == Some(
                JsonView::Array(crate::translate::bash::terminal_content(c.tool_call_id)),
            )
            &&& protocol is V2 ==> says_in(f, "rawInput"@, "command"@) == Some(
                JsonView::Str(c.command),
            )
        }),
{
    broadcast use json::entry_of_put;

    reveal_strlit("sessionId");
    reveal_strlit("update");
    reveal_strlit("sessionUpdate");
    reveal_strlit("toolCallId");
    reveal_strlit("title");
    reveal_strlit("kind");
    reveal_strlit("status");
    reveal_strlit("rawInput");
    reveal_strlit("content");
    reveal_strlit("_meta");
    reveal_strlit("terminal_info");
    reveal_strlit("terminal_id");
    reveal_strlit("command");
    reveal_strlit("cwd");
    assert("sessionId"@.len() == 9 && "update"@.len() == 6 && "sessionUpdate"@.len() == 13);
    assert("toolCallId"@.len() == 10 && "title"@.len() == 5 && "kind"@.len() == 4);
    assert("status"@.len() == 6 && "rawInput"@.len() == 8 && "content"@.len() == 7);
    assert("_meta"@.len() == 5 && "terminal_info"@.len() == 13 && "terminal_id"@.len() == 11);
    assert("command"@.len() == 7 && "cwd"@.len() == 3);
    assert("title"@[0] != "_meta"@[0]);
    assert("update"@[0] != "status"@[0]);
    assert("content"@[2] != "command"@[2]);
    assert("sessionUpdate"@[0] != "terminal_info"@[0]);
}

/// A frame of a tool call says what the call is, how far it has come, what it
/// was given and what it gave.
#[verifier::rlimit(40)]
pub proof fn a_call_is_shown(c: ToolCallView, protocol: Protocol, synthetic: Seq<char>)
    ensures
        ({
            let f = the_frame(OutboundView::ToolCall(c), protocol, synthetic);
            &&& says(f, "sessionUpdate"@) == Some(
                JsonView::Str(
                    if c.first && protocol is V1 {
                        "tool_call"@
                    } else {
                        "tool_call_update"@
                    },
                ),
            )
            &&& says(f, "toolCallId"@) == Some(JsonView::Str(c.tool_call_id))
            &&& c.title matches Some(t) ==> says(f, "title"@) == Some(JsonView::Str(t))
            &&& says(f, "rawInput"@) == c.raw_input
            &&& says(f, "rawOutput"@) == c.raw_output
            &&& c.status == Some(ToolStatusFact::InProgress) ==> says(f, "status"@) == Some(
                JsonView::Str("in_progress"@),
            )
            &&& c.status == Some(ToolStatusFact::Completed) ==> says(f, "status"@) == Some(
                JsonView::Str("completed"@),
            )
            &&& c.status == Some(ToolStatusFact::Failed) ==> says(f, "status"@) == Some(
                JsonView::Str("failed"@),
            )
            &&& c.status == Some(ToolStatusFact::Pending) && says(f, "status"@) is Some ==> says(
                f,
                "status"@,
            ) == Some(JsonView::Str("pending"@))
            &&& c.kind == Some(ToolKindFact::Edit) ==> says(f, "kind"@) == Some(
                JsonView::Str("edit"@),
            )
            &&& c.kind == Some(ToolKindFact::Read) ==> says(f, "kind"@) == Some(
                JsonView::Str("read"@),
            )
            &&& c.kind == Some(ToolKindFact::Execute) ==> says(f, "kind"@) == Some(
                JsonView::Str("execute"@),
            )
        }),
{
    broadcast use json::entry_of_put;

    reveal_strlit("sessionId");
    reveal_strlit("update");
    reveal_strlit("sessionUpdate");
    reveal_strlit("toolCallId");
    reveal_strlit("title");
    reveal_strlit("kind");
    reveal_strlit("status");
    reveal_strlit("rawInput");
    reveal_strlit("rawOutput");
    reveal_strlit("content");
    reveal_strlit("locations");
    reveal_strlit("_meta");
    reveal_strlit("other");
    reveal_strlit("edit");
    reveal_strlit("read");
    reveal_strlit("execute");
    assert("sessionId"@.len() == 9 && "update"@.len() == 6 && "sessionUpdate"@.len() == 13);
    assert("toolCallId"@.len() == 10 && "title"@.len() == 5 && "kind"@.len() == 4);
    assert("status"@.len() == 6 && "rawInput"@.len() == 8 && "rawOutput"@.len() == 9);
    assert("content"@.len() == 7 && "locations"@.len() == 9 && "_meta"@.len() == 5);
    assert("other"@.len() == 5 && "edit"@.len() == 4 && "read"@.len() == 4);
    assert("execute"@.len() == 7);
    assert("kind"@[0] != "edit"@[0]);
    assert("kind"@[0] != "read"@[0]);
    assert("edit"@[0] != "read"@[0]);
    assert("title"@[0] != "_meta"@[0]);
    assert("title"@[0] != "other"@[0]);
    assert("_meta"@[0] != "other"@[0]);
    assert("update"@[0] != "status"@[0]);
    assert("content"@[0] != "execute"@[0]);
    assert("sessionId"@[0] != "rawOutput"@[0]);
    assert("sessionId"@[0] != "locations"@[0]);
    assert("rawOutput"@[0] != "locations"@[0]);
}

/// The contents of a call are shown all and in order; its locations too.
#[verifier::rlimit(40)]
pub proof fn contents_are_shown(c: ToolCallView, protocol: Protocol, synthetic: Seq<char>)
    ensures
        ({
            let f = the_frame(OutboundView::ToolCall(c), protocol, synthetic);
            &&& c.content matches Some(cs) ==> cs.len() > 0 ==> (says(f, "content"@) matches Some(
                JsonView::Array(shown),
            ) && shown.len() == cs.len() && forall|k: int|
                0 <= k < cs.len() ==> #[trigger] shown[k] == shown_content(cs[k], protocol))
            &&& c.content is None ==> says(f, "content"@) is None
            &&& c.locations.len() > 0 ==> (says(f, "locations"@) matches Some(
                JsonView::Array(shown),
            ) && shown.len() == c.locations.len() && forall|k: int|
                0 <= k < c.locations.len() ==> json::member(#[trigger] shown[k], "path"@) == Some(
                    JsonView::Str(c.locations[k].0),
                ) && (c.locations[k].1 matches Some(line) ==> line > 0 ==> json::member(
                    shown[k],
                    "line"@,
                ) == Some(JsonView::Number(NumberView::Int(line as int)))))
        }),
{
    broadcast use json::entry_of_put;

    reveal_strlit("sessionId");
    reveal_strlit("update");
    reveal_strlit("sessionUpdate");
    reveal_strlit("toolCallId");
    reveal_strlit("title");
    reveal_strlit("kind");
    reveal_strlit("status");
    reveal_strlit("rawInput");
    reveal_strlit("rawOutput");
    reveal_strlit("content");
    reveal_strlit("locations");
    reveal_strlit("_meta");
    reveal_strlit("path");
    reveal_strlit("line");
    assert("sessionId"@.len() == 9 && "update"@.len() == 6 && "sessionUpdate"@.len() == 13);
    assert("toolCallId"@.len() == 10 && "title"@.len() == 5 && "kind"@.len() == 4);
    assert("status"@.len() == 6 && "rawInput"@.len() == 8 && "rawOutput"@.len() == 9);
    assert("content"@.len() == 7 && "locations"@.len() == 9 && "_meta"@.len() == 5);
    assert("path"@.len() == 4 && "line"@.len() == 4);
    assert("kind"@[0] != "path"@[0]);
    assert("kind"@[0] != "line"@[0]);
    assert("path"@[0] != "line"@[0]);
    assert("title"@[0] != "_meta"@[0]);
    assert("update"@[0] != "status"@[0]);
    assert("sessionId"@[0] != "rawOutput"@[0]);
    assert("sessionId"@[0] != "locations"@[0]);
    assert("rawOutput"@[0] != "locations"@[0]);
}

/// A content as it is shown.
pub open spec fn shown_content(c: ToolContentView, protocol: Protocol) -> JsonView {
    render::content_of(c, protocol is V2)
}

/// A text is shown word for word; a change is shown to the stable version with
/// the file's path and both of its texts, and to the draft by what was done to
/// which file.
pub proof fn a_content_is_shown(c: ToolContentView)
    ensures
        ({
            let v1 = shown_content(c, Protocol::V1);
            let v2 = shown_content(c, Protocol::V2);
            match c {
                ToolContentView::Text(t) => {
                    &&& v1 == v2
                    &&& json::member(v1, "type"@) == Some(JsonView::Str("content"@))
                    &&& json::member(v1, "content"@) matches Some(b) && json::member(b, "text"@)
                        == Some(JsonView::Str(t)) && json::member(b, "type"@) == Some(
                        JsonView::Str("text"@),
                    )
                },
                ToolContentView::Diff { path, new_text, old_text } => {
                    &&& json::member(v1, "type"@) == Some(JsonView::Str("diff"@))
                    &&& json::member(v1, "path"@) == Some(JsonView::Str(path))
                    &&& json::member(v1, "newText"@) == Some(JsonView::Str(new_text))
                    &&& json::member(v1, "oldText"@) == (match old_text {
                        Some(t) => Some(JsonView::Str(t)),
                        None => None,
                    })
                    &&& json::member(v2, "type"@) == Some(JsonView::Str("diff"@))
                    &&& json::member(v2, "changes"@) matches Some(JsonView::Array(ch)) && ch.len()
                        == 1 && json::member(ch[0], "path"@) == Some(JsonView::Str(path))
                        && json::member(ch[0], "operation"@) == Some(
                        JsonView::Str(
                            if old_text is Some {
                                "modify"@
                            } else {
                                "add"@
                            },
                        ),
                    )
                },
            }
        }),
{
    broadcast use json::entry_of_put;

    reveal_strlit("type");
    reveal_strlit("text");
    reveal_strlit("content");
    reveal_strlit("path");
    reveal_strlit("newText");
    reveal_strlit("oldText");
    reveal_strlit("changes");
    reveal_strlit("operation");
    assert("type"@.len() == 4 && "text"@.len() == 4 && "content"@.len() == 7);
    assert("path"@.len() == 4 && "newText"@.len() == 7 && "oldText"@.len() == 7);
    assert("changes"@.len() == 7 && "operation"@.len() == 9);
    assert("type"@[1] != "text"@[1]);
    assert("type"@[0] != "path"@[0]);
    assert("text"@[0] != "path"@[0]);
    assert("content"@[0] != "newText"@[0]);
    assert("content"@[0] != "oldText"@[0]);
    assert("content"@[1] != "changes"@[1]);
    assert("newText"@[0] != "oldText"@[0]);
    assert("newText"@[0] != "changes"@[0]);
    assert("oldText"@[0] != "changes"@[0]);
}

/// How full the context is, and what it cost, is shown as it was told.
pub proof fn a_usage_is_shown(u: UsageView, protocol: Protocol, synthetic: Seq<char>)
    ensures
        ({
            let f = the_frame(OutboundView::Usage(u), protocol, synthetic);
            &&& says(f, "sessionUpdate"@) == Some(JsonView::Str("usage_update"@))
            &&& says(f, "used"@) == Some(JsonView::Number(NumberView::Int(u.used as int)))
            &&& says(f, "size"@) == Some(JsonView::Number(NumberView::Int(u.size as int)))
            &&& u.cost is None ==> says(f, "cost"@) is None
            &&& u.cost matches Some(c) ==> says_in(f, "cost"@, "amount"@) == Some(
                JsonView::Number(c.0),
            ) && says_in(f, "cost"@, "currency"@) == Some(JsonView::Str(c.1))
        }),
{
    broadcast use json::entry_of_put;

    reveal_strlit("sessionId");
    reveal_strlit("update");
    reveal_strlit("sessionUpdate");
    reveal_strlit("used");
    reveal_strlit("size");
    reveal_strlit("cost");
    reveal_strlit("amount");
    reveal_strlit("currency");
    assert("sessionId"@.len() == 9 && "update"@.len() == 6 && "sessionUpdate"@.len() == 13);
    assert("used"@.len() == 4 && "size"@.len() == 4 && "cost"@.len() == 4);
    assert("amount"@.len() == 6 && "currency"@.len() == 8);
    assert("used"@[0] != "size"@[0]);
    assert("used"@[0] != "cost"@[0]);
    assert("size"@[0] != "cost"@[0]);
    assert("update"@[0] != "amount"@[0]);
}

/// A session's title and time are shown as they were told, and left out when
/// they were not.
pub proof fn an_info_is_shown(i: SessionInfoView, protocol: Protocol, synthetic: Seq<char>)
    ensures
        ({
            let f = the_frame(OutboundView::SessionInfo(i), protocol, synthetic);
            &&& says(f, "sessionUpdate"@) == Some(JsonView::Str("session_info_update"@))
            &&& says(f, "title"@) == (match i.title {
                Some(t) => Some(JsonView::Str(t)),
                None => None,
            })
            &&& says(f, "updatedAt"@) == (match i.updated_at {
                Some(t) => Some(JsonView::Str(t)),
                None => None,
            })
            &&& says(f, "_meta"@) == (match i.meta {
                Some(m) => Some(JsonView::Object(m)),
                None => None,
            })
        }),
{
    broadcast use json::entry_of_put;

    reveal_strlit("sessionId");
    reveal_strlit("update");
    reveal_strlit("sessionUpdate");
    reveal_strlit("title");
    reveal_strlit("updatedAt");
    reveal_strlit("_meta");
    assert("sessionId"@.len() == 9 && "update"@.len() == 6 && "sessionUpdate"@.len() == 13);
    assert("title"@.len() == 5 && "updatedAt"@.len() == 9 && "_meta"@.len() == 5);
    assert("title"@[0] != "_meta"@[0]);
    assert("sessionId"@[0] != "updatedAt"@[0]);
}

/// The mode is shown to clients of the stable version; to those of the draft
/// the complete text of a message and the state of the foreground are.
pub proof fn what_versions_are_shown(
    session_id: Seq<char>,
    mode_id: Seq<char>,
    p: MessagePatchView,
    state: ForegroundState,
    synthetic: Seq<char>,
)
    ensures
        ({
            let f = the_frame(OutboundView::Mode(session_id, mode_id), Protocol::V1, synthetic);
            &&& says(f, "sessionUpdate"@) == Some(JsonView::Str("current_mode_update"@))
            &&& says(f, "currentModeId"@) == Some(JsonView::Str(mode_id))
        }),
        ({
            let f = the_frame(OutboundView::MessagePatch(p), Protocol::V2, synthetic);
            &&& says(f, "sessionUpdate"@) == Some(JsonView::Str("agent_message"@))
            &&& says(f, "messageId"@) == Some(JsonView::Str(p.message_id))
            &&& says(f, "content"@) matches Some(JsonView::Array(bs)) && bs.len() == 1
                && json::member(bs[0], "type"@) == Some(JsonView::Str("text"@)) && json::member(
                bs[0],
                "text"@,
            ) == Some(JsonView::Str(p.text))
        }),
        ({
            let f = the_frame(OutboundView::Foreground(session_id, state), Protocol::V2, synthetic);
            &&& says(f, "sessionUpdate"@) == Some(JsonView::Str("state_update"@))
            &&& state is Running ==> says(f, "state"@) == Some(JsonView::Str("running"@))
            &&& state is Idle ==> says(f, "state"@) == Some(JsonView::Str("idle"@))
            &&& state == ForegroundState::Idle(StopReason::EndTurn) ==> says(f, "stopReason"@)
                == Some(JsonView::Str("end_turn"@))
            &&& state == ForegroundState::Idle(StopReason::Cancelled) ==> says(f, "stopReason"@)
                == Some(JsonView::Str("cancelled"@))
        }),
{
    broadcast use json::entry_of_put;

    reveal_strlit("sessionId");
    reveal_strlit("update");
    reveal_strlit("sessionUpdate");
    reveal_strlit("currentModeId");
    reveal_strlit("messageId");
    reveal_strlit("content");
    reveal_strlit("type");
    reveal_strlit("text");
    reveal_strlit("state");
    reveal_strlit("stopReason");
    assert("sessionId"@.len() == 9 && "update"@.len() == 6 && "sessionUpdate"@.len() == 13);
    assert("currentModeId"@.len() == 13 && "messageId"@.len() == 9 && "content"@.len() == 7);
    assert("type"@.len() == 4 && "text"@.len() == 4 && "state"@.len() == 5);
    assert("stopReason"@.len() == 10);
    assert("type"@[1] != "text"@[1]);
    assert("sessionId"@[0] != "messageId"@[0]);
    assert("sessionUpdate"@[0] != "currentModeId"@[0]);
}

/// Every config option is shown with its id, its name, the value in force and
/// all of its values, in order.
#[verifier::rlimit(40)]
pub proof fn options_are_shown(
    session_id: Seq<char>,
    os: Seq<ConfigOptionView>,
    protocol: Protocol,
    synthetic: Seq<char>,
)
    ensures
        ({
            let f = the_frame(OutboundView::ConfigOptions(session_id, os), protocol, synthetic);
            &&& says(f, "sessionUpdate"@) == Some(JsonView::Str("config_option_update"@))
            &&& says(f, "configOptions"@) matches Some(JsonView::Array(shown)) && shown.len()
                == os.len() && forall|k: int|
                0 <= k < os.len() ==> shows_option(#[trigger] shown[k], os[k], protocol)
        }),
{
    broadcast use json::entry_of_put;

    reveal_strlit("sessionId");
    reveal_strlit("update");
    reveal_strlit("sessionUpdate");
    reveal_strlit("configOptions");
    assert("sessionId"@.len() == 9 && "update"@.len() == 6 && "sessionUpdate"@.len() == 13);
    assert("configOptions"@.len() == 13);
    assert("sessionUpdate"@[0] != "configOptions"@[0]);
    let f = the_frame(OutboundView::ConfigOptions(session_id, os), protocol, synthetic);
    let shown = os.map_values(|o: ConfigOptionView| render::option(o, protocol is V2));
    assert(says(f, "configOptions"@) == Some(JsonView::Array(shown)));
    assert forall|k: int| 0 <= k < os.len() implies shows_option(
        #[trigger] shown[k],
        os[k],
        protocol,
    ) by {
        option_is_shown(os[k], protocol);
    }
}

/// Whether a value shows a config option.
pub open spec fn shows_option(v: JsonView, o: ConfigOptionView, protocol: Protocol) -> bool {
    &&& json::member(
        v,
        if protocol is V2 {
            "configId"@
        } else {
            "id"@
        },
    ) == Some(JsonView::Str(o.id))
    &&& json::member(v, "name"@) == Some(JsonView::Str(o.name))
    &&& json::member(v, "currentValue"@) == Some(JsonView::Str(o.current_value))
    &&& json::member(v, "type"@) == Some(JsonView::Str("select"@))
    &&& json::member(v, "options"@) matches Some(JsonView::Array(cs)) && cs.len()
        == o.choices.len() && forall|k: int|
        0 <= k < cs.len() ==> json::member(#[trigger] cs[k], "value"@) == Some(
            JsonView::Str(o.choices[k].value),
        ) && json::member(cs[k], "name"@) == Some(JsonView::Str(o.choices[k].name))
}

proof fn option_is_shown(o: ConfigOptionView, protocol: Protocol)
    ensures
        shows_option(render::option(o, protocol is V2), o, protocol),
{
    broadcast use json::entry_of_put;

    reveal_strlit("configId");
    reveal_strlit("id");
    reveal_strlit("name");
    reveal_strlit("description");
    reveal_strlit("category");
    reveal_strlit("type");
    reveal_strlit("currentValue");
    reveal_strlit("options");
    reveal_strlit("_meta");
    reveal_strlit("value");
    assert("configId"@.len() == 8 && "id"@.len() == 2 && "name"@.len() == 4);
    assert("description"@.len() == 11 && "category"@.len() == 8 && "type"@.len() == 4);
    assert("currentValue"@.len() == 12 && "options"@.len() == 7 && "_meta"@.len() == 5);
    assert("value"@.len() == 5);
    assert("name"@[0] != "type"@[0]);
    assert("_meta"@[0] != "value"@[0]);
    assert("configId"@[1] != "category"@[1]);
}

/// Every command is shown with its name and what it does, in order.
pub proof fn commands_are_shown(
    session_id: Seq<char>,
    cs: Seq<AvailableCommandView>,
    protocol: Protocol,
    synthetic: Seq<char>,
)
    ensures
        ({
            let f = the_frame(OutboundView::AvailableCommands(session_id, cs), protocol, synthetic);
            &&& says(f, "sessionUpdate"@) == Some(JsonView::Str("available_commands_update"@))
            &&& says(f, "availableCommands"@) matches Some(JsonView::Array(shown)) && shown.len()
                == cs.len() && forall|k: int|
                0 <= k < cs.len() ==> shows_command(#[trigger] shown[k], cs[k])
        }),
{
    broadcast use json::entry_of_put;

    reveal_strlit("sessionId");
    reveal_strlit("update");
    reveal_strlit("sessionUpdate");
    reveal_strlit("availableCommands");
    assert("sessionId"@.len() == 9 && "update"@.len() == 6 && "sessionUpdate"@.len() == 13);
    assert("availableCommands"@.len() == 17);
    let f = the_frame(OutboundView::AvailableCommands(session_id, cs), protocol, synthetic);
    let shown = cs.map_values(|c: AvailableCommandView| render::command(c, protocol is V2));
    assert(says(f, "availableCommands"@) == Some(JsonView::Array(shown)));
    assert forall|k: int| 0 <= k < cs.len() implies shows_command(#[trigger] shown[k], cs[k]) by {
        command_is_shown(cs[k], protocol);
    }
}

/// Whether a value shows a command.
pub open spec fn shows_command(v: JsonView, c: AvailableCommandView) -> bool {
    &&& json::member(v, "name"@) == Some(JsonView::Str(c.name))
    &&& json::member(v, "description"@) == Some(JsonView::Str(c.description))
    &&& c.input_hint is None ==> json::member(v, "input"@) is None
    &&& c.input_hint matches Some(h) ==> (json::member(v, "input"@) matches Some(i)
        && json::member(i, "hint"@) == Some(JsonView::Str(h)))
}

proof fn command_is_shown(c: AvailableCommandView, protocol: Protocol)
    ensures
        shows_command(render::command(c, protocol is V2), c),
{
    broadcast use json::entry_of_put;

    reveal_strlit("type");
    reveal_strlit("name");
    reveal_strlit("description");
    reveal_strlit("input");
    reveal_strlit("hint");
    reveal_strlit("_meta");
    assert("type"@.len() == 4 && "name"@.len() == 4 && "description"@.len() == 11);
    assert("input"@.len() == 5 && "hint"@.len() == 4 && "_meta"@.len() == 5);
    assert("type"@[0] != "name"@[0]);
    assert("type"@[0] != "hint"@[0]);
    assert("name"@[0] != "hint"@[0]);
    assert("input"@[0] != "_meta"@[0]);
}

/// A link is shown with where it leads and what it is called.
pub proof fn a_link_is_shown(l: LinkChunkView, protocol: Protocol, synthetic: Seq<char>)
    ensures
        ({
            let f = the_frame(OutboundView::LinkChunk(l), protocol, synthetic);
            &&& says(f, "sessionUpdate"@) == Some(JsonView::Str("agent_message_chunk"@))
            &&& says_in(f, "content"@, "type"@) == Some(JsonView::Str("resource_link"@))
            &&& says_in(f, "content"@, "uri"@) == Some(JsonView::Str(l.uri))
            &&& says_in(f, "content"@, "name"@) == Some(JsonView::Str(l.name))
            &&& says_in(f, "content"@, "mimeType"@) == (match l.mime_type {
                Some(t) => Some(JsonView::Str(t)),
                None => None,
            })
        }),
{
    broadcast use json::entry_of_put;

    reveal_strlit("sessionId");
    reveal_strlit("update");
    reveal_strlit("sessionUpdate");
    reveal_strlit("content");
    reveal_strlit("messageId");
    reveal_strlit("type");
    reveal_strlit("uri");
    reveal_strlit("name");
    reveal_strlit("title");
    reveal_strlit("mimeType");
    assert("sessionId"@.len() == 9 && "update"@.len() == 6 && "sessionUpdate"@.len() == 13);
    assert("content"@.len() == 7 && "messageId"@.len() == 9 && "type"@.len() == 4);
    assert("uri"@.len() == 3 && "name"@.len() == 4 && "title"@.len() == 5);
    assert("mimeType"@.len() == 8);
    assert("type"@[0] != "name"@[0]);
    assert("sessionId"@[0] != "messageId"@[0]);
}

/// A question shows the user what is asked and every answer, in order, each
/// with its id and its text.
pub proof fn a_question_is_shown(p: PermissionRequestView, k: int)
    requires
        0 <= k < p.options.len(),
    ensures
        ({
            let v1 = render::question_v1(p);
            let v2 = render::question_v2(p);
            &&& json::member(v1, "sessionId"@) == Some(JsonView::Str(p.session_id))
            &&& json::member(v2, "sessionId"@) == Some(JsonView::Str(p.session_id))
            &&& json::member(v1, "options"@) == json::member(v2, "options"@)
            &&& json::member(v1, "options"@) matches Some(JsonView::Array(os)) && os.len()
                == p.options.len() && json::member(os[k], "optionId"@) == Some(
                JsonView::Str(p.options[k].0),
            ) && json::member(os[k], "name"@) == Some(JsonView::Str(p.options[k].1))
            &&& json::member(v1, "toolCall"@) matches Some(c) && json::member(c, "title"@)
                == Some(JsonView::Str(p.title)) && json::member(c, "toolCallId"@) == Some(
                JsonView::Str(p.tool_call_id),
            ) && json::member(c, "rawInput"@) == Some(p.raw_input)
            &&& json::member(v2, "title"@) == Some(JsonView::Str(p.title))
        }),
{
    broadcast use json::entry_of_put;

    reveal_strlit("sessionId");
    reveal_strlit("toolCall");
    reveal_strlit("options");
    reveal_strlit("_meta");
    reveal_strlit("optionId");
    reveal_strlit("name");
    reveal_strlit("kind");
    reveal_strlit("toolCallId");
    reveal_strlit("title");
    reveal_strlit("rawInput");
    reveal_strlit("subject");
    assert("sessionId"@.len() == 9 && "toolCall"@.len() == 8 && "options"@.len() == 7);
    assert("_meta"@.len() == 5 && "optionId"@.len() == 8 && "name"@.len() == 4);
    assert("kind"@.len() == 4 && "toolCallId"@.len() == 10 && "title"@.len() == 5);
    assert("rawInput"@.len() == 8 && "subject"@.len() == 7);
    assert("name"@[0] != "kind"@[0]);
    assert("_meta"@[0] != "title"@[0]);
    assert("options"@[0] != "subject"@[0]);
    assert("toolCall"@[0] != "optionId"@[0]);
    assert("toolCall"@[0] != "rawInput"@[0]);
    assert("optionId"@[0] != "rawInput"@[0]);
}

} // verus!
