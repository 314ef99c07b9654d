//! The frames that tell a client what a session does: the parameters of
//! `session/update` and `session/request_permission`, built for each protocol
//! version from the same facts.

use crate::json;
use crate::json::{Json, JsonMap, JsonView, NumberView};
use crate::protocol::Protocol;
use crate::session::facts;
use crate::session::facts::{
    AvailableCommandFact, AvailableCommandView, AvailableCommandsFact, BashToolCall,
    BashToolCallView, BashToolStatus, ConfigCategoryFact, ConfigCategoryView, ConfigChoiceFact,
    ConfigChoiceView, ConfigOptionFact, ConfigOptionView, ConfigOptionsFact, ForegroundState,
    LinkChunkFact, LinkChunkView, MessagePatch, MessagePatchView, MetaView, ModeFact,
    OutboundMessage, OutboundView, PermissionOptionFact, PermissionOptionKindFact,
    PermissionRequestFact, PermissionRequestView, SessionInfoFact, SessionInfoView, StopReason,
    TextChunk, TextChunkKind, TextChunkView, ToolCallFact, ToolCallView, ToolContentFact,
    ToolContentView, ToolKindFact, ToolLocationFact, ToolStatusFact, UsageFact, UsageView,
};
use crate::text;
use crate::translate::bash;
use vstd::prelude::*;
use vstd::string::*;

verus! {

// ---------------------------------------------------------------------------
// Frames and blocks
// ---------------------------------------------------------------------------

/// The update members that open with the kind of update.
pub open spec fn update(kind: Seq<char>) -> MetaView {
    json::put(Seq::empty(), "sessionUpdate"@, JsonView::Str(kind))
}

/// The parameters that carry an update of a session.
pub open spec fn frame(session_id: Seq<char>, members: MetaView) -> JsonView {
    JsonView::Object(
        json::put(
            json::put(Seq::empty(), "sessionId"@, JsonView::Str(session_id)),
            "update"@,
            JsonView::Object(members),
        ),
    )
}

/// A text content block.
pub open spec fn text_block(text: Seq<char>) -> JsonView {
    JsonView::Object(
        json::put(
            json::put(Seq::empty(), "type"@, JsonView::Str("text"@)),
            "text"@,
            JsonView::Str(text),
        ),
    )
}

/// A tool content that holds a content block.
pub open spec fn block_content(block: JsonView) -> JsonView {
    JsonView::Object(
        json::put(
            json::put(Seq::empty(), "type"@, JsonView::Str("content"@)),
            "content"@,
            block,
        ),
    )
}

fn update_map(kind: &str) -> (r: JsonMap)
    ensures
        r@ == update(kind@),
{
    JsonMap::new().with("sessionUpdate", Json::text(kind))
}

fn frame_json(session_id: &str, members: JsonMap) -> (r: Json)
    ensures
        r@ == frame(session_id@, members@),
{
    broadcast use json::json_view;

    Json::Object(
        JsonMap::new().with("sessionId", Json::text(session_id)).with(
            "update",
            Json::Object(members),
        ),
    )
}

fn text_block_json(text: &str) -> (r: Json)
    ensures
        r@ == text_block(text@),
{
    broadcast use json::json_view;

    Json::Object(JsonMap::new().with("type", Json::text("text")).with("text", Json::text(text)))
}

fn block_content_json(block: Json) -> (r: Json)
    ensures
        r@ == block_content(block@),
{
    broadcast use json::json_view;

    Json::Object(JsonMap::new().with("type", Json::text("content")).with("content", block))
}

fn opt_object_json(meta: &Option<JsonMap>) -> (r: Option<Json>)
    ensures
        json::opt_view(r) == json::opt_object(facts::opt_meta(*meta)),
{
    broadcast use json::json_view;

    match meta {
        Some(m) => Some(Json::Object(m.clone())),
        None => None,
    }
}

// ---------------------------------------------------------------------------
// Bash calls
// ---------------------------------------------------------------------------

/// The wire name of a bash call's status.
pub open spec fn bash_status(status: BashToolStatus) -> Seq<char> {
    match status {
        BashToolStatus::Pending => "pending"@,
        BashToolStatus::InProgress => "in_progress"@,
        BashToolStatus::Completed => "completed"@,
        BashToolStatus::Failed => "failed"@,
    }
}

fn bash_status_name(status: BashToolStatus) -> (r: &'static str)
    ensures
        r@ == bash_status(status),
{
    match status {
        BashToolStatus::Pending => "pending",
        BashToolStatus::InProgress => "in_progress",
        BashToolStatus::Completed => "completed",
        BashToolStatus::Failed => "failed",
    }
}

/// What a frame tells the terminal of a bash call: the new output, when there
/// is some, and the exit code, when the call has ended with one.
pub open spec fn terminal_news(call: BashToolCallView) -> MetaView {
    let shown = if call.output_delta.len() == 0 {
        Seq::empty()
    } else {
        json::put(
            Seq::empty(),
            "terminal_output"@,
            bash::output_value(call.tool_call_id, call.output_delta),
        )
    };
    match call.exit_code {
        Some(code) if call.status == BashToolStatus::Completed || call.status
            == BashToolStatus::Failed => json::put(
            shown,
            "terminal_exit"@,
            bash::exit_value(call.tool_call_id, code),
        ),
        _ => shown,
    }
}

/// The members as the value of `_meta`; none when there are no members.
pub open spec fn filled(meta: MetaView) -> Option<JsonView> {
    if meta.len() == 0 {
        None
    } else {
        Some(JsonView::Object(meta))
    }
}

fn terminal_meta(call: &BashToolCall) -> (r: Option<Json>)
    ensures
        json::opt_view(r) == filled(terminal_news(call@)),
{
    broadcast use json::json_view;

    let mut meta = JsonMap::new();
    if call.output_delta.as_str().unicode_len() > 0 {
        meta =
        bash::with_terminal_output(meta, call.tool_call_id.as_str(), call.output_delta.as_str());
    }
    if let Some(exit_code) = call.exit_code {
        if matches!(call.status, BashToolStatus::Completed | BashToolStatus::Failed) {
            meta = bash::with_terminal_exit(meta, call.tool_call_id.as_str(), exit_code);
        }
    }
    assert(meta@ == terminal_news(call@));
    if meta.len() == 0 {
        None
    } else {
        Some(Json::Object(meta))
    }
}

/// The status of a call that opens, which is left out while it is pending.
pub open spec fn opening_status(status: BashToolStatus) -> Option<JsonView> {
    if status == BashToolStatus::Pending {
        None
    } else {
        Some(JsonView::Str(bash_status(status)))
    }
}

/// The call that opens the terminal of a bash call, with its `_meta`.
pub open spec fn terminal_call(
    tool_call_id: Seq<char>,
    command: Seq<char>,
    status: BashToolStatus,
    meta: MetaView,
) -> MetaView {
    json::put(
        json::put(
            json::put_opt(
                json::put(
                    json::put(
                        json::put(update("tool_call"@), "toolCallId"@, JsonView::Str(tool_call_id)),
                        "title"@,
                        JsonView::Str(command),
                    ),
                    "kind"@,
                    JsonView::Str("execute"@),
                ),
                "status"@,
                opening_status(status),
            ),
            "content"@,
            JsonView::Array(bash::terminal_content(tool_call_id)),
        ),
        "_meta"@,
        JsonView::Object(meta),
    )
}

fn terminal_call_map(
    tool_call_id: &str,
    command: &str,
    status: BashToolStatus,
    meta: JsonMap,
) -> (r: JsonMap)
    ensures
        r@ == terminal_call(tool_call_id@, command@, status, meta@),
{
    broadcast use json::json_view;

    let shown = match status {
        BashToolStatus::Pending => None,
        _ => Some(Json::text(bash_status_name(status))),
    };
    update_map("tool_call").with("toolCallId", Json::text(tool_call_id)).with(
        "title",
        Json::text(command),
    ).with("kind", Json::text("execute")).with_opt("status", shown).with(
        "content",
        bash::bash_terminal_content(tool_call_id),
    ).with("_meta", Json::Object(meta))
}

/// What v1 is told of a bash call: the opening frame embeds the terminal, a
/// later one carries the status and what is new.
pub open spec fn bash_v1(call: BashToolCallView) -> JsonView {
    if call.first {
        frame(
            call.session_id,
            terminal_call(
                call.tool_call_id,
                call.command,
                call.status,
                bash::info_meta(
                    call.tool_call_id,
                    match call.cwd {
                        Some(cwd) => cwd,
                        None => Seq::empty(),
                    },
                ),
            ),
        )
    } else {
        frame(
            call.session_id,
            json::put_opt(
                json::put(
                    json::put(
                        update("tool_call_update"@),
                        "toolCallId"@,
                        JsonView::Str(call.tool_call_id),
                    ),
                    "status"@,
                    JsonView::Str(bash_status(call.status)),
                ),
                "_meta"@,
                filled(terminal_news(call)),
            ),
        )
    }
}

/// The v1 frames for a bash call.
pub fn bash_v1_frames(call: &BashToolCall) -> (r: Vec<Json>)
    ensures
        json::items_view(r@) == seq![bash_v1(call@)],
{
    let mut frames: Vec<Json> = Vec::new();
    if call.first {
        let cwd: &str = match &call.cwd {
            Some(cwd) => cwd.as_str(),
            None => "",
        };
        proof {
            reveal_strlit("");
            assert(""@ =~= Seq::<char>::empty());
        }
        let meta = bash::bash_terminal_info_meta(call.tool_call_id.as_str(), cwd);
        frames.push(
            frame_json(
                call.session_id.as_str(),
                terminal_call_map(
                    call.tool_call_id.as_str(),
                    call.command.as_str(),
                    call.status,
                    meta,
                ),
            ),
        );
    } else {
        let meta = terminal_meta(call);
        frames.push(
            frame_json(
                call.session_id.as_str(),
                update_map("tool_call_update").with(
                    "toolCallId",
                    Json::text(call.tool_call_id.as_str()),
                ).with("status", Json::text(bash_status_name(call.status))).with_opt("_meta", meta),
            ),
        );
    }
    assert(json::items_view(frames@) =~= seq![bash_v1(call@)]);
    frames
}

/// The status of a call that has ended.
pub open spec fn ended_status(failed: bool) -> BashToolStatus {
    if failed {
        BashToolStatus::Failed
    } else {
        BashToolStatus::Completed
    }
}

/// The members `meta` with the output, when there is some, and the exit code
/// of a call that has ended.
pub open spec fn whole_news(
    meta: MetaView,
    tool_call_id: Seq<char>,
    output: Seq<char>,
    exit_code: i32,
) -> MetaView {
    json::put(
        if output.len() == 0 {
            meta
        } else {
            json::put(meta, "terminal_output"@, bash::output_value(tool_call_id, output))
        },
        "terminal_exit"@,
        bash::exit_value(tool_call_id, exit_code),
    )
}

fn whole_news_map(meta: JsonMap, tool_call_id: &str, output: &str, exit_code: i32) -> (r: JsonMap)
    ensures
        r@ == whole_news(meta@, tool_call_id@, output@, exit_code),
{
    let shown = if output.unicode_len() > 0 {
        bash::with_terminal_output(meta, tool_call_id, output)
    } else {
        meta
    };
    bash::with_terminal_exit(shown, tool_call_id, exit_code)
}

/// The v1 frame for a bash call of an earlier conversation: the call, its
/// whole output and its exit code in one.
pub fn bash_replay_v1(
    session_id: &str,
    tool_call_id: &str,
    command: &str,
    cwd: &str,
    output: &str,
    exit_code: i32,
    failed: bool,
) -> (r: Json)
    ensures
        r@ == frame(
            session_id@,
            terminal_call(
                tool_call_id@,
                command@,
                ended_status(failed),
                whole_news(
                    bash::info_meta(tool_call_id@, cwd@),
                    tool_call_id@,
                    output@,
                    exit_code,
                ),
            ),
        ),
{
    let meta = whole_news_map(
        bash::bash_terminal_info_meta(tool_call_id, cwd),
        tool_call_id,
        output,
        exit_code,
    );
    let status = if failed {
        BashToolStatus::Failed
    } else {
        BashToolStatus::Completed
    };
    frame_json(session_id, terminal_call_map(tool_call_id, command, status, meta))
}

/// The arguments of a bash call as v2 shows them.
pub open spec fn command_input(command: Seq<char>, cwd: Option<Seq<char>>) -> JsonView {
    JsonView::Object(
        json::put_opt(
            json::put(Seq::empty(), "command"@, JsonView::Str(command)),
            "cwd"@,
            json::opt_string(cwd),
        ),
    )
}

/// What v2 is told of a bash call: the opening frame names the command, every
/// frame carries the status and what is new.
pub open spec fn bash_v2(call: BashToolCallView) -> JsonView {
    let opened = json::put(
        update("tool_call_update"@),
        "toolCallId"@,
        JsonView::Str(call.tool_call_id),
    );
    let named = if call.first {
        json::put(
            json::put(opened, "title"@, JsonView::Str(call.command)),
            "kind"@,
            JsonView::Str("execute"@),
        )
    } else {
        opened
    };
    let stated = json::put(named, "status"@, JsonView::Str(bash_status(call.status)));
    let told = if call.first {
        json::put(stated, "rawInput"@, command_input(call.command, call.cwd))
    } else {
        stated
    };
    frame(call.session_id, json::put_opt(told, "_meta"@, filled(terminal_news(call))))
}

/// The v2 frames for a bash call.
pub fn bash_v2_frames(call: &BashToolCall) -> (r: Vec<Json>)
    ensures
        json::items_view(r@) == seq![bash_v2(call@)],
{
    broadcast use json::json_view;

    let mut members = update_map("tool_call_update").with(
        "toolCallId",
        Json::text(call.tool_call_id.as_str()),
    );
    if call.first {
        members =
        members.with("title", Json::text(call.command.as_str())).with("kind", Json::text("execute"));
    }
    members = members.with("status", Json::text(bash_status_name(call.status)));
    if call.first {
        let input = JsonMap::new().with("command", Json::text(call.command.as_str())).with_text(
            "cwd",
            &call.cwd,
        );
        members = members.with("rawInput", Json::Object(input));
    }
    let meta = terminal_meta(call);
    let mut frames: Vec<Json> = Vec::new();
    frames.push(frame_json(call.session_id.as_str(), members.with_opt("_meta", meta)));
    assert(json::items_view(frames@) =~= seq![bash_v2(call@)]);
    frames
}

/// The v2 frame for a bash call of an earlier conversation.
pub fn bash_replay_v2(
    session_id: &str,
    tool_call_id: &str,
    command: &str,
    cwd: &str,
    output: &str,
    exit_code: i32,
    failed: bool,
) -> (r: Json)
    ensures
        r@ == frame(
            session_id@,
            json::put(
                json::put(
                    json::put(
                        json::put(
                            json::put(
                                json::put(
                                    json::put(
                                        update("tool_call_update"@),
                                        "toolCallId"@,
                                        JsonView::Str(tool_call_id@),
                                    ),
                                    "title"@,
                                    JsonView::Str(command@),
                                ),
                                "kind"@,
                                JsonView::Str("execute"@),
                            ),
                            "status"@,
                            JsonView::Str(bash_status(ended_status(failed))),
                        ),
                        "rawInput"@,
                        command_input(command@, Some(cwd@)),
                    ),
                    "rawOutput"@,
                    JsonView::Str(output@),
                ),
                "_meta"@,
                JsonView::Object(whole_news(Seq::empty(), tool_call_id@, output@, exit_code)),
            ),
        ),
{
    broadcast use json::json_view;

    let meta = whole_news_map(JsonMap::new(), tool_call_id, output, exit_code);
    let status = if failed {
        BashToolStatus::Failed
    } else {
        BashToolStatus::Completed
    };
    let input = JsonMap::new().with("command", Json::text(command)).with("cwd", Json::text(cwd));
    frame_json(
        session_id,
        update_map("tool_call_update").with("toolCallId", Json::text(tool_call_id)).with(
            "title",
            Json::text(command),
        ).with("kind", Json::text("execute")).with(
            "status",
            Json::text(bash_status_name(status)),
        ).with("rawInput", Json::Object(input)).with("rawOutput", Json::text(output)).with(
            "_meta",
            Json::Object(meta),
        ),
    )
}

// ---------------------------------------------------------------------------
// Messages
// ---------------------------------------------------------------------------

/// The kind of update that a stream sends.
pub open spec fn chunk_update(kind: TextChunkKind) -> Seq<char> {
    match kind {
        TextChunkKind::Agent => "agent_message_chunk"@,
        TextChunkKind::Thought => "agent_thought_chunk"@,
        TextChunkKind::User => "user_message_chunk"@,
    }
}

/// A chunk of a message: its content, the message it belongs to and `_meta`.
pub open spec fn chunk(
    kind: Seq<char>,
    content: JsonView,
    message_id: Option<Seq<char>>,
    meta: Option<MetaView>,
) -> MetaView {
    json::put_opt(
        json::put_opt(
            json::put(update(kind), "content"@, content),
            "messageId"@,
            json::opt_string(message_id),
        ),
        "_meta"@,
        json::opt_object(meta),
    )
}

/// A piece of text as v1 is told it; the message may be left out.
pub open spec fn chunk_v1(c: TextChunkView) -> JsonView {
    frame(c.session_id, chunk(chunk_update(c.kind), text_block(c.text), c.message_id, c.meta))
}

/// The message a chunk belongs to on v2, which requires one: a chunk without
/// a message of its own belongs to the one that was made up for it.
pub open spec fn required_id(message_id: Option<Seq<char>>, synthetic: Seq<char>) -> Seq<char> {
    match message_id {
        Some(id) => id,
        None => synthetic,
    }
}

/// A piece of text as v2 is told it.
pub open spec fn chunk_v2(c: TextChunkView, synthetic: Seq<char>) -> JsonView {
    frame(
        c.session_id,
        chunk(
            chunk_update(c.kind),
            text_block(c.text),
            Some(required_id(c.message_id, synthetic)),
            c.meta,
        ),
    )
}

fn chunk_update_name(kind: TextChunkKind) -> (r: &'static str)
    ensures
        r@ == chunk_update(kind),
{
    match kind {
        TextChunkKind::Agent => "agent_message_chunk",
        TextChunkKind::Thought => "agent_thought_chunk",
        TextChunkKind::User => "user_message_chunk",
    }
}

/// The v1 frame for a streamed piece of text.
pub fn text_chunk_v1(chunk: &TextChunk) -> (r: Json)
    ensures
        r@ == chunk_v1(chunk@),
{
    frame_json(
        chunk.session_id.as_str(),
        update_map(chunk_update_name(chunk.kind)).with(
            "content",
            text_block_json(chunk.text.as_str()),
        ).with_text("messageId", &chunk.message_id).with_opt("_meta", opt_object_json(&chunk.meta)),
    )
}

/// The v2 frame for a streamed piece of text; `synthetic` is the message of a
/// chunk that has none.
pub fn text_chunk_v2(chunk: &TextChunk, synthetic: &str) -> (r: Json)
    ensures
        r@ == chunk_v2(chunk@, synthetic@),
{
    let id: &str = match &chunk.message_id {
        Some(id) => id.as_str(),
        None => synthetic,
    };
    frame_json(
        chunk.session_id.as_str(),
        update_map(chunk_update_name(chunk.kind)).with(
            "content",
            text_block_json(chunk.text.as_str()),
        ).with("messageId", Json::text(id)).with_opt("_meta", opt_object_json(&chunk.meta)),
    )
}

/// The made-up message with the given number.
pub open spec fn synthetic_id(n: nat) -> Seq<char> {
    "pi-synthetic-"@ + text::decimal(n)
}

/// Numbers the messages that are made up for chunks without one.
#[derive(Debug)]
pub struct SyntheticIds {
    minted: u64,
}

impl View for SyntheticIds {
    type V = nat;

    closed spec fn view(&self) -> nat {
        self.minted as nat
    }
}

impl SyntheticIds {
    /// No message was made up yet.
    pub fn new() -> (r: SyntheticIds)
        ensures
            r@ == 0,
    {
        SyntheticIds { minted: 0 }
    }

    /// Whether another message can be made up.
    pub fn has_room(&self) -> (r: bool)
        ensures
            r == (self@ < u64::MAX),
    {
        self.minted < u64::MAX
    }

    /// Makes up the next message.
    pub fn mint(&mut self) -> (r: String)
        requires
            old(self)@ < u64::MAX,
        ensures
            r@ == synthetic_id(old(self)@ + 1),
            final(self)@ == old(self)@ + 1,
    {
        self.minted = self.minted + 1;
        let n: u64 = self.minted;
        text::cat2("pi-synthetic-", text::decimal_text(n).as_str())
    }
}

/// Two messages that were made up are different messages.
pub proof fn synthetic_ids_are_fresh(a: nat, b: nat)
    requires
        synthetic_id(a) == synthetic_id(b),
    ensures
        a == b,
{
    let prefix = "pi-synthetic-"@;
    assert(synthetic_id(a).skip(prefix.len() as int) =~= text::decimal(a));
    assert(synthetic_id(b).skip(prefix.len() as int) =~= text::decimal(b));
    text::decimal_reads_back(a);
    text::decimal_reads_back(b);
}

/// The v1 frames for the complete text of a message: none, v1 clients put the
/// message together from its chunks.
pub fn message_patch_v1(_patch: &MessagePatch) -> (r: Vec<Json>)
    ensures
        r@.len() == 0,
{
    Vec::new()
}

/// The complete text of a message as v2 is told it.
pub open spec fn patch_v2(p: MessagePatchView) -> JsonView {
    frame(
        p.session_id,
        json::put(
            json::put(update("agent_message"@), "messageId"@, JsonView::Str(p.message_id)),
            "content"@,
            JsonView::Array(seq![text_block(p.text)]),
        ),
    )
}

/// The v2 frame for the complete text of a message.
pub fn message_patch_v2(patch: &MessagePatch) -> (r: Json)
    ensures
        r@ == patch_v2(patch@),
{
    frame_json(
        patch.session_id.as_str(),
        update_map("agent_message").with("messageId", Json::text(patch.message_id.as_str())).with(
            "content",
            bash::one_item(text_block_json(patch.text.as_str())),
        ),
    )
}

/// The wire name of the reason a turn ended for.
pub open spec fn stop_reason(reason: StopReason) -> Seq<char> {
    match reason {
        StopReason::EndTurn => "end_turn"@,
        StopReason::Cancelled => "cancelled"@,
    }
}

/// The wire name of the reason a turn ended for.
pub fn acp_stop_reason(reason: StopReason) -> (r: &'static str)
    ensures
        r@ == stop_reason(reason),
{
    match reason {
        StopReason::EndTurn => "end_turn",
        StopReason::Cancelled => "cancelled",
    }
}

/// The state of the foreground work as v2 is told it.
pub open spec fn state_v2(session_id: Seq<char>, state: ForegroundState) -> JsonView {
    frame(
        session_id,
        match state {
            ForegroundState::Running => json::put(
                update("state_update"@),
                "state"@,
                JsonView::Str("running"@),
            ),
            ForegroundState::Idle(reason) => json::put(
                json::put(update("state_update"@), "state"@, JsonView::Str("idle"@)),
                "stopReason"@,
                JsonView::Str(stop_reason(reason)),
            ),
        },
    )
}

/// The v2 frame for a change of the foreground work.
pub fn foreground_v2(session_id: &str, state: ForegroundState) -> (r: Json)
    ensures
        r@ == state_v2(session_id@, state),
{
    let members = match state {
        ForegroundState::Running => update_map("state_update").with("state", Json::text("running")),
        ForegroundState::Idle(reason) => update_map("state_update").with(
            "state",
            Json::text("idle"),
        ).with("stopReason", Json::text(acp_stop_reason(reason))),
    };
    frame_json(session_id, members)
}

// ---------------------------------------------------------------------------
// Tool calls
// ---------------------------------------------------------------------------

/// The wire name of a kind of work; a kind that v1 does not know is sent there
/// as other work.
pub open spec fn kind_id(kind: ToolKindFact, v2: bool) -> Seq<char> {
    match kind {
        ToolKindFact::Read => "read"@,
        ToolKindFact::Edit => "edit"@,
        ToolKindFact::Delete => "delete"@,
        ToolKindFact::Move => "move"@,
        ToolKindFact::Search => "search"@,
        ToolKindFact::Execute => "execute"@,
        ToolKindFact::Think => "think"@,
        ToolKindFact::Fetch => "fetch"@,
        ToolKindFact::SwitchMode => "switch_mode"@,
        ToolKindFact::Other => "other"@,
        ToolKindFact::Unknown(name) => if v2 {
            name@
        } else {
            "other"@
        },
    }
}

fn kind_name(kind: &ToolKindFact, v2: bool) -> (r: &str)
    ensures
        r@ == kind_id(*kind, v2),
{
    match kind {
        ToolKindFact::Read => "read",
        ToolKindFact::Edit => "edit",
        ToolKindFact::Delete => "delete",
        ToolKindFact::Move => "move",
        ToolKindFact::Search => "search",
        ToolKindFact::Execute => "execute",
        ToolKindFact::Think => "think",
        ToolKindFact::Fetch => "fetch",
        ToolKindFact::SwitchMode => "switch_mode",
        ToolKindFact::Other => "other",
        ToolKindFact::Unknown(name) => if v2 {
            name.as_str()
        } else {
            "other"
        },
    }
}

/// The wire name of a tool call's status; v1 has no name for one it does not
/// know.
pub open spec fn status_id(status: ToolStatusFact, v2: bool) -> Option<Seq<char>> {
    match status {
        ToolStatusFact::Pending => Some("pending"@),
        ToolStatusFact::InProgress => Some("in_progress"@),
        ToolStatusFact::Completed => Some("completed"@),
        ToolStatusFact::Failed => Some("failed"@),
        ToolStatusFact::Unknown(name) => if v2 {
            Some(name@)
        } else {
            None
        },
    }
}

fn status_name(status: &ToolStatusFact, v2: bool) -> (r: Option<&str>)
    ensures
        text::opt_str(r) == status_id(*status, v2),
{
    match status {
        ToolStatusFact::Pending => Some("pending"),
        ToolStatusFact::InProgress => Some("in_progress"),
        ToolStatusFact::Completed => Some("completed"),
        ToolStatusFact::Failed => Some("failed"),
        ToolStatusFact::Unknown(name) => if v2 {
            Some(name.as_str())
        } else {
            None
        },
    }
}

/// The kind as a member; what a v1 call has by default is left out of the
/// frame that opens it.
pub open spec fn kind_member(kind: Option<ToolKindFact>, v2: bool, opening: bool) -> Option<
    JsonView,
> {
    match kind {
        Some(k) => if opening && kind_id(k, v2) == "other"@ {
            None
        } else {
            Some(JsonView::Str(kind_id(k, v2)))
        },
        None => None,
    }
}

/// The status as a member; what a v1 call has by default is left out of the
/// frame that opens it.
pub open spec fn status_member(status: Option<ToolStatusFact>, v2: bool, opening: bool) -> Option<
    JsonView,
> {
    match status {
        Some(st) => if opening && st is Pending {
            None
        } else {
            json::opt_string(status_id(st, v2))
        },
        None => None,
    }
}

fn kind_member_json(kind: &Option<ToolKindFact>, v2: bool, opening: bool) -> (r: Option<Json>)
    ensures
        json::opt_view(r) == kind_member(*kind, v2, opening),
{
    match kind {
        Some(k) => {
            let name = kind_name(k, v2);
            if opening && text::same(name, "other") {
                None
            } else {
                Some(Json::text(name))
            }
        },
        None => None,
    }
}

fn status_member_json(status: &Option<ToolStatusFact>, v2: bool, opening: bool) -> (r: Option<Json>)
    ensures
        json::opt_view(r) == status_member(*status, v2, opening),
{
    match status {
        Some(st) => {
            if opening && matches!(st, ToolStatusFact::Pending) {
                None
            } else {
                match status_name(st, v2) {
                    Some(name) => Some(Json::text(name)),
                    None => None,
                }
            }
        },
        None => None,
    }
}

/// What a tool call produced, as v1 shows it: a text, or a file with its old
/// and new content.
pub open spec fn content_v1(c: ToolContentView) -> JsonView {
    match c {
        ToolContentView::Text(text) => block_content(text_block(text)),
        ToolContentView::Diff { path, new_text, old_text } => JsonView::Object(
            json::put(
                json::put_opt(
                    json::put(
                        json::put(Seq::empty(), "type"@, JsonView::Str("diff"@)),
                        "path"@,
                        JsonView::Str(path),
                    ),
                    "oldText"@,
                    json::opt_string(old_text),
                ),
                "newText"@,
                JsonView::Str(new_text),
            ),
        ),
    }
}

/// What a tool call produced, as v2 shows it: a text, or the file that was
/// added or modified.
pub open spec fn content_v2(c: ToolContentView) -> JsonView {
    match c {
        ToolContentView::Text(text) => block_content(text_block(text)),
        ToolContentView::Diff { path, new_text, old_text } => JsonView::Object(
            json::put(
                json::put(Seq::empty(), "type"@, JsonView::Str("diff"@)),
                "changes"@,
                JsonView::Array(
                    seq![
                        JsonView::Object(
                            json::put(
                                json::put(
                                    Seq::empty(),
                                    "operation"@,
                                    JsonView::Str(
                                        if old_text is Some {
                                            "modify"@
                                        } else {
                                            "add"@
                                        },
                                    ),
                                ),
                                "path"@,
                                JsonView::Str(path),
                            ),
                        ),
                    ],
                ),
            ),
        ),
    }
}

/// What a tool call produced, as the protocol shows it.
pub open spec fn content_of(c: ToolContentView, v2: bool) -> JsonView {
    if v2 {
        content_v2(c)
    } else {
        content_v1(c)
    }
}

fn content_json(c: &ToolContentFact, v2: bool) -> (r: Json)
    ensures
        r@ == content_of(c@, v2),
{
    broadcast use json::json_view;

    match c {
        ToolContentFact::Text(text) => block_content_json(text_block_json(text.as_str())),
        ToolContentFact::Diff { path, new_text, old_text } => {
            let opened = JsonMap::new().with("type", Json::text("diff"));
            if v2 {
                let operation: &str = match old_text {
                    Some(_) => "modify",
                    None => "add",
                };
                let change = JsonMap::new().with("operation", Json::text(operation)).with(
                    "path",
                    Json::text(path.as_str()),
                );
                Json::Object(opened.with("changes", bash::one_item(Json::Object(change))))
            } else {
                Json::Object(
                    opened.with("path", Json::text(path.as_str())).with_text(
                        "oldText",
                        old_text,
                    ).with("newText", Json::text(new_text.as_str())),
                )
            }
        },
    }
}

/// The contents as a member.
pub open spec fn contents_member(
    content: Option<Seq<ToolContentView>>,
    v2: bool,
    opening: bool,
) -> Option<JsonView> {
    match content {
        Some(cs) => if opening && cs.len() == 0 {
            None
        } else {
            Some(JsonView::Array(cs.map_values(|c: ToolContentView| content_of(c, v2))))
        },
        None => None,
    }
}

fn contents_member_json(content: &Option<Vec<ToolContentFact>>, v2: bool, opening: bool) -> (r:
    Option<Json>)
    ensures
        json::opt_view(r) == contents_member(
            match *content {
                Some(c) => Some(facts::content_views(c@)),
                None => None,
            },
            v2,
            opening,
        ),
{
    broadcast use json::json_view;

    match content {
        Some(cs) => {
            if opening && cs.len() == 0 {
                None
            } else {
                let mut items: Vec<Json> = Vec::new();
                let mut i: usize = 0;
                while i < cs.len()
                    invariant
                        i <= cs@.len(),
                        items@.len() == i,
                        forall|k: int|
                            0 <= k < i ==> (#[trigger] items@[k])@ == content_of(cs@[k]@, v2),
                    decreases cs.len() - i,
                {
                    items.push(content_json(&cs[i], v2));
                    i += 1;
                }
                assert(json::items_view(items@) =~= facts::content_views(cs@).map_values(
                    |c: ToolContentView| content_of(c, v2),
                ));
                Some(Json::Array(items))
            }
        },
        None => None,
    }
}

/// A place that a tool call touches; a line is counted from one.
pub open spec fn location(l: (Seq<char>, Option<u32>)) -> JsonView {
    JsonView::Object(
        json::put_opt(
            json::put(Seq::empty(), "path"@, JsonView::Str(l.0)),
            "line"@,
            match l.1 {
                Some(line) => if line == 0 {
                    None
                } else {
                    Some(JsonView::Number(NumberView::Int(line as int)))
                },
                None => None,
            },
        ),
    )
}

/// The places that a tool call touches, as a member.
pub open spec fn locations_member(ls: Seq<(Seq<char>, Option<u32>)>) -> Option<JsonView> {
    if ls.len() == 0 {
        None
    } else {
        Some(JsonView::Array(ls.map_values(|l: (Seq<char>, Option<u32>)| location(l))))
    }
}

fn locations_member_json(ls: &Vec<ToolLocationFact>) -> (r: Option<Json>)
    ensures
        json::opt_view(r) == locations_member(facts::location_views(ls@)),
{
    broadcast use json::json_view;

    if ls.len() == 0 {
        return None;
    }
    let mut items: Vec<Json> = Vec::new();
    let mut i: usize = 0;
    while i < ls.len()
        invariant
            i <= ls@.len(),
            items@.len() == i,
            forall|k: int|
                0 <= k < i ==> (#[trigger] items@[k])@ == location((ls@[k].path@, ls@[k].line)),
        decreases ls.len() - i,
    {
        let line: Option<Json> = match ls[i].line {
            Some(n) => {
                if n == 0 {
                    None
                } else {
                    Some(Json::unsigned(n as u64))
                }
            },
            None => None,
        };
        let members = JsonMap::new().with("path", Json::text(ls[i].path.as_str())).with_opt(
            "line",
            line,
        );
        let item = Json::Object(members);
        proof {
            json::json_view(item);
        }
        items.push(item);
        i += 1;
    }
    assert(json::items_view(items@) =~= facts::location_views(ls@).map_values(
        |l: (Seq<char>, Option<u32>)| location(l),
    ));
    Some(Json::Array(items))
}

/// The members behind the first ones of a tool call frame.
pub open spec fn call_details(
    members: MetaView,
    c: ToolCallView,
    v2: bool,
    opening: bool,
) -> MetaView {
    json::put_opt(
        json::put_opt(
            json::put_opt(
                json::put_opt(
                    json::put_opt(members, "content"@, contents_member(c.content, v2, opening)),
                    "locations"@,
                    locations_member(c.locations),
                ),
                "rawInput"@,
                c.raw_input,
            ),
            "rawOutput"@,
            c.raw_output,
        ),
        "_meta"@,
        json::opt_object(c.meta),
    )
}

fn opt_clone(v: &Option<Json>) -> (r: Option<Json>)
    ensures
        json::opt_view(r) == json::opt_view(*v),
{
    match v {
        Some(j) => Some(j.clone()),
        None => None,
    }
}

fn call_details_map(members: JsonMap, c: &ToolCallFact, v2: bool, opening: bool) -> (r: JsonMap)
    ensures
        r@ == call_details(members@, c@, v2, opening),
{
    members.with_opt("content", contents_member_json(&c.content, v2, opening)).with_opt(
        "locations",
        locations_member_json(&c.locations),
    ).with_opt("rawInput", opt_clone(&c.raw_input)).with_opt(
        "rawOutput",
        opt_clone(&c.raw_output),
    ).with_opt("_meta", opt_object_json(&c.meta))
}

/// A tool call as v1 is told it: in full when it opens, then what changed.
pub open spec fn call_v1(c: ToolCallView) -> JsonView {
    if c.first {
        frame(
            c.session_id,
            call_details(
                json::put_opt(
                    json::put_opt(
                        json::put(
                            json::put(
                                update("tool_call"@),
                                "toolCallId"@,
                                JsonView::Str(c.tool_call_id),
                            ),
                            "title"@,
                            JsonView::Str(
                                match c.title {
                                    Some(t) => t,
                                    None => Seq::empty(),
                                },
                            ),
                        ),
                        "kind"@,
                        kind_member(c.kind, false, true),
                    ),
                    "status"@,
                    status_member(c.status, false, true),
                ),
                c,
                false,
                true,
            ),
        )
    } else {
        frame(
            c.session_id,
            call_details(
                json::put_opt(
                    json::put_opt(
                        json::put_opt(
                            json::put(
                                update("tool_call_update"@),
                                "toolCallId"@,
                                JsonView::Str(c.tool_call_id),
                            ),
                            "kind"@,
                            kind_member(c.kind, false, false),
                        ),
                        "status"@,
                        status_member(c.status, false, false),
                    ),
                    "title"@,
                    json::opt_string(c.title),
                ),
                c,
                false,
                false,
            ),
        )
    }
}

/// A tool call as v2 is told it: what is known or changed.
pub open spec fn call_v2(c: ToolCallView) -> JsonView {
    frame(
        c.session_id,
        call_details(
            json::put_opt(
                json::put_opt(
                    json::put_opt(
                        json::put(
                            update("tool_call_update"@),
                            "toolCallId"@,
                            JsonView::Str(c.tool_call_id),
                        ),
                        "title"@,
                        json::opt_string(c.title),
                    ),
                    "kind"@,
                    kind_member(c.kind, true, false),
                ),
                "status"@,
                status_member(c.status, true, false),
            ),
            c,
            true,
            false,
        ),
    )
}

/// The v1 frame for a tool call.
pub fn tool_call_v1(call: &ToolCallFact) -> (r: Json)
    ensures
        r@ == call_v1(call@),
{
    if call.first {
        let title: &str = match &call.title {
            Some(t) => t.as_str(),
            None => "",
        };
        proof {
            reveal_strlit("");
            assert(""@ =~= Seq::<char>::empty());
        }
        let opened = update_map("tool_call").with(
            "toolCallId",
            Json::text(call.tool_call_id.as_str()),
        ).with("title", Json::text(title)).with_opt(
            "kind",
            kind_member_json(&call.kind, false, true),
        ).with_opt("status", status_member_json(&call.status, false, true));
        frame_json(call.session_id.as_str(), call_details_map(opened, call, false, true))
    } else {
        let opened = update_map("tool_call_update").with(
            "toolCallId",
            Json::text(call.tool_call_id.as_str()),
        ).with_opt("kind", kind_member_json(&call.kind, false, false)).with_opt(
            "status",
            status_member_json(&call.status, false, false),
        ).with_text("title", &call.title);
        frame_json(call.session_id.as_str(), call_details_map(opened, call, false, false))
    }
}

/// The v2 frame for a tool call.
pub fn tool_call_v2(call: &ToolCallFact) -> (r: Json)
    ensures
        r@ == call_v2(call@),
{
    let opened = update_map("tool_call_update").with(
        "toolCallId",
        Json::text(call.tool_call_id.as_str()),
    ).with_text("title", &call.title).with_opt(
        "kind",
        kind_member_json(&call.kind, true, false),
    ).with_opt("status", status_member_json(&call.status, true, false));
    frame_json(call.session_id.as_str(), call_details_map(opened, call, true, false))
}

// ---------------------------------------------------------------------------
// Session state
// ---------------------------------------------------------------------------

/// A change of a session's title, time or `_meta`; what did not change is left
/// out.
pub open spec fn info(f: SessionInfoView) -> JsonView {
    frame(
        f.session_id,
        json::put_opt(
            json::put_opt(
                json::put_opt(
                    update("session_info_update"@),
                    "title"@,
                    json::opt_string(f.title),
                ),
                "updatedAt"@,
                json::opt_string(f.updated_at),
            ),
            "_meta"@,
            json::opt_object(f.meta),
        ),
    )
}

/// The frame for a change of a session's title, time or `_meta`.
pub fn session_info(fact: &SessionInfoFact) -> (r: Json)
    ensures
        r@ == info(fact@),
{
    frame_json(
        fact.session_id.as_str(),
        update_map("session_info_update").with_text("title", &fact.title).with_text(
            "updatedAt",
            &fact.updated_at,
        ).with_opt("_meta", opt_object_json(&fact.meta)),
    )
}

/// How full the context window is, and what the session has cost.
pub open spec fn usage(f: UsageView) -> JsonView {
    frame(
        f.session_id,
        json::put_opt(
            json::put(
                json::put(
                    update("usage_update"@),
                    "used"@,
                    JsonView::Number(NumberView::Int(f.used as int)),
                ),
                "size"@,
                JsonView::Number(NumberView::Int(f.size as int)),
            ),
            "cost"@,
            match f.cost {
                Some(c) => Some(
                    JsonView::Object(
                        json::put(
                            json::put(Seq::empty(), "amount"@, JsonView::Number(c.0)),
                            "currency"@,
                            JsonView::Str(c.1),
                        ),
                    ),
                ),
                None => None,
            },
        ),
    )
}

/// The frame for how full the context window is.
pub fn usage_update(fact: &UsageFact) -> (r: Json)
    ensures
        r@ == usage(fact@),
{
    broadcast use json::json_view;

    let cost = match &fact.cost {
        Some(c) => Some(
            Json::Object(
                JsonMap::new().with("amount", Json::Number(c.amount.clone())).with(
                    "currency",
                    Json::text(c.currency.as_str()),
                ),
            ),
        ),
        None => None,
    };
    frame_json(
        fact.session_id.as_str(),
        update_map("usage_update").with("used", Json::unsigned(fact.used)).with(
            "size",
            Json::unsigned(fact.size),
        ).with_opt("cost", cost),
    )
}

/// The mode of a session, which only v1 knows of.
pub open spec fn mode(session_id: Seq<char>, mode_id: Seq<char>) -> JsonView {
    frame(
        session_id,
        json::put(update("current_mode_update"@), "currentModeId"@, JsonView::Str(mode_id)),
    )
}

/// The v1 frame for the mode of a session.
pub fn mode_v1(fact: &ModeFact) -> (r: Json)
    ensures
        r@ == mode(fact.session_id@, fact.mode_id@),
{
    frame_json(
        fact.session_id.as_str(),
        update_map("current_mode_update").with("currentModeId", Json::text(fact.mode_id.as_str())),
    )
}

/// The wire name of what a config option is about.
pub open spec fn category_id(c: ConfigCategoryView) -> Seq<char> {
    match c {
        ConfigCategoryView::Mode => "mode"@,
        ConfigCategoryView::Model => "model"@,
        ConfigCategoryView::ModelConfig => "model_config"@,
        ConfigCategoryView::ThoughtLevel => "thought_level"@,
        ConfigCategoryView::Other(s) => s,
    }
}

fn category_name(c: &ConfigCategoryFact) -> (r: &str)
    ensures
        r@ == category_id(c@),
{
    match c {
        ConfigCategoryFact::Mode => "mode",
        ConfigCategoryFact::Model => "model",
        ConfigCategoryFact::ModelConfig => "model_config",
        ConfigCategoryFact::ThoughtLevel => "thought_level",
        ConfigCategoryFact::Other(s) => s.as_str(),
    }
}

/// A value that a config option can take.
pub open spec fn choice(c: ConfigChoiceView) -> JsonView {
    JsonView::Object(
        json::put_opt(
            json::put_opt(
                json::put(
                    json::put(Seq::empty(), "value"@, JsonView::Str(c.value)),
                    "name"@,
                    JsonView::Str(c.name),
                ),
                "description"@,
                json::opt_string(c.description),
            ),
            "_meta"@,
            json::opt_object(c.meta),
        ),
    )
}

/// A config option; the protocols name the member with its id differently.
pub open spec fn option(o: ConfigOptionView, v2: bool) -> JsonView {
    JsonView::Object(
        json::put_opt(
            json::put(
                json::put(
                    json::put(
                        json::put_opt(
                            json::put_opt(
                                json::put(
                                    json::put(
                                        Seq::empty(),
                                        if v2 {
                                            "configId"@
                                        } else {
                                            "id"@
                                        },
                                        JsonView::Str(o.id),
                                    ),
                                    "name"@,
                                    JsonView::Str(o.name),
                                ),
                                "description"@,
                                json::opt_string(o.description),
                            ),
                            "category"@,
                            match o.category {
                                Some(c) => Some(JsonView::Str(category_id(c))),
                                None => None,
                            },
                        ),
                        "type"@,
                        JsonView::Str("select"@),
                    ),
                    "currentValue"@,
                    JsonView::Str(o.current_value),
                ),
                "options"@,
                JsonView::Array(o.choices.map_values(|c: ConfigChoiceView| choice(c))),
            ),
            "_meta"@,
            json::opt_object(o.meta),
        ),
    )
}

/// The list of config options.
pub open spec fn option_list(os: Seq<ConfigOptionView>, v2: bool) -> JsonView {
    JsonView::Array(os.map_values(|o: ConfigOptionView| option(o, v2)))
}

fn choice_json(c: &ConfigChoiceFact) -> (r: Json)
    ensures
        r@ == choice(c@),
{
    broadcast use json::json_view;

    Json::Object(
        JsonMap::new().with("value", Json::text(c.value.as_str())).with(
            "name",
            Json::text(c.name.as_str()),
        ).with_text("description", &c.description).with_opt("_meta", opt_object_json(&c.meta)),
    )
}

fn choices_json(cs: &Vec<ConfigChoiceFact>) -> (r: Json)
    ensures
        r@ == JsonView::Array(
            cs@.map_values(|c: ConfigChoiceFact| c@).map_values(|c: ConfigChoiceView| choice(c)),
        ),
{
    broadcast use json::json_view;

    let mut items: Vec<Json> = Vec::new();
    let mut i: usize = 0;
    while i < cs.len()
        invariant
            i <= cs@.len(),
            items@.len() == i,
            forall|k: int| 0 <= k < i ==> (#[trigger] items@[k])@ == choice(cs@[k]@),
        decreases cs.len() - i,
    {
        items.push(choice_json(&cs[i]));
        i += 1;
    }
    assert(json::items_view(items@) =~= cs@.map_values(|c: ConfigChoiceFact| c@).map_values(
        |c: ConfigChoiceView| choice(c),
    ));
    Json::Array(items)
}

fn option_json(o: &ConfigOptionFact, v2: bool) -> (r: Json)
    ensures
        r@ == option(o@, v2),
{
    broadcast use json::json_view;

    let id_member: &str = if v2 {
        "configId"
    } else {
        "id"
    };
    let category = match &o.category {
        Some(c) => Some(Json::text(category_name(c))),
        None => None,
    };
    Json::Object(
        JsonMap::new().with(id_member, Json::text(o.id.as_str())).with(
            "name",
            Json::text(o.name.as_str()),
        ).with_text("description", &o.description).with_opt("category", category).with(
            "type",
            Json::text("select"),
        ).with("currentValue", Json::text(o.current_value.as_str())).with(
            "options",
            choices_json(&o.choices),
        ).with_opt("_meta", opt_object_json(&o.meta)),
    )
}

/// The list of config options, as the protocol spells it.
pub fn config_option_list(os: &Vec<ConfigOptionFact>, v2: bool) -> (r: Json)
    ensures
        r@ == option_list(facts::option_views(os@), v2),
{
    broadcast use json::json_view;

    let mut items: Vec<Json> = Vec::new();
    let mut i: usize = 0;
    while i < os.len()
        invariant
            i <= os@.len(),
            items@.len() == i,
            forall|k: int| 0 <= k < i ==> (#[trigger] items@[k])@ == option(os@[k]@, v2),
        decreases os.len() - i,
    {
        items.push(option_json(&os[i], v2));
        i += 1;
    }
    assert(json::items_view(items@) =~= facts::option_views(os@).map_values(
        |o: ConfigOptionView| option(o, v2),
    ));
    Json::Array(items)
}

/// All config options of a session.
pub open spec fn options(session_id: Seq<char>, os: Seq<ConfigOptionView>, v2: bool) -> JsonView {
    frame(
        session_id,
        json::put(update("config_option_update"@), "configOptions"@, option_list(os, v2)),
    )
}

/// The frame for all config options of a session.
pub fn config_options(fact: &ConfigOptionsFact, v2: bool) -> (r: Json)
    ensures
        r@ == options(fact.session_id@, facts::option_views(fact.options@), v2),
{
    frame_json(
        fact.session_id.as_str(),
        update_map("config_option_update").with(
            "configOptions",
            config_option_list(&fact.options, v2),
        ),
    )
}

/// What to type behind a command; v2 says what kind of input it is.
pub open spec fn command_hint(hint: Option<Seq<char>>, v2: bool) -> Option<JsonView> {
    match hint {
        Some(h) => Some(
            JsonView::Object(
                json::put(
                    if v2 {
                        json::put(Seq::empty(), "type"@, JsonView::Str("text"@))
                    } else {
                        Seq::empty()
                    },
                    "hint"@,
                    JsonView::Str(h),
                ),
            ),
        ),
        None => None,
    }
}

/// A command the client can offer; v2 says that it is one.
pub open spec fn command(c: AvailableCommandView, v2: bool) -> JsonView {
    JsonView::Object(
        json::put_opt(
            json::put_opt(
                json::put(
                    json::put(
                        if v2 {
                            json::put(Seq::empty(), "type"@, JsonView::Str("command"@))
                        } else {
                            Seq::empty()
                        },
                        "name"@,
                        JsonView::Str(c.name),
                    ),
                    "description"@,
                    JsonView::Str(c.description),
                ),
                "input"@,
                command_hint(c.input_hint, v2),
            ),
            "_meta"@,
            json::opt_object(c.meta),
        ),
    )
}

fn command_json(c: &AvailableCommandFact, v2: bool) -> (r: Json)
    ensures
        r@ == command(c@, v2),
{
    broadcast use json::json_view;

    let input = match &c.input_hint {
        Some(h) => {
            let opened = if v2 {
                JsonMap::new().with("type", Json::text("text"))
            } else {
                JsonMap::new()
            };
            Some(Json::Object(opened.with("hint", Json::text(h.as_str()))))
        },
        None => None,
    };
    let opened = if v2 {
        JsonMap::new().with("type", Json::text("command"))
    } else {
        JsonMap::new()
    };
    Json::Object(
        opened.with("name", Json::text(c.name.as_str())).with(
            "description",
            Json::text(c.description.as_str()),
        ).with_opt("input", input).with_opt("_meta", opt_object_json(&c.meta)),
    )
}

/// All commands of a session.
pub open spec fn commands(
    session_id: Seq<char>,
    cs: Seq<AvailableCommandView>,
    v2: bool,
) -> JsonView {
    frame(
        session_id,
        json::put(
            update("available_commands_update"@),
            "availableCommands"@,
            JsonView::Array(cs.map_values(|c: AvailableCommandView| command(c, v2))),
        ),
    )
}

/// The frame for all commands of a session.
pub fn available_commands(fact: &AvailableCommandsFact, v2: bool) -> (r: Json)
    ensures
        r@ == commands(fact.session_id@, facts::command_views(fact.commands@), v2),
{
    broadcast use json::json_view;

    let cs = &fact.commands;
    let mut items: Vec<Json> = Vec::new();
    let mut i: usize = 0;
    while i < cs.len()
        invariant
            i <= cs@.len(),
            items@.len() == i,
            forall|k: int| 0 <= k < i ==> (#[trigger] items@[k])@ == command(cs@[k]@, v2),
        decreases cs.len() - i,
    {
        items.push(command_json(&cs[i], v2));
        i += 1;
    }
    assert(json::items_view(items@) =~= facts::command_views(cs@).map_values(
        |c: AvailableCommandView| command(c, v2),
    ));
    frame_json(
        fact.session_id.as_str(),
        update_map("available_commands_update").with("availableCommands", Json::Array(items)),
    )
}

/// A link block.
pub open spec fn link_block(l: LinkChunkView) -> JsonView {
    JsonView::Object(
        json::put(
            json::put_opt(
                json::put(
                    json::put_opt(
                        json::put(Seq::empty(), "type"@, JsonView::Str("resource_link"@)),
                        "mimeType"@,
                        json::opt_string(l.mime_type),
                    ),
                    "name"@,
                    JsonView::Str(l.name),
                ),
                "title"@,
                json::opt_string(l.title),
            ),
            "uri"@,
            JsonView::Str(l.uri),
        ),
    )
}

/// A link in a message of the agent.
pub open spec fn link(l: LinkChunkView, message_id: Option<Seq<char>>) -> JsonView {
    frame(l.session_id, chunk("agent_message_chunk"@, link_block(l), message_id, None))
}

fn link_json(fact: &LinkChunkFact, message_id: &Option<String>) -> (r: Json)
    ensures
        r@ == link(fact@, text::opt_text(*message_id)),
{
    broadcast use json::json_view;

    let block = Json::Object(
        JsonMap::new().with("type", Json::text("resource_link")).with_text(
            "mimeType",
            &fact.mime_type,
        ).with("name", Json::text(fact.name.as_str())).with_text("title", &fact.title).with(
            "uri",
            Json::text(fact.uri.as_str()),
        ),
    );
    frame_json(
        fact.session_id.as_str(),
        update_map("agent_message_chunk").with("content", block).with_text("messageId", message_id),
    )
}

/// The v1 frame for a link.
pub fn link_chunk_v1(fact: &LinkChunkFact) -> (r: Json)
    ensures
        r@ == link(fact@, fact@.message_id),
{
    link_json(fact, &fact.message_id)
}

/// The v2 frame for a link; `synthetic` is the message of a link that has
/// none.
pub fn link_chunk_v2(fact: &LinkChunkFact, synthetic: &str) -> (r: Json)
    ensures
        r@ == link(fact@, Some(required_id(fact@.message_id, synthetic@))),
{
    let id = match &fact.message_id {
        Some(id) => id.clone(),
        None => synthetic.to_owned(),
    };
    link_json(fact, &Some(id))
}

// ---------------------------------------------------------------------------
// Questions
// ---------------------------------------------------------------------------

/// The wire name of how a choice is to be treated; one that the protocols do
/// not know is sent under its own name.
pub open spec fn permission_kind(kind: PermissionOptionKindFact) -> Seq<char> {
    match kind {
        PermissionOptionKindFact::AllowOnce => "allow_once"@,
        PermissionOptionKindFact::AllowAlways => "allow_always"@,
        PermissionOptionKindFact::RejectOnce => "reject_once"@,
        PermissionOptionKindFact::RejectAlways => "reject_always"@,
        PermissionOptionKindFact::Unknown(name) => name@,
    }
}

fn permission_kind_name(kind: &PermissionOptionKindFact) -> (r: &str)
    ensures
        r@ == permission_kind(*kind),
{
    match kind {
        PermissionOptionKindFact::AllowOnce => "allow_once",
        PermissionOptionKindFact::AllowAlways => "allow_always",
        PermissionOptionKindFact::RejectOnce => "reject_once",
        PermissionOptionKindFact::RejectAlways => "reject_always",
        PermissionOptionKindFact::Unknown(name) => name.as_str(),
    }
}

/// A choice of a question.
pub open spec fn permission_option(
    o: (Seq<char>, Seq<char>, PermissionOptionKindFact),
) -> JsonView {
    JsonView::Object(
        json::put(
            json::put(
                json::put(Seq::empty(), "optionId"@, JsonView::Str(o.0)),
                "name"@,
                JsonView::Str(o.1),
            ),
            "kind"@,
            JsonView::Str(permission_kind(o.2)),
        ),
    )
}

fn permission_options_json(os: &Vec<PermissionOptionFact>) -> (r: Json)
    ensures
        r@ == JsonView::Array(
            facts::permission_views(os@).map_values(
                |o: (Seq<char>, Seq<char>, PermissionOptionKindFact)| permission_option(o),
            ),
        ),
{
    broadcast use json::json_view;

    let mut items: Vec<Json> = Vec::new();
    let mut i: usize = 0;
    while i < os.len()
        invariant
            i <= os@.len(),
            items@.len() == i,
            forall|k: int|
                0 <= k < i ==> (#[trigger] items@[k])@ == permission_option(
                    (os@[k].id@, os@[k].name@, os@[k].kind),
                ),
        decreases os.len() - i,
    {
        let item = Json::Object(
            JsonMap::new().with("optionId", Json::text(os[i].id.as_str())).with(
                "name",
                Json::text(os[i].name.as_str()),
            ).with("kind", Json::text(permission_kind_name(&os[i].kind))),
        );
        proof {
            json::json_view(item);
        }
        items.push(item);
        i += 1;
    }
    assert(json::items_view(items@) =~= facts::permission_views(os@).map_values(
        |o: (Seq<char>, Seq<char>, PermissionOptionKindFact)| permission_option(o),
    ));
    Json::Array(items)
}

/// The call that a question is about.
pub open spec fn asked_call(p: PermissionRequestView) -> JsonView {
    JsonView::Object(
        json::put(
            json::put(
                json::put(Seq::empty(), "toolCallId"@, JsonView::Str(p.tool_call_id)),
                "title"@,
                JsonView::Str(p.title),
            ),
            "rawInput"@,
            p.raw_input,
        ),
    )
}

/// The choices of a question.
pub open spec fn asked_options(p: PermissionRequestView) -> JsonView {
    JsonView::Array(
        p.options.map_values(
            |o: (Seq<char>, Seq<char>, PermissionOptionKindFact)| permission_option(o),
        ),
    )
}

/// A question as v1 asks it: about a call.
pub open spec fn question_v1(p: PermissionRequestView) -> JsonView {
    JsonView::Object(
        json::put_opt(
            json::put(
                json::put(
                    json::put(Seq::empty(), "sessionId"@, JsonView::Str(p.session_id)),
                    "toolCall"@,
                    asked_call(p),
                ),
                "options"@,
                asked_options(p),
            ),
            "_meta"@,
            json::opt_object(p.meta),
        ),
    )
}

/// A question as v2 asks it: with a title of its own and the call as subject.
pub open spec fn question_v2(p: PermissionRequestView) -> JsonView {
    JsonView::Object(
        json::put_opt(
            json::put(
                json::put(
                    json::put(
                        json::put(Seq::empty(), "sessionId"@, JsonView::Str(p.session_id)),
                        "title"@,
                        JsonView::Str(p.title),
                    ),
                    "subject"@,
                    JsonView::Object(
                        json::put(
                            json::put(Seq::empty(), "type"@, JsonView::Str("tool_call"@)),
                            "toolCall"@,
                            asked_call(p),
                        ),
                    ),
                ),
                "options"@,
                asked_options(p),
            ),
            "_meta"@,
            json::opt_object(p.meta),
        ),
    )
}

/// The parameters of a question to the user.
pub fn permission_request(request: &PermissionRequestFact, protocol: Protocol) -> (r: Json)
    ensures
        r@ == (match protocol {
            Protocol::V1 => question_v1(request@),
            Protocol::V2 => question_v2(request@),
        }),
{
    broadcast use json::json_view;

    let call = Json::Object(
        JsonMap::new().with("toolCallId", Json::text(request.tool_call_id.as_str())).with(
            "title",
            Json::text(request.title.as_str()),
        ).with("rawInput", request.raw_input.clone()),
    );
    let opened = JsonMap::new().with("sessionId", Json::text(request.session_id.as_str()));
    let asked = if protocol.is_v2() {
        opened.with("title", Json::text(request.title.as_str())).with(
            "subject",
            Json::Object(
                JsonMap::new().with("type", Json::text("tool_call")).with("toolCall", call),
            ),
        )
    } else {
        opened.with("toolCall", call)
    };
    Json::Object(
        asked.with("options", permission_options_json(&request.options)).with_opt(
            "_meta",
            opt_object_json(&request.meta),
        ),
    )
}

// ---------------------------------------------------------------------------
// Everything a session sends
// ---------------------------------------------------------------------------

/// Whether a message is sent without a message id of its own.
pub open spec fn is_anonymous(m: OutboundView) -> bool {
    match m {
        OutboundView::TextChunk(c) => c.message_id is None,
        OutboundView::LinkChunk(l) => l.message_id is None,
        _ => false,
    }
}

/// The frames that tell a client what a session sends. A state of the
/// foreground work and a complete message exist on v2 alone, a mode on v1
/// alone.
pub open spec fn frames(m: OutboundView, protocol: Protocol, synthetic: Seq<char>) -> Seq<JsonView> {
    let v2 = protocol is V2;
    match m {
        OutboundView::SessionInfo(f) => seq![info(f)],
        OutboundView::Usage(f) => seq![usage(f)],
        OutboundView::Mode(session_id, mode_id) => if v2 {
            Seq::empty()
        } else {
            seq![mode(session_id, mode_id)]
        },
        OutboundView::ConfigOptions(session_id, os) => seq![options(session_id, os, v2)],
        OutboundView::AvailableCommands(session_id, cs) => seq![commands(session_id, cs, v2)],
        OutboundView::ToolCall(c) => seq![
            if v2 {
                call_v2(c)
            } else {
                call_v1(c)
            },
        ],
        OutboundView::LinkChunk(l) => seq![
            if v2 {
                link(l, Some(required_id(l.message_id, synthetic)))
            } else {
                link(l, l.message_id)
            },
        ],
        OutboundView::TextChunk(c) => seq![
            if v2 {
                chunk_v2(c, synthetic)
            } else {
                chunk_v1(c)
            },
        ],
        OutboundView::MessagePatch(p) => if v2 {
            seq![patch_v2(p)]
        } else {
            Seq::empty()
        },
        OutboundView::Foreground(session_id, state) => if v2 {
            seq![state_v2(session_id, state)]
        } else {
            Seq::empty()
        },
        OutboundView::BashToolCall(c) => seq![
            if v2 {
                bash_v2(c)
            } else {
                bash_v1(c)
            },
        ],
    }
}

/// Whether a message has to be made up before the message is rendered.
pub fn needs_synthetic_id(message: &OutboundMessage, protocol: Protocol) -> (r: bool)
    ensures
        r == (protocol is V2 && is_anonymous(message@)),
{
    if !protocol.is_v2() {
        return false;
    }
    match message {
        OutboundMessage::TextChunk(c) => c.message_id.is_none(),
        OutboundMessage::LinkChunk(l) => l.message_id.is_none(),
        _ => false,
    }
}

fn only(frame: Json) -> (r: Vec<Json>)
    ensures
        json::items_view(r@) == seq![frame@],
{
    let mut v: Vec<Json> = Vec::new();
    v.push(frame);
    assert(json::items_view(v@) =~= seq![v@[0]@]);
    v
}

fn nothing() -> (r: Vec<Json>)
    ensures
        json::items_view(r@) == Seq::<JsonView>::empty(),
{
    let v: Vec<Json> = Vec::new();
    assert(json::items_view(v@) =~= Seq::<JsonView>::empty());
    v
}

/// The frames for what a session sends, in the protocol of the connection;
/// `synthetic` is the message of a chunk that has none.
pub fn outbound_frames(message: &OutboundMessage, protocol: Protocol, synthetic: &str) -> (r: Vec<
    Json,
>)
    ensures
        json::items_view(r@) == frames(message@, protocol, synthetic@),
{
    let v2 = protocol.is_v2();
    match message {
        OutboundMessage::SessionInfo(fact) => only(session_info(fact)),
        OutboundMessage::Usage(fact) => only(usage_update(fact)),
        OutboundMessage::Mode(fact) => if v2 {
            nothing()
        } else {
            only(mode_v1(fact))
        },
        OutboundMessage::ConfigOptions(fact) => only(config_options(fact, v2)),
        OutboundMessage::AvailableCommands(fact) => only(available_commands(fact, v2)),
        OutboundMessage::ToolCall(fact) => only(
            if v2 {
                tool_call_v2(fact)
            } else {
                tool_call_v1(fact)
            },
        ),
        OutboundMessage::LinkChunk(fact) => only(
            if v2 {
                link_chunk_v2(fact, synthetic)
            } else {
                link_chunk_v1(fact)
            },
        ),
        OutboundMessage::TextChunk(fact) => only(
            if v2 {
                text_chunk_v2(fact, synthetic)
            } else {
                text_chunk_v1(fact)
            },
        ),
        OutboundMessage::MessagePatch(fact) => if v2 {
            only(message_patch_v2(fact))
        } else {
            nothing()
        },
        OutboundMessage::Foreground { session_id, state } => if v2 {
            only(foreground_v2(session_id.as_str(), *state))
        } else {
            nothing()
        },
        OutboundMessage::BashToolCall(fact) => if v2 {
            bash_v2_frames(fact)
        } else {
            bash_v1_frames(fact)
        },
    }
}

// ---------------------------------------------------------------------------
// Laws
// ---------------------------------------------------------------------------

/// The message that a frame says it belongs to.
pub open spec fn frame_message(f: JsonView) -> Option<Seq<char>> {
    match json::member(f, "update"@) {
        Some(u) => json::str_member(u, "messageId"@),
        None => None,
    }
}

proof fn frame_update(session_id: Seq<char>, members: MetaView)
    ensures
        json::member(frame(session_id, members), "update"@) == Some(JsonView::Object(members)),
{
    json::put_then_entry(
        json::put(Seq::empty(), "sessionId"@, JsonView::Str(session_id)),
        "update"@,
        JsonView::Object(members),
    );
}

/// On v2 every chunk of a message names the message it belongs to, also one
/// whose producer has no message.
pub proof fn v2_chunks_have_messages(c: TextChunkView, synthetic: Seq<char>)
    ensures
        frame_message(chunk_v2(c, synthetic)) == Some(required_id(c.message_id, synthetic)),
{
    reveal_strlit("_meta");
    reveal_strlit("messageId");
    let id = JsonView::Str(required_id(c.message_id, synthetic));
    let opened = json::put(update(chunk_update(c.kind)), "content"@, text_block(c.text));
    let members = chunk(
        chunk_update(c.kind),
        text_block(c.text),
        Some(required_id(c.message_id, synthetic)),
        c.meta,
    );
    frame_update(c.session_id, members);
    json::put_then_entry(opened, "messageId"@, id);
    assert("_meta"@.len() != "messageId"@.len());
    if let Some(m) = c.meta {
        json::put_keeps_others(
            json::put(opened, "messageId"@, id),
            "_meta"@,
            JsonView::Object(m),
            "messageId"@,
        );
    }
}

/// v1 never sees what only v2 has, and v2 never sees a mode.
pub proof fn protocols_keep_their_own(m: OutboundView, synthetic: Seq<char>)
    ensures
        m is MessagePatch || m is Foreground ==> frames(m, Protocol::V1, synthetic).len() == 0,
        m is MessagePatch || m is Foreground ==> frames(m, Protocol::V2, synthetic).len() == 1,
        m is Mode ==> frames(m, Protocol::V2, synthetic).len() == 0,
        m is Mode ==> frames(m, Protocol::V1, synthetic).len() == 1,
        !(m is MessagePatch || m is Foreground || m is Mode) ==> frames(
            m,
            Protocol::V1,
            synthetic,
        ).len() == 1 && frames(m, Protocol::V2, synthetic).len() == 1,
{
}

} // verus!
