//! An earlier conversation, told again.

use crate::json;
use crate::json::{Json, JsonView};
use crate::session::facts;
use crate::session::facts::{
    BashToolCall, BashToolCallView, BashToolStatus, OutboundMessage, OutboundView, TextChunk,
    TextChunkKind, TextChunkView, ToolCallFact, ToolCallView, ToolContentFact, ToolContentView,
    ToolLocationFact, ToolStatusFact,
};
use crate::agent::builtin;
use crate::text;
use crate::translate::bash;
use crate::translate::messages;
use crate::translate::messages::{ReplayMessage, ReplayView, ToolReplayView, ToolResultReplay};
use crate::translate::tools;
use vstd::prelude::*;
use vstd::string::*;

verus! {

/// A text of the conversation.
pub open spec fn spoken(session_id: Seq<char>, kind: TextChunkKind, text: Seq<char>) -> OutboundView {
    OutboundView::TextChunk(
        TextChunkView { session_id, message_id: None, kind, text, meta: None },
    )
}

/// The call that opens the terminal of a bash result, and the one that fills
/// and closes it.
pub open spec fn bash_messages(
    session_id: Seq<char>,
    cwd: Seq<char>,
    id: Seq<char>,
    t: ToolReplayView,
) -> Seq<OutboundView> {
    let opened = BashToolCallView {
        session_id,
        tool_call_id: id,
        command: t.title,
        cwd: Some(cwd),
        status: BashToolStatus::Completed,
        output: Seq::empty(),
        output_delta: Seq::empty(),
        exit_code: None,
        first: true,
    };
    seq![
        OutboundView::BashToolCall(opened),
        OutboundView::BashToolCall(
            BashToolCallView {
                status: if t.is_error {
                    BashToolStatus::Failed
                } else {
                    BashToolStatus::Completed
                },
                output: t.text,
                output_delta: t.text,
                exit_code: Some(bash::exit_code(t.raw, t.is_error)),
                first: false,
                ..opened
            },
        ),
    ]
}

/// The call that opens the result of another tool, and the one that shows its
/// outcome.
pub open spec fn tool_messages(session_id: Seq<char>, id: Seq<char>, t: ToolReplayView) -> Seq<
    OutboundView,
> {
    let opened = ToolCallView {
        session_id,
        tool_call_id: id,
        first: true,
        title: Some(t.title),
        kind: Some(tools::tool_kind(t.tool_name)),
        status: Some(ToolStatusFact::Completed),
        content: None,
        locations: Seq::empty(),
        raw_input: Some(JsonView::Null),
        raw_output: Some(t.raw),
        meta: None,
    };
    seq![
        OutboundView::ToolCall(opened),
        OutboundView::ToolCall(
            ToolCallView {
                first: false,
                title: None,
                kind: None,
                status: Some(
                    if t.is_error {
                        ToolStatusFact::Failed
                    } else {
                        ToolStatusFact::Completed
                    },
                ),
                content: if t.text.len() == 0 {
                    None
                } else {
                    Some(seq![ToolContentView::Text(t.text)])
                },
                raw_input: None,
                ..opened
            },
        ),
    ]
}

/// What is told of one message; `id` is the call of a tool's result.
pub open spec fn retold(session_id: Seq<char>, cwd: Seq<char>, id: Seq<char>, m: ReplayView) -> Seq<
    OutboundView,
> {
    match m {
        ReplayView::UserText(s) => seq![spoken(session_id, TextChunkKind::User, s)],
        ReplayView::AssistantText(s) => seq![spoken(session_id, TextChunkKind::Agent, s)],
        ReplayView::ToolResult(t) => if t.is_bash {
            bash_messages(session_id, cwd, id, t)
        } else {
            tool_messages(session_id, id, t)
        },
    }
}

/// The call with the given number among those without an id.
pub open spec fn made_up_id(n: nat) -> Seq<char> {
    "pi-replay-"@ + text::decimal(n)
}

/// Whether a message is the result of a call without an id.
pub open spec fn lacks_id(m: ReplayView) -> bool {
    match m {
        ReplayView::ToolResult(t) => t.tool_call_id is None,
        _ => false,
    }
}

/// How many of the messages are results of calls without an id.
pub open spec fn made_up(items: Seq<JsonView>) -> nat
    decreases items.len(),
{
    if items.len() == 0 {
        0
    } else {
        let before = made_up(items.drop_last());
        match messages::replayed(items.last()) {
            Some(m) => if lacks_id(m) {
                before + 1
            } else {
                before
            },
            None => before,
        }
    }
}

/// The call of a tool's result.
pub open spec fn call_id(m: ReplayView, number: nat) -> Seq<char> {
    match m {
        ReplayView::ToolResult(t) => match t.tool_call_id {
            Some(id) => id,
            None => made_up_id(number),
        },
        _ => Seq::empty(),
    }
}

/// What is told of a conversation, message by message.
pub open spec fn conversation(session_id: Seq<char>, cwd: Seq<char>, items: Seq<JsonView>) -> Seq<
    OutboundView,
>
    decreases items.len(),
{
    if items.len() == 0 {
        Seq::empty()
    } else {
        let before = conversation(session_id, cwd, items.drop_last());
        match messages::replayed(items.last()) {
            Some(m) => before + retold(session_id, cwd, call_id(m, made_up(items)), m),
            None => before,
        }
    }
}

/// The messages of a conversation.
pub open spec fn messages_in(data: JsonView) -> Seq<JsonView> {
    match json::array_member(data, "messages"@) {
        Some(items) => items,
        None => Seq::empty(),
    }
}

fn bash_pair(session_id: &str, cwd: &str, id: &str, t: &ToolResultReplay) -> (r: Vec<
    OutboundMessage,
>)
    ensures
        builtin::message_views(r@) == bash_messages(session_id@, cwd@, id@, t@),
{
    let opened = OutboundMessage::BashToolCall(
        BashToolCall {
            session_id: session_id.to_owned(),
            tool_call_id: id.to_owned(),
            command: t.title.clone(),
            cwd: Some(cwd.to_owned()),
            status: BashToolStatus::Completed,
            output: String::new(),
            output_delta: String::new(),
            exit_code: None,
            first: true,
        },
    );
    let closed = OutboundMessage::BashToolCall(
        BashToolCall {
            session_id: session_id.to_owned(),
            tool_call_id: id.to_owned(),
            command: t.title.clone(),
            cwd: Some(cwd.to_owned()),
            status: if t.is_error {
                BashToolStatus::Failed
            } else {
                BashToolStatus::Completed
            },
            output: t.text.clone(),
            output_delta: t.text.clone(),
            exit_code: Some(bash::bash_exit_code(&t.raw, t.is_error)),
            first: false,
        },
    );
    let mut v: Vec<OutboundMessage> = Vec::new();
    v.push(opened);
    v.push(closed);
    assert(builtin::message_views(v@) =~= bash_messages(session_id@, cwd@, id@, t@));
    v
}

fn tool_pair(session_id: &str, id: &str, t: &ToolResultReplay) -> (r: Vec<OutboundMessage>)
    ensures
        builtin::message_views(r@) == tool_messages(session_id@, id@, t@),
{
    broadcast use crate::json::json_view;

    let opened = OutboundMessage::ToolCall(
        ToolCallFact {
            session_id: session_id.to_owned(),
            tool_call_id: id.to_owned(),
            first: true,
            title: Some(t.title.clone()),
            kind: Some(tools::to_tool_kind(t.tool_name.as_str())),
            status: Some(ToolStatusFact::Completed),
            content: None,
            locations: Vec::new(),
            raw_input: Some(Json::Null),
            raw_output: Some(t.raw.clone()),
            meta: None,
        },
    );
    let content = if t.text.as_str().unicode_len() == 0 {
        None
    } else {
        let mut shown: Vec<ToolContentFact> = Vec::new();
        shown.push(ToolContentFact::Text(t.text.clone()));
        assert(facts::content_views(shown@) =~= seq![ToolContentView::Text(t.text@)]);
        Some(shown)
    };
    let closed = OutboundMessage::ToolCall(
        ToolCallFact {
            session_id: session_id.to_owned(),
            tool_call_id: id.to_owned(),
            first: false,
            title: None,
            kind: None,
            status: Some(
                if t.is_error {
                    ToolStatusFact::Failed
                } else {
                    ToolStatusFact::Completed
                },
            ),
            content,
            locations: Vec::new(),
            raw_input: None,
            raw_output: Some(t.raw.clone()),
            meta: None,
        },
    );
    let mut v: Vec<OutboundMessage> = Vec::new();
    v.push(opened);
    v.push(closed);
    proof {
        let none: Seq<ToolLocationFact> = Seq::empty();
        assert(facts::location_views(none) =~= Seq::<(Seq<char>, Option<u32>)>::empty());
    }
    assert(builtin::message_views(v@) =~= tool_messages(session_id@, id@, t@));
    v
}

/// What is told of one message; `id` is the call of a tool's result.
pub fn retell(session_id: &str, cwd: &str, id: &str, m: &ReplayMessage) -> (r: Vec<OutboundMessage>)
    ensures
        builtin::message_views(r@) == retold(session_id@, cwd@, id@, m@),
{
    match m {
        ReplayMessage::ToolResult(t) => {
            if t.is_bash {
                bash_pair(session_id, cwd, id, t)
            } else {
                tool_pair(session_id, id, t)
            }
        },
        ReplayMessage::UserText(s) => text_alone(session_id, TextChunkKind::User, s),
        ReplayMessage::AssistantText(s) => text_alone(session_id, TextChunkKind::Agent, s),
    }
}

fn text_alone(session_id: &str, kind: TextChunkKind, text: &String) -> (r: Vec<OutboundMessage>)
    ensures
        builtin::message_views(r@) == seq![spoken(session_id@, kind, text@)],
{
    let mut v: Vec<OutboundMessage> = Vec::new();
    v.push(
        OutboundMessage::TextChunk(
            TextChunk {
                session_id: session_id.to_owned(),
                message_id: None,
                kind,
                text: text.clone(),
                meta: None,
            },
        ),
    );
    assert(builtin::message_views(v@) =~= seq![spoken(session_id@, kind, text@)]);
    v
}

/// What is told of a conversation, given the answer to the request for its
/// messages.
pub fn replay_history(session_id: &str, cwd: &str, data: &Json) -> (r: Vec<OutboundMessage>)
    ensures
        builtin::message_views(r@) == conversation(session_id@, cwd@, messages_in(data@)),
{
    let mut out: Vec<OutboundMessage> = Vec::new();
    assert(builtin::message_views(out@) =~= Seq::<OutboundView>::empty());
    let items = match data.get_array("messages") {
        Some(items) => items,
        None => return out,
    };
    let ghost all = json::items_view(items@);
    let mut number: u64 = 0;
    let mut i: usize = 0;
    assert(all.take(0) =~= Seq::<JsonView>::empty());
    while i < items.len()
        invariant
            i <= items@.len(),
            all == json::items_view(items@),
            number <= i,
            number == made_up(all.take(i as int)),
            builtin::message_views(out@) == conversation(session_id@, cwd@, all.take(i as int)),
        decreases items.len() - i,
    {
        proof {
            assert(all.take(i + 1).drop_last() =~= all.take(i as int));
            assert(all.take(i + 1).last() == items@[i as int]@);
        }
        if let Some(m) = messages::replay_message(&items[i]) {
            let id: String = match &m {
                ReplayMessage::ToolResult(t) => match &t.tool_call_id {
                    Some(id) => id.clone(),
                    None => {
                        number = number + 1;
                        let shown = text::decimal_text(number);
                        text::cat2("pi-replay-", shown.as_str())
                    },
                },
                _ => String::new(),
            };
            let mut more = retell(session_id, cwd, id.as_str(), &m);
            let ghost a = out@;
            let ghost b = more@;
            out.append(&mut more);
            assert(builtin::message_views(a + b) =~= builtin::message_views(a)
                + builtin::message_views(b));
        }
        i += 1;
    }
    assert(all.take(i as int) =~= all);
    out
}

// ---------------------------------------------------------------------------
// Laws
// ---------------------------------------------------------------------------

/// A conversation is told in its order: what comes later is told behind what
/// came before.
pub proof fn conversations_keep_their_order(
    session_id: Seq<char>,
    cwd: Seq<char>,
    items: Seq<JsonView>,
    n: int,
)
    requires
        0 <= n <= items.len(),
    ensures
        conversation(session_id, cwd, items.take(n)).is_prefix_of(
            conversation(session_id, cwd, items),
        ),
    decreases items.len() - n,
{
    if n < items.len() {
        conversations_keep_their_order(session_id, cwd, items, n + 1);
        let more = items.take(n + 1);
        assert(more.drop_last() =~= items.take(n));
    } else {
        assert(items.take(n) =~= items);
    }
}

/// Calls whose ids are made up are different calls.
pub proof fn made_up_ids_are_fresh(a: nat, b: nat)
    requires
        made_up_id(a) == made_up_id(b),
    ensures
        a == b,
{
    let prefix = "pi-replay-"@;
    assert(made_up_id(a).skip(prefix.len() as int) =~= text::decimal(a));
    assert(made_up_id(b).skip(prefix.len() as int) =~= text::decimal(b));
    text::decimal_reads_back(a);
    text::decimal_reads_back(b);
}

/// A result without an id gets a number that no earlier one has.
pub proof fn numbers_grow(items: Seq<JsonView>, n: int)
    requires
        0 <= n < items.len(),
        messages::replayed(items.last()) is Some,
        lacks_id(messages::replayed(items.last())->0),
    ensures
        made_up(items.take(n)) < made_up(items),
    decreases items.len() - n,
{
    made_up_counts_up(items.drop_last(), n);
    assert(items.drop_last().take(n) =~= items.take(n));
}

proof fn made_up_counts_up(items: Seq<JsonView>, n: int)
    requires
        0 <= n <= items.len(),
    ensures
        made_up(items.take(n)) <= made_up(items),
    decreases items.len() - n,
{
    if n < items.len() {
        made_up_counts_up(items, n + 1);
        assert(items.take(n + 1).drop_last() =~= items.take(n));
    } else {
        assert(items.take(n) =~= items);
    }
}

/// Everything that frames bring to the terminal of a call.
pub open spec fn brought(frames: Seq<OutboundView>, id: Seq<char>) -> Seq<char>
    decreases frames.len(),
{
    if frames.len() == 0 {
        Seq::empty()
    } else {
        let before = brought(frames.drop_last(), id);
        match frames.last() {
            OutboundView::BashToolCall(f) => if f.tool_call_id == id {
                before + f.output_delta
            } else {
                before
            },
            _ => before,
        }
    }
}

proof fn brought_push(frames: Seq<OutboundView>, f: BashToolCallView, id: Seq<char>)
    requires
        f.tool_call_id == id,
    ensures
        brought(frames.push(OutboundView::BashToolCall(f)), id) == brought(frames, id)
            + f.output_delta,
{
    assert(frames.push(OutboundView::BashToolCall(f)).drop_last() =~= frames);
}

proof fn one_more_message(session_id: Seq<char>, cwd: Seq<char>, items: Seq<JsonView>, m: JsonView)
    ensures
        conversation(session_id, cwd, items.push(m)) == (match messages::replayed(m) {
            Some(r) => conversation(session_id, cwd, items) + retold(
                session_id,
                cwd,
                call_id(r, made_up(items.push(m))),
                r,
            ),
            None => conversation(session_id, cwd, items),
        }),
{
    assert(items.push(m).drop_last() =~= items);
}

/// A result of a bash call is told again whole: the frames told for its call
/// bring the text of the result to the terminal, behind what they brought
/// before. The terminal is opened for the command in the session's directory,
/// and closed with the outcome and the exit code.
pub proof fn a_replayed_terminal_is_filled(
    session_id: Seq<char>,
    cwd: Seq<char>,
    items: Seq<JsonView>,
    m: JsonView,
    id: Seq<char>,
    name: Seq<char>,
)
    requires
        json::member(m, "role"@) == Some(JsonView::Str("toolResult"@)),
        json::member(m, "toolName"@) == Some(JsonView::Str(name)),
        json::member(m, "toolCallId"@) == Some(JsonView::Str(id)),
        text::ascii_lowered(name) == "bash"@,
    ensures
        ({
            let before = conversation(session_id, cwd, items);
            let told = conversation(session_id, cwd, items.push(m));
            &&& told.len() == before.len() + 2
            &&& before.is_prefix_of(told)
            &&& brought(told, id) == brought(before, id) + bash::terminal_text(m)
            &&& told[before.len() as int] matches OutboundView::BashToolCall(f) && f.session_id
                == session_id && f.tool_call_id == id && f.cwd == Some(cwd) && f.first && (
            bash::command_of(m) matches Some(c) ==> f.command == c)
            &&& told.last() matches OutboundView::BashToolCall(f) && f.session_id == session_id
                && f.tool_call_id == id && !f.first && f.output == bash::terminal_text(m)
                && f.exit_code is Some && f.exit_code == Some(
                bash::exit_code(m, json::bool_member(m, "isError"@) == Some(true)),
            ) && f.status == (if json::member(m, "isError"@) == Some(JsonView::Bool(true)) {
                BashToolStatus::Failed
            } else {
                BashToolStatus::Completed
            })
        }),
{
    reveal_strlit("user");
    reveal_strlit("assistant");
    reveal_strlit("toolResult");
    assert("toolResult"@.len() == 10 && "user"@.len() == 4 && "assistant"@.len() == 9);
    reveal_strlit("bash");
    assert(text::ascii_lowered("bash"@) =~= "bash"@);
    one_more_message(session_id, cwd, items, m);
    let before = conversation(session_id, cwd, items);
    let told = conversation(session_id, cwd, items.push(m));
    let t = messages::tool_replay(m);
    let pair = bash_messages(session_id, cwd, id, t);
    assert(told == before + pair);
    if let (OutboundView::BashToolCall(a), OutboundView::BashToolCall(b)) = (pair[0], pair[1]) {
        brought_push(before, a, id);
        brought_push(before.push(pair[0]), b, id);
        assert(told =~= before.push(pair[0]).push(pair[1]));
        assert(brought(told, id) =~= brought(before, id) + bash::terminal_text(m));
    }
}

/// A result of another tool is told again under its call: first opened under
/// the tool's name, then closed with its text, its outcome and all of it as pi
/// gave it.
pub proof fn a_replayed_result_is_shown(
    session_id: Seq<char>,
    cwd: Seq<char>,
    items: Seq<JsonView>,
    m: JsonView,
    id: Seq<char>,
    name: Seq<char>,
)
    requires
        json::member(m, "role"@) == Some(JsonView::Str("toolResult"@)),
        json::member(m, "toolName"@) == Some(JsonView::Str(name)),
        json::member(m, "toolCallId"@) == Some(JsonView::Str(id)),
        text::ascii_lowered(name) != "bash"@,
    ensures
        ({
            let before = conversation(session_id, cwd, items);
            let told = conversation(session_id, cwd, items.push(m));
            let shown = tools::result_text(m);
            &&& told.len() == before.len() + 2
            &&& before.is_prefix_of(told)
            &&& told[before.len() as int] matches OutboundView::ToolCall(f) && f.session_id
                == session_id && f.tool_call_id == id && f.first && f.title == Some(name)
                && f.kind == Some(tools::tool_kind(name))
            &&& told.last() matches OutboundView::ToolCall(f) && f.session_id == session_id
                && f.tool_call_id == id && !f.first && f.raw_output == Some(m) && f.status == Some(
                if json::member(m, "isError"@) == Some(JsonView::Bool(true)) {
                    ToolStatusFact::Failed
                } else {
                    ToolStatusFact::Completed
                },
            ) && f.content == if shown.len() == 0 {
                None
            } else {
                Some(seq![ToolContentView::Text(shown)])
            }
        }),
{
    reveal_strlit("user");
    reveal_strlit("assistant");
    reveal_strlit("toolResult");
    assert("toolResult"@.len() == 10 && "user"@.len() == 4 && "assistant"@.len() == 9);
    reveal_strlit("bash");
    assert(text::ascii_lowered("bash"@) =~= "bash"@);
    one_more_message(session_id, cwd, items, m);
    let before = conversation(session_id, cwd, items);
    let told = conversation(session_id, cwd, items.push(m));
    let pair = tool_messages(session_id, id, messages::tool_replay(m));
    assert(told == before + pair);
    assert(told.last() == pair[1]);
    assert(told[before.len() as int] == pair[0]);
}

/// What the user and the assistant said is told again word for word, behind
/// what came before, each on its own stream; what has no text is not told.
pub proof fn what_was_said_is_told_again(
    session_id: Seq<char>,
    cwd: Seq<char>,
    items: Seq<JsonView>,
    m: JsonView,
    by_user: bool,
    parts: Seq<JsonView>,
    texts: Seq<Seq<char>>,
)
    requires
        json::member(m, "role"@) == Some(
            JsonView::Str(
                if by_user {
                    "user"@
                } else {
                    "assistant"@
                },
            ),
        ),
        json::member(m, "content"@) == Some(JsonView::Array(parts)),
        parts.len() == texts.len(),
        forall|k: int|
            0 <= k < parts.len() ==> crate::translate::blocks::is_text(
                #[trigger] parts[k],
                texts[k],
            ),
    ensures
        ({
            let before = conversation(session_id, cwd, items);
            let told = conversation(session_id, cwd, items.push(m));
            let said = text::joined(texts, Seq::empty());
            if said.len() == 0 {
                told == before
            } else {
                told == before.push(
                    OutboundView::TextChunk(
                        TextChunkView {
                            session_id,
                            message_id: None,
                            kind: if by_user {
                                TextChunkKind::User
                            } else {
                                TextChunkKind::Agent
                            },
                            text: said,
                            meta: None,
                        },
                    ),
                )
            }
        }),
{
    reveal_strlit("user");
    reveal_strlit("assistant");
    assert("user"@.len() == 4 && "assistant"@.len() == 9);
    reveal_strlit("");
    assert(""@ =~= Seq::<char>::empty());
    crate::translate::blocks::texts_are_read_in_order(parts, texts);
    one_more_message(session_id, cwd, items, m);
    let before = conversation(session_id, cwd, items);
    let told = conversation(session_id, cwd, items.push(m));
    if text::joined(texts, Seq::empty()).len() > 0 {
        assert(told =~= before.push(told.last()));
    }
}

/// A message of the user that is one text is told again as that text.
pub proof fn what_the_user_wrote_is_told_again(
    session_id: Seq<char>,
    cwd: Seq<char>,
    items: Seq<JsonView>,
    m: JsonView,
    said: Seq<char>,
)
    requires
        json::member(m, "role"@) == Some(JsonView::Str("user"@)),
        json::member(m, "content"@) == Some(JsonView::Str(said)),
        said.len() > 0,
    ensures
        conversation(session_id, cwd, items.push(m)) == conversation(session_id, cwd, items).push(
            OutboundView::TextChunk(
                TextChunkView {
                    session_id,
                    message_id: None,
                    kind: TextChunkKind::User,
                    text: said,
                    meta: None,
                },
            ),
        ),
{
    one_more_message(session_id, cwd, items, m);
    let told = conversation(session_id, cwd, items.push(m));
    assert(told =~= conversation(session_id, cwd, items).push(told.last()));
}

/// Messages of other kinds are not told.
pub proof fn other_messages_are_not_told(
    session_id: Seq<char>,
    cwd: Seq<char>,
    items: Seq<JsonView>,
    m: JsonView,
)
    requires
        json::member(m, "role"@) != Some(JsonView::Str("user"@)),
        json::member(m, "role"@) != Some(JsonView::Str("assistant"@)),
        json::member(m, "role"@) != Some(JsonView::Str("toolResult"@)),
    ensures
        conversation(session_id, cwd, items.push(m)) == conversation(session_id, cwd, items),
{
    one_more_message(session_id, cwd, items, m);
}

} // verus!
