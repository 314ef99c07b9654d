//! What a session tells of what pi reports, event by event.

use crate::json;
use crate::json::{Json, JsonView};
use crate::path;
use crate::pi::events::{AssistantMessageEvent, ExtensionUiRequest, RpcEvent};
use crate::pi::rpc;
use crate::pi::rpc::{CompactionReason, ThinkingLevel, Usage};
use crate::session::facts::{
    BashToolCallView, BashToolStatus, OutboundView, SessionInfoView, TextChunkKind, TextChunkView,
    ToolCallView, ToolContentView, ToolKindFact, ToolStatusFact, UsageView,
};
use crate::session::failure;
use crate::session::pump;
use crate::session::pump::{ActionView, Pump, PumpView};
use crate::text;
use crate::translate::bash;
use crate::translate::tools;
use vstd::prelude::*;

verus! {

/// `q` has done one thing more than `p`: it told `m`.
pub open spec fn tells(p: PumpView, q: PumpView, m: OutboundView) -> bool {
    q.out == p.out.push(ActionView::Emit(m))
}

/// The frame of a tool call that `q` told, and nothing else.
pub open spec fn call_frame(p: PumpView, q: PumpView) -> Option<ToolCallView> {
    if q.out.len() == p.out.len() + 1 && q.out.take(p.out.len() as int) == p.out {
        match q.out.last() {
            ActionView::Emit(OutboundView::ToolCall(f)) => Some(f),
            _ => None,
        }
    } else {
        None
    }
}

/// The frame of a bash call that `q` told, and nothing else.
pub open spec fn bash_frame(p: PumpView, q: PumpView) -> Option<BashToolCallView> {
    if q.out.len() == p.out.len() + 1 && q.out.take(p.out.len() as int) == p.out {
        match q.out.last() {
            ActionView::Emit(OutboundView::BashToolCall(f)) => Some(f),
            _ => None,
        }
    } else {
        None
    }
}

proof fn one_more(p: PumpView, q: PumpView, a: ActionView)
    requires
        q.out == p.out.push(a),
    ensures
        q.out.len() == p.out.len() + 1,
        q.out.take(p.out.len() as int) == p.out,
        q.out.last() == a,
{
    assert(q.out.take(p.out.len() as int) =~= p.out);
}

// ---------------------------------------------------------------------------
// Calls that change files
// ---------------------------------------------------------------------------

/// Whether an event begins or ends a call, or announces it as a bash call.
pub open spec fn about_call(ev: RpcEvent, id: Seq<char>) -> bool {
    match ev {
        RpcEvent::ToolExecutionStart { tool_call_id, .. } => tool_call_id@ == id,
        RpcEvent::ToolExecutionEnd { tool_call_id, .. } => tool_call_id@ == id,
        RpcEvent::MessageUpdate { assistant_message_event, .. } => match assistant_message_event {
            AssistantMessageEvent::ToolcallStart { .. } => true,
            AssistantMessageEvent::ToolcallEnd { .. } => true,
            _ => false,
        },
        _ => false,
    }
}

#[verifier::rlimit(40)]
proof fn other_events_keep_the_call(
    p: PumpView,
    ev: RpcEvent,
    now: Seq<char>,
    echo: bool,
    file: Option<Seq<char>>,
    id: Seq<char>,
)
    requires
        !about_call(ev, id),
        !p.tool(id).bash,
    ensures
        p.on_event(ev, now, echo, file).tool(id) == p.tool(id),
        p.on_event(ev, now, echo, file).session_id == p.session_id,
        p.on_event(ev, now, echo, file).cwd == p.cwd,
        p.on_event(ev, now, echo, file).windows == p.windows,
{
    match ev {
        RpcEvent::AgentSettled => {
            crate::session::laws::settled_keeps_tools(p);
            settled_keeps_place(p);
        },
        RpcEvent::MessageEnd { message } => {
            crate::session::laws::message_end_keeps_tools(p, message@);
            message_end_keeps_place(p, message@);
        },
        RpcEvent::MessageUpdate { usage, assistant_message_event } => {
            let q = p.on_usage(pump::report_of(usage));
            assert(kept(p, q, id));
            part_keeps_the_call(q, assistant_message_event, id);
        },
        RpcEvent::ToolExecutionStart { tool_call_id, tool_name, args } => {
            start_keeps_others(p, tool_call_id@, tool_name@, args@, file, id);
        },
        RpcEvent::ToolExecutionUpdate { tool_call_id, partial_result, .. } => {
            update_keeps_the_call(p, tool_call_id@, partial_result@, id);
        },
        RpcEvent::ToolExecutionEnd { tool_call_id, result, is_error, .. } => {
            end_keeps_others(p, tool_call_id@, result@, is_error, file, id);
        },
        RpcEvent::BashExecutionUpdate { id: other, delta } => {
            output_keeps_the_call(p, text::opt_text(other), delta@, id);
        },
        RpcEvent::Unknown { raw } => {
            if let Some(t) = failure::unknown_error(raw@) {
                error_keeps_the_call(p, t, id);
            }
        },
        _ => {},
    }
}

/// What is remembered of a call, and where the session is, are as before.
spec fn kept(p: PumpView, q: PumpView, id: Seq<char>) -> bool {
    &&& q.tool(id) == p.tool(id)
    &&& q.session_id == p.session_id
    &&& q.cwd == p.cwd
    &&& q.windows == p.windows
}

proof fn error_keeps_the_call(p: PumpView, t: Seq<char>, id: Seq<char>)
    ensures
        kept(p, p.on_error(t), id),
{
}

proof fn message_end_keeps_place(p: PumpView, message: JsonView)
    ensures
        p.on_message_end(message).session_id == p.session_id,
        p.on_message_end(message).cwd == p.cwd,
        p.on_message_end(message).windows == p.windows,
{
}

proof fn part_keeps_the_call(p: PumpView, e: AssistantMessageEvent, id: Seq<char>)
    requires
        !(e is ToolcallStart) && !(e is ToolcallEnd),
    ensures
        kept(p, p.on_part(e), id),
{
    if let AssistantMessageEvent::Error { reason, error } = e {
        error_keeps_the_call(p, failure::assistant_error(reason@, error@), id);
    }
}

proof fn start_keeps_others(
    p: PumpView,
    other: Seq<char>,
    name: Seq<char>,
    args: JsonView,
    file: Option<Seq<char>>,
    id: Seq<char>,
)
    requires
        other != id,
    ensures
        kept(p, p.on_tool_start(other, name, args, file), id),
{
}

proof fn update_keeps_the_call(p: PumpView, other: Seq<char>, partial: JsonView, id: Seq<char>)
    requires
        !p.tool(id).bash,
    ensures
        kept(p, p.on_tool_update(other, partial), id),
{
}

proof fn end_keeps_others(
    p: PumpView,
    other: Seq<char>,
    result: JsonView,
    is_error: bool,
    file: Option<Seq<char>>,
    id: Seq<char>,
)
    requires
        other != id,
    ensures
        kept(p, p.on_tool_end(other, result, is_error, file), id),
{
}

proof fn output_keeps_the_call(
    p: PumpView,
    other: Option<Seq<char>>,
    delta: Seq<char>,
    id: Seq<char>,
)
    requires
        !p.tool(id).bash,
    ensures
        kept(p, p.on_bash_output(other, delta), id),
{
}

proof fn settled_keeps_place(p: PumpView)
    ensures
        p.on_agent_settled().session_id == p.session_id,
        p.on_agent_settled().cwd == p.cwd,
        p.on_agent_settled().windows == p.windows,
{
}

/// A call that changes a file is shown by the change it made. The file read as
/// `before` when the call began (`None`: there was none), and as `after` when
/// it ended: the frame that ends the call shows exactly one change, from the
/// one to the other, under the path that the call named, whatever else
/// happened meanwhile. The same file is read both times.
pub proof fn a_change_is_shown(
    p: PumpView,
    id: String,
    name: String,
    args: Json,
    path: Seq<char>,
    before: Option<Seq<char>>,
    meanwhile: RpcEvent,
    other: Option<Seq<char>>,
    result: Json,
    after: Seq<char>,
    now: Seq<char>,
    echo: bool,
)
    requires
        id@.len() > 0,
        name@ == "edit"@ || name@ == "write"@,
        json::member(args@, "path"@) == Some(JsonView::Str(path)),
        path.len() > 0,
        !p.tool(id@).bash,
        !about_call(meanwhile, id@),
        before != Some(after),
    ensures
        ({
            let start = RpcEvent::ToolExecutionStart { tool_call_id: id, tool_name: name, args };
            let end = RpcEvent::ToolExecutionEnd {
                tool_call_id: id,
                tool_name: name,
                result,
                is_error: false,
            };
            let begun = p.on_event(start, now, echo, before).on_event(meanwhile, now, echo, other);
            let ended = begun.on_event(end, now, echo, Some(after));
            &&& Pump::wanted_file(p, start) == Some(path::resolved(p.cwd, path, p.windows))
            &&& Pump::wanted_file(begun, end) == Some(path::resolved(p.cwd, path, p.windows))
            &&& call_frame(begun, ended) matches Some(f) && f.session_id == p.session_id
                && f.tool_call_id == id@ && f.status == Some(ToolStatusFact::Completed)
                && f.content == Some(
                seq![ToolContentView::Diff { path, new_text: after, old_text: before }],
            )
        }),
{
    let start = RpcEvent::ToolExecutionStart { tool_call_id: id, tool_name: name, args };
    let end = RpcEvent::ToolExecutionEnd {
        tool_call_id: id,
        tool_name: name,
        result,
        is_error: false,
    };
    let begun = p.on_event(start, now, echo, before);
    not_bash();
    assert(tools::path_of(args@) == Some(path));
    assert(begun.tool(id@).snapshot == Some((path, before)));
    other_events_keep_the_call(begun, meanwhile, now, echo, other, id@);
    let then = begun.on_event(meanwhile, now, echo, other);
    assert(then.tool(id@) == begun.tool(id@));
    let ended = then.on_event(end, now, echo, Some(after));
    one_more(then, ended, ended.out.last());
}

proof fn not_bash()
    ensures
        !bash::names_bash("edit"@),
        !bash::names_bash("write"@),
{
    reveal_strlit("edit");
    reveal_strlit("write");
    reveal_strlit("bash");
    assert(text::ascii_lowered("edit"@)[0] == 'e');
    assert(text::ascii_lowered("bash"@)[0] == 'b');
    assert(text::ascii_lowered("write"@)[0] == 'w');
}

/// A call that left its file as it was shows no change, and neither does one
/// that failed: the frame that ends it shows its result, as pi gave it.
pub proof fn no_change_is_made_up(
    p: PumpView,
    id: String,
    name: String,
    args: Json,
    before: Option<Seq<char>>,
    result: Json,
    is_error: bool,
    after: Option<Seq<char>>,
    now: Seq<char>,
    echo: bool,
)
    requires
        id@.len() > 0,
        name@ == "edit"@ || name@ == "write"@,
        !p.tool(id@).bash,
        is_error || after == before || after is None,
        json::member(args@, "path"@) is Some,
    ensures
        ({
            let start = RpcEvent::ToolExecutionStart { tool_call_id: id, tool_name: name, args };
            let end = RpcEvent::ToolExecutionEnd {
                tool_call_id: id,
                tool_name: name,
                result,
                is_error,
            };
            let begun = p.on_event(start, now, echo, before);
            let ended = begun.on_event(end, now, echo, after);
            tools::path_of(args@) is Some ==> (call_frame(begun, ended) matches Some(f)
                && f.raw_output == Some(result@) && (f.content matches Some(shown) ==> shown.len()
                == 1 && shown[0] is Text))
        }),
{
    let start = RpcEvent::ToolExecutionStart { tool_call_id: id, tool_name: name, args };
    let end = RpcEvent::ToolExecutionEnd { tool_call_id: id, tool_name: name, result, is_error };
    let begun = p.on_event(start, now, echo, before);
    not_bash();
    let ended = begun.on_event(end, now, echo, after);
    one_more(begun, ended, ended.out.last());
}

// ---------------------------------------------------------------------------
// Calls
// ---------------------------------------------------------------------------

/// A call that begins is shown as running, with its arguments, and with its
/// name when nothing was told of it before. It points at the file that its
/// arguments name, below the session's directory.
pub proof fn a_call_that_begins_is_shown(
    p: PumpView,
    id: String,
    name: String,
    args: Json,
    file: Option<Seq<char>>,
    now: Seq<char>,
    echo: bool,
)
    requires
        !bash::names_bash(name@),
    ensures
        ({
            let start = RpcEvent::ToolExecutionStart { tool_call_id: id, tool_name: name, args };
            let begun = p.on_event(start, now, echo, file);
            &&& call_frame(p, begun) matches Some(f) && f.session_id == p.session_id
                && f.tool_call_id == id@ && f.status == Some(ToolStatusFact::InProgress)
                && f.raw_input == Some(args@) && f.raw_output is None && f.content is None
                && f.first == !p.tracks(id@) && (f.first ==> f.title == Some(name@)) && (
            json::member(args@, "path"@) matches Some(JsonView::Str(at)) ==> at.len() > 0
                ==> f.locations.len() == 1 && f.locations[0].0 == path::resolved(
                p.cwd,
                at,
                p.windows,
            ))
            &&& begun.tracks(id@)
        }),
{
    let start = RpcEvent::ToolExecutionStart { tool_call_id: id, tool_name: name, args };
    let begun = p.on_event(start, now, echo, file);
    one_more(p, begun, begun.out.last());
}

/// The line that a frame points at is that of the text to be replaced, when it
/// occurs once: as many lines come before it as there are line ends before it.
pub proof fn an_edit_points_at_its_line(
    p: PumpView,
    id: String,
    name: String,
    args: Json,
    front: Seq<char>,
    old_text: Seq<char>,
    rest: Seq<char>,
    at: Seq<char>,
    now: Seq<char>,
    echo: bool,
)
    requires
        name@ == "edit"@,
        json::member(args@, "path"@) == Some(JsonView::Str(at)),
        at.len() > 0,
        json::member(args@, "oldText"@) == Some(JsonView::Str(old_text)),
        json::member(args@, "newText"@) matches Some(JsonView::Str(_)),
        old_text.len() > 0,
        tools::newlines(front) + 1 <= u32::MAX,
        forall|j: int|
            #[trigger] text::occurs_at(front + old_text + rest, old_text, j) ==> j == front.len(),
    ensures
        ({
            let start = RpcEvent::ToolExecutionStart { tool_call_id: id, tool_name: name, args };
            let begun = p.on_event(start, now, echo, Some(front + old_text + rest));
            call_frame(p, begun) matches Some(f) && f.locations.len() == 1 && f.locations[0].1
                == Some((tools::newlines(front) + 1) as u32)
        }),
{
    let file = front + old_text + rest;
    let start = RpcEvent::ToolExecutionStart { tool_call_id: id, tool_name: name, args };
    let begun = p.on_event(start, now, echo, Some(file));
    not_bash();
    one_more(p, begun, begun.out.last());
    assert(file.subrange(front.len() as int, (front.len() + old_text.len()) as int) =~= old_text);
    assert(text::occurs_at(file, old_text, front.len() as int));
    assert(tools::occurs_only_at(file, old_text, front.len() as int));
    let i = choose|i: int| tools::occurs_only_at(file, old_text, i);
    assert(tools::occurs_only_at(file, old_text, i));
    assert(i == front.len());
    assert(file.take(front.len() as int) =~= front);
    assert(tools::unique_line(file, old_text) == Some(tools::newlines(front) + 1));
    let needles = tools::mentioned_old_texts(
        args@,
        tools::edits_source(args@),
        tools::written_edits(args@),
    );
    assert(needles[0] == old_text);
    first_stays_first(needles);
    assert(tools::path_of(args@) is Some);
    assert(pump::edit_line(file, tools::distinct(needles)) == Some(
        (tools::newlines(front) + 1) as u32,
    ));
}

proof fn first_stays_first(s: Seq<Seq<char>>)
    requires
        s.len() > 0,
    ensures
        tools::distinct(s).len() > 0,
        tools::distinct(s)[0] == s[0],
    decreases s.len(),
{
    if s.len() > 1 {
        first_stays_first(s.drop_last());
    } else {
        assert(tools::distinct(s.drop_last()) =~= Seq::<Seq<char>>::empty());
    }
}

/// A call that ended is shown as failed exactly when it failed, with its
/// result, and is forgotten.
pub proof fn a_call_that_ends_is_shown(
    p: PumpView,
    id: String,
    name: String,
    result: Json,
    is_error: bool,
    file: Option<Seq<char>>,
    now: Seq<char>,
    echo: bool,
)
    requires
        id@.len() > 0,
        !p.tool(id@).bash,
    ensures
        ({
            let end = RpcEvent::ToolExecutionEnd {
                tool_call_id: id,
                tool_name: name,
                result,
                is_error,
            };
            let ended = p.on_event(end, now, echo, file);
            &&& call_frame(p, ended) matches Some(f) && f.session_id == p.session_id
                && f.tool_call_id == id@ && f.status == Some(
                if is_error {
                    ToolStatusFact::Failed
                } else {
                    ToolStatusFact::Completed
                },
            ) && !f.first && (p.tool(id@).snapshot is None ==> f.raw_output == Some(result@)
                && shows_text(f, tools::result_text(result@)))
            &&& !ended.tracks(id@)
            &&& forall|other: Seq<char>|
                other != id@ ==> #[trigger] ended.tool(other) == p.tool(other)
        }),
{
    let end = RpcEvent::ToolExecutionEnd { tool_call_id: id, tool_name: name, result, is_error };
    let ended = p.on_event(end, now, echo, file);
    one_more(p, ended, ended.out.last());
}

/// A frame that shows a text and nothing else; a text without characters is
/// not shown.
pub open spec fn shows_text(f: ToolCallView, t: Seq<char>) -> bool {
    if t.len() == 0 {
        f.content is None
    } else {
        f.content matches Some(shown) && shown.len() == 1 && shown[0] == ToolContentView::Text(t)
    }
}

/// What a running call has so far is shown as it is.
pub proof fn a_partial_result_is_shown(
    p: PumpView,
    id: String,
    name: String,
    args: Json,
    partial: Json,
    file: Option<Seq<char>>,
    now: Seq<char>,
    echo: bool,
)
    requires
        id@.len() > 0,
        !p.tool(id@).bash,
        !p.tool(id@).mutates,
    ensures
        ({
            let update = RpcEvent::ToolExecutionUpdate {
                tool_call_id: id,
                tool_name: name,
                args,
                partial_result: partial,
            };
            let shown = p.on_event(update, now, echo, file);
            &&& call_frame(p, shown) matches Some(f) && f.session_id == p.session_id
                && f.tool_call_id == id@ && f.status == Some(ToolStatusFact::InProgress)
                && !f.first && f.raw_output == Some(partial@) && shows_text(
                f,
                tools::result_text(partial@),
            )
            &&& shown.tools == p.tools
        }),
{
    let update = RpcEvent::ToolExecutionUpdate {
        tool_call_id: id,
        tool_name: name,
        args,
        partial_result: partial,
    };
    let shown = p.on_event(update, now, echo, file);
    one_more(p, shown, shown.out.last());
}

/// A call that the assistant wrote is announced under its id, with its name
/// and its arguments, before it runs.
pub proof fn a_written_call_is_announced(
    p: PumpView,
    id: Seq<char>,
    name: Seq<char>,
    arguments: Seq<(Seq<char>, JsonView)>,
    tool_call: Json,
)
    requires
        id.len() > 0,
        !p.tracks(id),
        !bash::names_bash(name),
        json::member(tool_call@, "id"@) == Some(JsonView::Str(id)),
        json::member(tool_call@, "name"@) == Some(JsonView::Str(name)),
        json::member(tool_call@, "arguments"@) == Some(JsonView::Object(arguments)),
    ensures
        ({
            let e = AssistantMessageEvent::ToolcallEnd { content_index: 0, tool_call };
            let q = p.on_part(e);
            &&& call_frame(p, q) matches Some(f) && f.session_id == p.session_id && f.tool_call_id
                == id && f.first && f.status == Some(ToolStatusFact::Pending) && f.title == Some(
                name,
            ) && f.raw_input == Some(JsonView::Object(arguments)) && f.kind == Some(
                tools::tool_kind(name),
            )
            &&& q.tracks(id)
        }),
{
    let e = AssistantMessageEvent::ToolcallEnd { content_index: 0, tool_call };
    let q = p.on_part(e);
    one_more(p, q, q.out.last());
}

/// Tools that read, change and run have their kinds.
pub proof fn tools_have_kinds()
    ensures
        tools::tool_kind("read"@) == ToolKindFact::Read,
        tools::tool_kind("edit"@) == ToolKindFact::Edit,
        tools::tool_kind("write"@) == ToolKindFact::Edit,
        tools::tool_kind("bash"@) == ToolKindFact::Execute,
        forall|name: Seq<char>|
            name != "read"@ && name != "edit"@ && name != "write"@ && name != "bash"@
                ==> #[trigger] tools::tool_kind(name) == ToolKindFact::Other,
{
    reveal_strlit("read");
    reveal_strlit("edit");
    reveal_strlit("write");
    reveal_strlit("bash");
    assert("read"@[0] == 'r' && "edit"@[0] == 'e' && "write"@[0] == 'w' && "bash"@[0] == 'b');
}

// ---------------------------------------------------------------------------
// Terminals
// ---------------------------------------------------------------------------

/// Everything that the frames of a call brought to its terminal.
pub open spec fn brought(out: Seq<ActionView>, id: Seq<char>) -> Seq<char>
    decreases out.len(),
{
    if out.len() == 0 {
        Seq::empty()
    } else {
        let before = brought(out.drop_last(), id);
        match out.last() {
            ActionView::Emit(OutboundView::BashToolCall(f)) => if f.tool_call_id == id {
                before + f.output_delta
            } else {
                before
            },
            _ => before,
        }
    }
}

proof fn brought_push(out: Seq<ActionView>, a: ActionView, id: Seq<char>)
    ensures
        brought(out.push(a), id) == (match a {
            ActionView::Emit(OutboundView::BashToolCall(f)) => if f.tool_call_id == id {
                brought(out, id) + f.output_delta
            } else {
                brought(out, id)
            },
            _ => brought(out, id),
        }),
{
    assert(out.push(a).drop_last() =~= out);
}

/// A bash call that begins opens a terminal for its command, in the session's
/// directory, and brings no output yet.
pub proof fn a_command_opens_a_terminal(
    p: PumpView,
    id: String,
    name: String,
    args: Json,
    command: Seq<char>,
    file: Option<Seq<char>>,
    now: Seq<char>,
    echo: bool,
)
    requires
        text::ascii_lowered(name@) == "bash"@,
        json::member(args@, "command"@) == Some(JsonView::Str(command)),
        text::trimmed(command).len() > 0,
    ensures
        ({
            let start = RpcEvent::ToolExecutionStart { tool_call_id: id, tool_name: name, args };
            let begun = p.on_event(start, now, echo, file);
            &&& bash_frame(p, begun) matches Some(f) && f.session_id == p.session_id
                && f.tool_call_id == id@ && f.command == command && f.cwd == Some(p.cwd)
                && f.status == BashToolStatus::InProgress && f.first == !p.tracks(id@)
                && f.exit_code is None
            &&& brought(begun.out, id@) == brought(p.out, id@)
            &&& begun.tool(id@).bash
            &&& begun.tool(id@).command == command
            &&& begun.tool(id@).output == p.tool(id@).output
        }),
{
    let start = RpcEvent::ToolExecutionStart { tool_call_id: id, tool_name: name, args };
    let begun = p.on_event(start, now, echo, file);
    reveal_strlit("bash");
    assert(text::ascii_lowered("bash"@) =~= "bash"@);
    one_more(p, begun, begun.out.last());
    brought_push(p.out, begun.out.last(), id@);
    assert(brought(p.out, id@) + Seq::<char>::empty() =~= brought(p.out, id@));
}

/// A terminal that showed all of its call's output shows all of it again after
/// more was printed.
pub proof fn printed_output_is_brought(
    p: PumpView,
    id: String,
    delta: String,
    file: Option<Seq<char>>,
    now: Seq<char>,
    echo: bool,
)
    requires
        p.tool(id@).bash,
        brought(p.out, id@) == p.tool(id@).output,
    ensures
        ({
            let q = p.on_event(
                RpcEvent::BashExecutionUpdate { id: Some(id), delta },
                now,
                echo,
                file,
            );
            &&& brought(q.out, id@) == brought(p.out, id@) + delta@
            &&& brought(q.out, id@) == q.tool(id@).output
            &&& q.tool(id@).bash
        }),
{
    let ev = RpcEvent::BashExecutionUpdate { id: Some(id), delta };
    let q = p.on_event(ev, now, echo, file);
    if delta@.len() == 0 {
        assert(brought(p.out, id@) + delta@ =~= brought(p.out, id@));
    } else {
        one_more(p, q, q.out.last());
        brought_push(p.out, q.out.last(), id@);
    }
}

/// When a bash call ends, its terminal was brought the whole output, provided
/// that the output only grew; the exit code and the outcome are told.
pub proof fn a_terminal_ends_with_the_whole_output(
    p: PumpView,
    id: String,
    name: String,
    result: Json,
    is_error: bool,
    file: Option<Seq<char>>,
    now: Seq<char>,
    echo: bool,
)
    requires
        id@.len() > 0,
        p.tool(id@).bash,
        brought(p.out, id@) == p.tool(id@).output,
        text::begins(bash::terminal_text(result@), p.tool(id@).output),
    ensures
        ({
            let end = RpcEvent::ToolExecutionEnd {
                tool_call_id: id,
                tool_name: name,
                result,
                is_error,
            };
            let q = p.on_event(end, now, echo, file);
            &&& brought(q.out, id@) == bash::terminal_text(result@)
            &&& bash_frame(p, q) matches Some(f) && f.session_id == p.session_id
                && f.tool_call_id == id@ && f.command == p.tool(id@).command && f.output
                == bash::terminal_text(result@) && f.status == (if is_error {
                BashToolStatus::Failed
            } else {
                BashToolStatus::Completed
            }) && !f.first && f.exit_code is Some && (f.exit_code == Some(
                bash::exit_code(result@, is_error),
            ))
            &&& !q.tracks(id@)
        }),
{
    let end = RpcEvent::ToolExecutionEnd { tool_call_id: id, tool_name: name, result, is_error };
    let q = p.on_event(end, now, echo, file);
    one_more(p, q, q.out.last());
    brought_push(p.out, q.out.last(), id@);
    bash::added_rebuilds_output(p.tool(id@).output, bash::terminal_text(result@));
}

/// What a running bash call has so far is brought to its terminal, as long as
/// the output only grows.
pub proof fn a_partial_output_is_brought(
    p: PumpView,
    id: String,
    name: String,
    args: Json,
    partial: Json,
    file: Option<Seq<char>>,
    now: Seq<char>,
    echo: bool,
)
    requires
        id@.len() > 0,
        p.tool(id@).bash,
        brought(p.out, id@) == p.tool(id@).output,
        text::begins(bash::terminal_text(partial@), p.tool(id@).output),
    ensures
        ({
            let update = RpcEvent::ToolExecutionUpdate {
                tool_call_id: id,
                tool_name: name,
                args,
                partial_result: partial,
            };
            let q = p.on_event(update, now, echo, file);
            &&& brought(q.out, id@) == bash::terminal_text(partial@)
            &&& brought(q.out, id@) == q.tool(id@).output
            &&& q.tool(id@).bash
            &&& bash_frame(p, q) matches Some(f) && f.status == BashToolStatus::InProgress
                && f.exit_code is None && !f.first
        }),
{
    let update = RpcEvent::ToolExecutionUpdate {
        tool_call_id: id,
        tool_name: name,
        args,
        partial_result: partial,
    };
    let q = p.on_event(update, now, echo, file);
    one_more(p, q, q.out.last());
    brought_push(p.out, q.out.last(), id@);
    bash::added_rebuilds_output(p.tool(id@).output, bash::terminal_text(partial@));
}

// ---------------------------------------------------------------------------
// What the assistant writes
// ---------------------------------------------------------------------------

/// All the text that was told on a stream.
pub open spec fn spoken(out: Seq<ActionView>, kind: TextChunkKind) -> Seq<char>
    decreases out.len(),
{
    if out.len() == 0 {
        Seq::empty()
    } else {
        let before = spoken(out.drop_last(), kind);
        match out.last() {
            ActionView::Emit(OutboundView::TextChunk(c)) => if c.kind == kind {
                before + c.text
            } else {
                before
            },
            _ => before,
        }
    }
}

proof fn spoken_push(out: Seq<ActionView>, a: ActionView, kind: TextChunkKind)
    ensures
        spoken(out.push(a), kind) == (match a {
            ActionView::Emit(OutboundView::TextChunk(c)) => if c.kind == kind {
                spoken(out, kind) + c.text
            } else {
                spoken(out, kind)
            },
            _ => spoken(out, kind),
        }),
{
    assert(out.push(a).drop_last() =~= out);
}

/// A piece of the assistant's answer or reasoning.
pub open spec fn piece(e: AssistantMessageEvent, kind: TextChunkKind) -> Seq<char> {
    match e {
        AssistantMessageEvent::TextDelta { delta, .. } => if kind == TextChunkKind::Agent {
            delta@
        } else {
            Seq::empty()
        },
        AssistantMessageEvent::ThinkingDelta { delta, .. } => if kind == TextChunkKind::Thought {
            delta@
        } else {
            Seq::empty()
        },
        _ => Seq::empty(),
    }
}

/// What becomes of a session when the assistant writes one more piece.
#[verifier::opaque]
pub open spec fn wrote(
    p: PumpView,
    usage: Usage,
    e: AssistantMessageEvent,
    now: Seq<char>,
) -> PumpView {
    p.on_event(RpcEvent::MessageUpdate { usage, assistant_message_event: e }, now, false, None)
}

/// What becomes of a session while the assistant writes, piece by piece.
pub open spec fn written(
    p: PumpView,
    usage: Usage,
    pieces: Seq<AssistantMessageEvent>,
    now: Seq<char>,
) -> PumpView
    decreases pieces.len(),
{
    if pieces.len() == 0 {
        p
    } else {
        wrote(written(p, usage, pieces.drop_last(), now), usage, pieces.last(), now)
    }
}

/// The pieces of one stream, in order.
pub open spec fn pieces_of(pieces: Seq<AssistantMessageEvent>, kind: TextChunkKind) -> Seq<char>
    decreases pieces.len(),
{
    if pieces.len() == 0 {
        Seq::empty()
    } else {
        pieces_of(pieces.drop_last(), kind) + piece(pieces.last(), kind)
    }
}

proof fn a_piece_is_told(
    p: PumpView,
    usage: Usage,
    e: AssistantMessageEvent,
    now: Seq<char>,
    kind: TextChunkKind,
)
    requires
        e is TextDelta || e is ThinkingDelta,
    ensures
        spoken(wrote(p, usage, e, now).out, kind) == spoken(p.out, kind) + piece(e, kind),
{
    reveal(wrote);
    let b = p.on_usage(pump::report_of(usage));
    if b.out.len() > p.out.len() {
        spoken_push(p.out, b.out.last(), kind);
    }
    let c = b.on_part(e);
    spoken_push(b.out, c.out.last(), kind);
    assert(spoken(c.out, kind) =~= spoken(p.out, kind) + piece(e, kind));
}

/// What the assistant writes is told whole and in order, its answer on the one
/// stream and its reasoning on the other.
pub proof fn what_is_written_is_told(
    p: PumpView,
    usage: Usage,
    pieces: Seq<AssistantMessageEvent>,
    now: Seq<char>,
    kind: TextChunkKind,
)
    requires
        forall|k: int|
            0 <= k < pieces.len() ==> (#[trigger] pieces[k]) is TextDelta || pieces[k]
                is ThinkingDelta,
    ensures
        spoken(written(p, usage, pieces, now).out, kind) == spoken(p.out, kind) + pieces_of(
            pieces,
            kind,
        ),
    decreases pieces.len(),
{
    if pieces.len() == 0 {
        assert(spoken(p.out, kind) + Seq::<char>::empty() =~= spoken(p.out, kind));
    } else {
        let front = pieces.drop_last();
        assert forall|k: int| 0 <= k < front.len() implies (#[trigger] front[k]) is TextDelta
            || front[k] is ThinkingDelta by {
            assert(front[k] == pieces[k]);
        }
        what_is_written_is_told(p, usage, front, now, kind);
        let a = written(p, usage, front, now);
        let last = pieces[pieces.len() - 1];
        a_piece_is_told(a, usage, last, now, kind);
        assert(spoken(p.out, kind) + pieces_of(front, kind) + piece(last, kind) =~= spoken(
            p.out,
            kind,
        ) + pieces_of(pieces, kind));
    }
}

/// A piece of the answer goes to the message that is being written; a message
/// that begins has a name of its own until the next one begins.
pub proof fn a_piece_belongs_to_its_message(p: PumpView, content_index: u32, delta: String)
    requires
        p.has_room(),
    ensures
        ({
            let q = p.on_part(AssistantMessageEvent::TextDelta { content_index, delta });
            &&& q.message_id is Some
            &&& p.message_id is Some ==> q.message_id == p.message_id
            &&& tells(
                p,
                q,
                OutboundView::TextChunk(
                    TextChunkView {
                        session_id: p.session_id,
                        message_id: q.message_id,
                        kind: TextChunkKind::Agent,
                        text: delta@,
                        meta: None,
                    },
                ),
            )
        }),
        ({
            let q = p.on_part(AssistantMessageEvent::ThinkingDelta { content_index, delta });
            &&& q.message_id is Some
            &&& p.message_id is Some ==> q.message_id == p.message_id
            &&& tells(
                p,
                q,
                OutboundView::TextChunk(
                    TextChunkView {
                        session_id: p.session_id,
                        message_id: q.message_id,
                        kind: TextChunkKind::Thought,
                        text: delta@,
                        meta: None,
                    },
                ),
            )
        }),
{
}

/// The end of a message of the assistant that failed is told as an error; its
/// text is told whole, under the message's name.
pub proof fn a_finished_message_is_told_whole(p: PumpView, message: Json, t: Seq<char>)
    requires
        json::member(message@, "role"@) == Some(JsonView::Str("assistant"@)),
        json::member(message@, "content"@) == Some(
            JsonView::Array(seq![text_block(t)]),
        ),
        t.len() > 0,
        p.message_id is Some,
    ensures
        ({
            let q = p.on_event(RpcEvent::MessageEnd { message }, Seq::empty(), false, None);
            q.out.len() > p.out.len() && q.out.last() == ActionView::Emit(
                OutboundView::MessagePatch(
                    crate::session::facts::MessagePatchView {
                        session_id: p.session_id,
                        message_id: p.message_id->0,
                        text: t,
                    },
                ),
            )
        }),
{
    let items = seq![text_block(t)];
    reveal_strlit("type");
    reveal_strlit("text");
    assert("type"@.len() == 4);
    assert("type"@[1] == 'y' && "text"@[1] == 'e');
    reveal_with_fuel(json::entry, 3);
    reveal_with_fuel(crate::translate::blocks::block_texts, 3);
    let es = seq![
        ("type"@, JsonView::Str("text"@)),
        ("text"@, JsonView::Str(t)),
    ];
    assert(es.skip(1)[0] == ("text"@, JsonView::Str(t)));
    assert(json::entry(es, "type"@) == Some(JsonView::Str("text"@)));
    assert(json::entry(es, "text"@) == Some(JsonView::Str(t)));
    assert(items.drop_last() =~= Seq::<JsonView>::empty());
    assert(crate::translate::blocks::block_texts(items) =~= seq![t]);
    assert(failure::message_text(message@) == t);
}

/// A text block of a message.
pub open spec fn text_block(t: Seq<char>) -> JsonView {
    JsonView::Object(
        seq![("type"@, JsonView::Str("text"@)), ("text"@, JsonView::Str(t))],
    )
}

/// An error of the assistant is told as part of its answer, without the blanks
/// round it, unless the same was told last.
pub proof fn an_error_is_told(p: PumpView, reason: String, error: Json, t: Seq<char>)
    requires
        error@ == JsonView::Str(t),
        text::trimmed(t).len() > 0,
        p.last_error != Some(text::trimmed(t)),
    ensures
        ({
            let q = p.on_part(AssistantMessageEvent::Error { reason, error });
            &&& q.out.len() == p.out.len() + 1
            &&& q.out.last() matches ActionView::Emit(OutboundView::TextChunk(c)) && c.kind
                == TextChunkKind::Agent && c.session_id == p.session_id && c.text == "Error: "@
                + text::trimmed(t)
        }),
{
    reveal_with_fuel(failure::error_text, 2);
    text::trimmed_stays(t);
}

// ---------------------------------------------------------------------------
// The rest
// ---------------------------------------------------------------------------

/// A usage report tells how full the context window is: the total that pi
/// counts, else the sum of the parts.
pub proof fn usage_is_told(p: PumpView, usage: Usage, size: u64, e: AssistantMessageEvent)
    requires
        p.context_window == Some(size),
        usage.cost is None,
        e is Start,
        usage.total_tokens > 0 || 0 < usage.input + usage.output + usage.cache_read
            + usage.cache_write <= u64::MAX,
    ensures
        ({
            let q = p.on_event(
                RpcEvent::MessageUpdate { usage, assistant_message_event: e },
                Seq::empty(),
                false,
                None,
            );
            &&& q.out.len() == p.out.len() + 1
            &&& q.out.last() matches ActionView::Emit(
                OutboundView::Usage(u),
            ) && u.session_id == p.session_id && u.size == size && u.cost is None && u.used == (
            if usage.total_tokens > 0 {
                usage.total_tokens as int
            } else {
                usage.input + usage.output + usage.cache_read + usage.cache_write
            })
        }),
{
}

/// Without a context window no usage is told; an empty context is told with
/// nothing used.
pub proof fn an_empty_context_is_told(p: PumpView)
    ensures
        p.context_window is None ==> p.on_initial_usage().out == p.out,
        p.context_window matches Some(size) ==> tells(
            p,
            p.on_initial_usage(),
            OutboundView::Usage(
                UsageView { session_id: p.session_id, used: 0, size, cost: None },
            ),
        ),
{
}

/// A new name of the session is told with the time; taking a name away is not
/// told.
pub proof fn a_new_name_is_told(p: PumpView, name: Option<String>, now: Seq<char>)
    ensures
        ({
            let q = p.on_event(RpcEvent::SessionInfoChanged { name }, now, false, None);
            match name {
                Some(n) => tells(
                    p,
                    q,
                    OutboundView::SessionInfo(
                        SessionInfoView {
                            session_id: p.session_id,
                            title: Some(n@),
                            updated_at: Some(now),
                            meta: None,
                        },
                    ),
                ),
                None => q == p,
            }
        }),
{
}

/// A new thinking level is told as the session's mode; pi's state is read
/// again unless the change answers one of ours.
pub proof fn a_new_level_is_told(p: PumpView, level: ThinkingLevel, now: Seq<char>, echo: bool)
    ensures
        ({
            let q = p.on_event(RpcEvent::ThinkingLevelChanged { level }, now, echo, None);
            &&& q.out[p.out.len() as int] == ActionView::Emit(
                OutboundView::Mode(p.session_id, rpc::level_id(level)),
            )
            &&& echo ==> q.out.len() == p.out.len() + 1
            &&& !echo ==> q.out.len() == p.out.len() + 2 && q.out.last() == (
            ActionView::RefreshThinking { level })
        }),
{
}

/// A question of an extension is put to the user as it is.
pub proof fn a_question_is_put(p: PumpView, inner: ExtensionUiRequest, now: Seq<char>, echo: bool)
    ensures
        p.on_event(RpcEvent::ExtensionUiRequest { inner }, now, echo, None).out == p.out.push(
            ActionView::AskUser(inner),
        ),
{
}

/// A compaction is told when pi started it by itself: that it began, and that
/// it ended unless it was given up. One that was asked for is not told.
pub proof fn own_compactions_are_told(
    p: PumpView,
    reason: CompactionReason,
    result: Option<Json>,
    aborted: bool,
    will_retry: bool,
    error_message: Option<String>,
)
    ensures
        ({
            let begun = p.on_event(
                RpcEvent::CompactionStart { reason },
                Seq::empty(),
                false,
                None,
            );
            let ended = p.on_event(
                RpcEvent::CompactionEnd { reason, result, aborted, will_retry, error_message },
                Seq::empty(),
                false,
                None,
            );
            &&& reason == CompactionReason::Manual ==> begun == p && ended == p
            &&& reason != CompactionReason::Manual ==> spoken(begun.out, TextChunkKind::Agent)
                == spoken(p.out, TextChunkKind::Agent)
                + "Context nearing limit, running automatic compaction..."@
            &&& reason != CompactionReason::Manual && !aborted ==> spoken(
                ended.out,
                TextChunkKind::Agent,
            ) == spoken(p.out, TextChunkKind::Agent)
                + "Automatic compaction finished; context was summarized to continue the session."@
            &&& aborted ==> ended == p
        }),
{
    let begun = p.on_event(RpcEvent::CompactionStart { reason }, Seq::empty(), false, None);
    let ended = p.on_event(
        RpcEvent::CompactionEnd { reason, result, aborted, will_retry, error_message },
        Seq::empty(),
        false,
        None,
    );
    if reason != CompactionReason::Manual {
        spoken_push(p.out, begun.out.last(), TextChunkKind::Agent);
        if !aborted {
            spoken_push(p.out, ended.out.last(), TextChunkKind::Agent);
        }
    }
}

/// A retry is told with which attempt it is of how many, and how many seconds
/// it waits, the least being one.
pub proof fn a_retry_is_told(
    p: PumpView,
    attempt: u32,
    max_attempts: u32,
    delay_ms: u64,
    error_message: String,
)
    requires
        attempt > 0,
        max_attempts > 0,
    ensures
        ({
            let q = p.on_event(
                RpcEvent::AutoRetryStart { attempt, max_attempts, delay_ms, error_message },
                Seq::empty(),
                false,
                None,
            );
            let secs = if 0 < delay_ms < 1000 {
                1
            } else {
                delay_ms as nat / 1000
            };
            spoken(q.out, TextChunkKind::Agent) == spoken(p.out, TextChunkKind::Agent) + (
            "Retrying (attempt "@ + text::decimal(attempt as nat) + "/"@ + text::decimal(
                max_attempts as nat,
            ) + ", waiting "@ + text::decimal(secs) + "s)..."@)
        }),
{
    let q = p.on_event(
        RpcEvent::AutoRetryStart { attempt, max_attempts, delay_ms, error_message },
        Seq::empty(),
        false,
        None,
    );
    spoken_push(p.out, q.out.last(), TextChunkKind::Agent);
}

/// A prompt that waits is told with its place in the line, which is how many
/// wait then; so is how many there are, and whether a turn runs.
pub proof fn a_waiting_prompt_is_told(p: PumpView, t: crate::session::pump::TurnView)
    requires
        !p.poisoned,
        p.pending is Some || p.recovering,
    ensures
        ({
            let q = p.on_prompt(t);
            let place = (p.queue.len() + 1) as nat;
            &&& spoken(q.out, TextChunkKind::Agent) == spoken(p.out, TextChunkKind::Agent) + (
            "Queued message (position "@ + text::decimal(place) + ")."@)
            &&& q.out.last() matches ActionView::Emit(OutboundView::SessionInfo(i))
                && i.session_id == p.session_id && (i.meta matches Some(m) && tells_queue(
                m,
                place,
                p.pending is Some,
            ))
        }),
{
    let q = p.on_prompt(t);
    let line = "Queued message (position "@ + text::decimal(q.queue.len()) + ")."@;
    let a = PumpView { queue: q.queue, ..p };
    let b = a.say(line);
    spoken_push(a.out, b.out.last(), TextChunkKind::Agent);
    spoken_push(b.out, q.out.last(), TextChunkKind::Agent);
    queue_is_told(q.queue.len(), p.pending is Some);
}

/// Whether members say how many turns wait, and whether one runs.
pub open spec fn tells_queue(m: Seq<(Seq<char>, JsonView)>, waiting: nat, running: bool) -> bool {
    json::member(JsonView::Object(m), "piAcp"@) matches Some(own) && json::member(
        own,
        "queueDepth"@,
    ) == Some(JsonView::Number(json::NumberView::Int(waiting as int))) && json::member(
        own,
        "running"@,
    ) == Some(JsonView::Bool(running))
}

proof fn queue_is_told(waiting: nat, running: bool)
    ensures
        tells_queue(pump::queue_meta(waiting, running), waiting, running),
{
    broadcast use json::entry_of_put;

    reveal_strlit("piAcp");
    reveal_strlit("queueDepth");
    reveal_strlit("running");
    assert("queueDepth"@.len() == 10 && "running"@.len() == 7);
}

/// A turn that starts after waiting is told with how many still wait; a turn
/// that ends leaves the foreground idle, for the reason it ended.
pub proof fn a_started_turn_is_told(p: PumpView)
    requires
        p.pending is Some,
        p.pending->0.prompt_accepted || p.cancel_requested,
        p.queue.len() > 0,
        p.has_room(),
    ensures
        ({
            let q = p.on_agent_settled();
            let n = p.out.len() as int;
            &&& spoken(q.out, TextChunkKind::Agent) == spoken(p.out, TextChunkKind::Agent) + (
            "Starting queued message. ("@ + text::decimal((p.queue.len() - 1) as nat)
                + " remaining)"@)
            &&& q.out[n + 2] == ActionView::Emit(
                OutboundView::Foreground(
                    p.session_id,
                    crate::session::facts::ForegroundState::Idle(
                        if p.cancel_requested {
                            crate::session::facts::StopReason::Cancelled
                        } else {
                            crate::session::facts::StopReason::EndTurn
                        },
                    ),
                ),
            )
            &&& q.out[q.out.len() - 2] == ActionView::Emit(
                OutboundView::Foreground(
                    p.session_id,
                    crate::session::facts::ForegroundState::Running,
                ),
            )
        }),
{
    let q = p.on_agent_settled();
    let n = p.out.len() as int;
    assert(q.out.len() == n + 7);
    assert(q.out.take(n) =~= p.out);
    assert(q.out.take(n + 1) =~= q.out.take(n).push(q.out[n]));
    assert(q.out.take(n + 2) =~= q.out.take(n + 1).push(q.out[n + 1]));
    assert(q.out.take(n + 3) =~= q.out.take(n + 2).push(q.out[n + 2]));
    assert(q.out.take(n + 4) =~= q.out.take(n + 3).push(q.out[n + 3]));
    assert(q.out.take(n + 5) =~= q.out.take(n + 4).push(q.out[n + 4]));
    assert(q.out.take(n + 6) =~= q.out.take(n + 5).push(q.out[n + 5]));
    assert(q.out =~= q.out.take(n + 6).push(q.out[n + 6]));
    spoken_push(q.out.take(n), q.out[n], TextChunkKind::Agent);
    spoken_push(q.out.take(n + 1), q.out[n + 1], TextChunkKind::Agent);
    spoken_push(q.out.take(n + 2), q.out[n + 2], TextChunkKind::Agent);
    spoken_push(q.out.take(n + 3), q.out[n + 3], TextChunkKind::Agent);
    spoken_push(q.out.take(n + 4), q.out[n + 4], TextChunkKind::Agent);
    spoken_push(q.out.take(n + 5), q.out[n + 5], TextChunkKind::Agent);
    spoken_push(q.out.take(n + 6), q.out[n + 6], TextChunkKind::Agent);
}

/// A cost that is above zero is told in dollars, though no tokens were counted;
/// one that is not is left out.
pub proof fn costs_are_told(p: PumpView, u: pump::UsageReport, size: u64)
    requires
        p.context_window == Some(size),
    ensures
        u.cost matches Some(n) ==> tells(
            p,
            p.on_usage(u),
            OutboundView::Usage(
                UsageView {
                    session_id: p.session_id,
                    used: u.tokens,
                    size,
                    cost: Some((n, "USD"@)),
                },
            ),
        ),
        u.cost is None && u.tokens == 0 ==> p.on_usage(u) == p,
        pump::charged(json::NumberView::Int(0)) is None,
        forall|i: int| i > 0 ==> #[trigger] pump::charged(json::NumberView::Int(i)) is Some,
        forall|t: Seq<char>|
            t.len() > 0 && t[0] != '-' && t != "0.0"@ ==> #[trigger] pump::charged(
                json::NumberView::Real(t),
            ) == Some(json::NumberView::Real(t)),
{
}

} // verus!
