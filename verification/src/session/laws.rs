//! What holds of a session whatever it is told, stated over the model of the
//! state machine.

use crate::error::AcpxError;
use crate::pi::events::{AssistantMessageEvent, RpcEvent};
use crate::session::facts::{
    ForegroundState, OutboundView, StopReason, TextChunkKind, ToolStatusFact,
};
use crate::session::pump::{
    ActionView, PendingTurn, PumpView, ToolView, TrackedStatus, TurnView,
};
use crate::session::pump;
use crate::text;
use crate::translate::bash;
use vstd::multiset::Multiset;
use vstd::prelude::*;

verus! {

/// Everything a session can be told.
pub enum Input {
    /// A prompt.
    Prompt(TurnView),
    /// A request to cancel.
    Cancel(u64),
    /// The outcome of the abort that a cancel asked for.
    CancelAborted(u64, Option<AcpxError<Seq<char>>>),
    /// pi's answer to a prompt.
    PromptResult(u64, Option<AcpxError<Seq<char>>>),
    /// An event of pi.
    Event(RpcEvent, Seq<char>, bool, Option<Seq<char>>),
    /// An event that arrived before the clock on a recovery ran out.
    Drained(RpcEvent, Seq<char>, bool, Option<Seq<char>>),
    /// The end of pi's output.
    StreamEnd(Option<i32>, Option<i32>),
    /// The end of the session.
    Teardown,
    /// The end of a turn's time.
    SettleTimeout,
    /// The outcome of the abort of a timed-out turn.
    RecoveryAbort(bool),
    /// The end of a recovery's time.
    RecoverTimeout,
    /// A request for the empty context.
    InitialUsage,
}

/// What becomes of a session that is told something.
pub open spec fn step(p: PumpView, i: Input) -> PumpView {
    match i {
        Input::Prompt(t) => p.on_prompt(t),
        Input::Cancel(k) => p.on_cancel(k),
        Input::CancelAborted(k, e) => p.on_cancel_aborted(k, e),
        Input::PromptResult(n, e) => p.on_prompt_result(n, e),
        Input::Event(ev, now, echo, file) => p.on_event(ev, now, echo, file),
        Input::Drained(ev, now, echo, file) => p.on_drained_event(ev, now, echo, file),
        Input::StreamEnd(c, s) => p.on_stream_end(c, s),
        Input::Teardown => p.teardown(),
        Input::SettleTimeout => p.on_settle_timeout(),
        Input::RecoveryAbort(ok) => p.on_recovery_abort_result(ok),
        Input::RecoverTimeout => p.on_recover_timeout(),
        Input::InitialUsage => p.on_initial_usage(),
    }
}

/// Whether a session can be told something now: the outcome of an abort only
/// while the cancelled turn runs, and drained events only during a recovery.
pub open spec fn legal(p: PumpView, i: Input) -> bool {
    match i {
        Input::CancelAborted(_, _) => p.pending is Some,
        Input::Drained(_, _, _, _) => p.recovering,
        _ => true,
    }
}

/// What every reachable session satisfies: turns wait only behind a running
/// turn or a recovery; no turn runs during a recovery; a closed session has no
/// turns; the clock runs only on an accepted turn; turn numbers are fresh.
pub open spec fn sound(p: PumpView) -> bool {
    &&& p.queue.len() > 0 ==> p.pending is Some || p.recovering
    &&& p.recovering ==> p.pending is None
    &&& p.poisoned ==> p.pending is None && p.queue.len() == 0 && !p.recovering
    &&& p.settle_armed ==> p.pending is Some && p.pending->0.prompt_accepted
    &&& p.pending is Some ==> p.pending->0.turn_id < p.next_turn_id
    &&& p.abort_confirmed || p.stale_settled ==> p.recovering
}

// ---------------------------------------------------------------------------
// Turns are answered exactly once
// ---------------------------------------------------------------------------

/// The turns that were answered.
pub open spec fn answered(out: Seq<ActionView>) -> Multiset<u64>
    decreases out.len(),
{
    if out.len() == 0 {
        Multiset::empty()
    } else {
        match out.last() {
            ActionView::Resolve { ticket, .. } => answered(out.drop_last()).insert(ticket),
            _ => answered(out.drop_last()),
        }
    }
}

/// The turns that wait.
pub open spec fn waiting(queue: Seq<TurnView>) -> Multiset<u64>
    decreases queue.len(),
{
    if queue.len() == 0 {
        Multiset::empty()
    } else {
        waiting(queue.skip(1)).insert(queue[0].ticket)
    }
}

/// The turns that are not answered yet.
pub open spec fn outstanding(p: PumpView) -> Multiset<u64> {
    match p.pending {
        Some(t) => waiting(p.queue).insert(t.ticket),
        None => waiting(p.queue),
    }
}

/// Every turn the session was given, answered or not.
pub open spec fn accounted(p: PumpView) -> Multiset<u64> {
    outstanding(p).add(answered(p.out))
}

/// The turn that an input brings.
pub open spec fn brought(i: Input) -> Multiset<u64> {
    match i {
        Input::Prompt(t) => Multiset::singleton(t.ticket),
        _ => Multiset::empty(),
    }
}

proof fn answered_push(out: Seq<ActionView>, a: ActionView)
    ensures
        answered(out.push(a)) == (match a {
            ActionView::Resolve { ticket, .. } => answered(out).insert(ticket),
            _ => answered(out),
        }),
{
    assert(out.push(a).drop_last() =~= out);
}

proof fn waiting_push(queue: Seq<TurnView>, t: TurnView)
    ensures
        waiting(queue.push(t)) == waiting(queue).insert(t.ticket),
    decreases queue.len(),
{
    if queue.len() == 0 {
        assert(queue.push(t).skip(1) =~= Seq::<TurnView>::empty());
        reveal_with_fuel(waiting, 2);
    } else {
        waiting_push(queue.skip(1), t);
        assert(queue.push(t).skip(1) =~= queue.skip(1).push(t));
        assert(waiting(queue.push(t)) =~= waiting(queue).insert(t.ticket));
    }
}

/// An action that concerns no turn.
pub open spec fn idle_action(a: ActionView) -> bool {
    match a {
        ActionView::Emit(_) => true,
        ActionView::RefreshThinking { .. } => true,
        ActionView::AskUser(_) => true,
        _ => false,
    }
}

/// `q` has done more than `p`, and none of it concerns turns.
pub open spec fn quiet(p: PumpView, q: PumpView) -> bool {
    &&& q.session_id == p.session_id
    &&& q.settle_timeout_secs == p.settle_timeout_secs
    &&& q.queue == p.queue
    &&& q.pending == p.pending
    &&& q.next_turn_id == p.next_turn_id
    &&& q.cancel_requested == p.cancel_requested
    &&& q.poisoned == p.poisoned
    &&& q.recovering == p.recovering
    &&& q.abort_confirmed == p.abort_confirmed
    &&& q.stale_settled == p.stale_settled
    &&& q.settle_armed == p.settle_armed
    &&& q.out.len() >= p.out.len()
    &&& q.out.take(p.out.len() as int) == p.out
    &&& forall|k: int| p.out.len() <= k < q.out.len() ==> idle_action(#[trigger] q.out[k])
}

pub(crate) proof fn quiet_trans(p: PumpView, q: PumpView, r: PumpView)
    requires
        quiet(p, q),
        quiet(q, r),
    ensures
        quiet(p, r),
{
    assert(r.out.take(p.out.len() as int) =~= p.out) by {
        assert forall|k: int| 0 <= k < p.out.len() implies r.out[k] == p.out[k] by {
            assert(r.out.take(q.out.len() as int)[k] == q.out[k]);
            assert(q.out.take(p.out.len() as int)[k] == p.out[k]);
        }
    }
    assert forall|k: int| p.out.len() <= k < r.out.len() implies idle_action(
        #[trigger] r.out[k],
    ) by {
        if k < q.out.len() {
            assert(r.out.take(q.out.len() as int)[k] == q.out[k]);
        }
    }
}

proof fn quiet_answered(p: PumpView, q: PumpView)
    requires
        quiet(p, q),
    ensures
        answered(q.out) == answered(p.out),
    decreases q.out.len() - p.out.len(),
{
    if q.out.len() == p.out.len() {
        assert(q.out.take(p.out.len() as int) =~= q.out);
    } else {
        let m = PumpView { out: q.out.drop_last(), ..q };
        assert(m.out.take(p.out.len() as int) =~= q.out.take(p.out.len() as int));
        assert forall|k: int| p.out.len() <= k < m.out.len() implies idle_action(
            #[trigger] m.out[k],
        ) by {
            assert(m.out[k] == q.out[k]);
        }
        quiet_answered(p, m);
        assert(idle_action(q.out[q.out.len() - 1]));
    }
}

pub(crate) proof fn quiet_act(p: PumpView, a: ActionView)
    requires
        idle_action(a),
    ensures
        quiet(p, p.act(a)),
{
    assert(p.act(a).out.take(p.out.len() as int) =~= p.out);
}

pub(crate) proof fn quiet_refl(p: PumpView)
    ensures
        quiet(p, p),
{
    assert(p.out.take(p.out.len() as int) =~= p.out);
}

proof fn quiet_chunk(p: PumpView, kind: TextChunkKind, t: Seq<char>)
    ensures
        quiet(p, p.chunk(kind, t)),
{
    let q = p.with_message();
    quiet_refl(p);
    assert(quiet(p, q));
    let c = p.chunk(kind, t);
    quiet_act(q, c.out.last());
    quiet_trans(p, q, c);
}

proof fn quiet_error(p: PumpView, s: Seq<char>)
    ensures
        quiet(p, p.on_error(s)),
{
    quiet_refl(p);
    let t = crate::session::failure::or_generic(crate::session::failure::said(s));
    if p.last_error != Some(t) {
        let q = PumpView { last_error: Some(t), ..p };
        assert(quiet(p, q));
        quiet_chunk(q, TextChunkKind::Agent, "Error: "@ + t);
        quiet_trans(p, q, p.on_error(s));
    }
}

proof fn quiet_usage(p: PumpView, u: pump::UsageReport)
    ensures
        quiet(p, p.on_usage(u)),
{
    quiet_refl(p);
    let q = p.on_usage(u);
    if q != p {
        quiet_act(p, q.out.last());
    }
}

/// Changing what is remembered of calls, then telling something.
proof fn quiet_tools(p: PumpView, tools: Map<Seq<char>, ToolView>, m: OutboundView)
    ensures
        quiet(p, PumpView { tools, ..p }.emit(m)),
        quiet(p, PumpView { tools, ..p }),
{
    let q = PumpView { tools, ..p };
    quiet_refl(p);
    assert(quiet(p, q));
    quiet_act(q, ActionView::Emit(m));
    quiet_trans(p, q, q.emit(m));
}

proof fn quiet_announce(
    p: PumpView,
    id: Seq<char>,
    name: Seq<char>,
    args: Option<crate::json::JsonView>,
    status: TrackedStatus,
    first: bool,
)
    ensures
        quiet(p, p.announce_bash(id, name, args, status, first)),
{
    let q = p.announce_bash(id, name, args, status, first);
    quiet_tools(p, q.tools, q.out.last()->Emit_0);
}

proof fn quiet_show(
    p: PumpView,
    id: Seq<char>,
    status: crate::session::facts::BashToolStatus,
    result: crate::json::JsonView,
    exit_code: Option<i32>,
)
    ensures
        quiet(p, p.show_bash(id, status, result, exit_code)),
{
    let q = p.show_bash(id, status, result, exit_code);
    quiet_tools(p, q.tools, q.out.last()->Emit_0);
}

proof fn quiet_surface(
    p: PumpView,
    id: Seq<char>,
    name: Seq<char>,
    raw: Option<crate::json::JsonView>,
)
    ensures
        quiet(p, p.surface(id, name, raw)),
{
    quiet_refl(p);
    if id.len() > 0 {
        if bash::names_bash(name) {
            quiet_announce(p, id, name, raw, p.tool(id).status, !p.tracks(id));
        } else {
            let q = p.surface(id, name, raw);
            quiet_tools(p, q.tools, q.out.last()->Emit_0);
        }
    }
}

proof fn quiet_part(p: PumpView, e: AssistantMessageEvent)
    ensures
        quiet(p, p.on_part(e)),
{
    quiet_refl(p);
    match e {
        AssistantMessageEvent::TextDelta { delta, .. } => {
            quiet_chunk(p, TextChunkKind::Agent, delta@);
        },
        AssistantMessageEvent::ThinkingDelta { delta, .. } => {
            quiet_chunk(p, TextChunkKind::Thought, delta@);
        },
        AssistantMessageEvent::Error { reason, error } => {
            quiet_error(p, crate::session::failure::assistant_error(reason@, error@));
        },
        AssistantMessageEvent::ToolcallStart { id, tool_name, .. } => {
            quiet_surface(p, id@, tool_name@, None);
        },
        AssistantMessageEvent::ToolcallEnd { tool_call, .. } => {
            quiet_surface(
                p,
                match crate::json::str_member(tool_call@, "id"@) {
                    Some(s) => s,
                    None => Seq::empty(),
                },
                match crate::json::str_member(tool_call@, "name"@) {
                    Some(s) => s,
                    None => "tool"@,
                },
                pump::raw_input_of(tool_call@),
            );
        },
        _ => {},
    }
}

proof fn quiet_message_end(p: PumpView, message: crate::json::JsonView)
    ensures
        quiet(p, p.on_message_end(message)),
{
    quiet_refl(p);
    let a = match pump::message_report(message) {
        Some(u) => p.on_usage(u),
        None => p,
    };
    if let Some(u) = pump::message_report(message) {
        quiet_usage(p, u);
    }
    let b = match crate::session::failure::message_error(message) {
        Some(t) => a.on_error(t),
        None => a,
    };
    quiet_refl(a);
    if let Some(t) = crate::session::failure::message_error(message) {
        quiet_error(a, t);
    }
    quiet_trans(p, a, b);
    let c = p.on_message_end(message);
    quiet_refl(b);
    if c != b {
        quiet_act(b, c.out.last());
    }
    quiet_trans(p, b, c);
}

proof fn quiet_tool_end(
    p: PumpView,
    id: Seq<char>,
    result: crate::json::JsonView,
    is_error: bool,
    file: Option<Seq<char>>,
)
    ensures
        quiet(p, p.on_tool_end(id, result, is_error, file)),
{
    quiet_refl(p);
    if id.len() > 0 {
        let q = p.on_tool_end(id, result, is_error, file);
        if p.tool(id).bash {
            let status = if is_error {
                crate::session::facts::BashToolStatus::Failed
            } else {
                crate::session::facts::BashToolStatus::Completed
            };
            let shown = p.show_bash(id, status, result, Some(bash::exit_code(result, is_error)));
            quiet_show(p, id, status, result, Some(bash::exit_code(result, is_error)));
            quiet_refl(shown);
            assert(quiet(shown, shown.forget(id)));
            quiet_trans(p, shown, q);
        } else {
            let e = p.emit(q.out.last()->Emit_0);
            quiet_act(p, q.out.last());
            quiet_refl(e);
            assert(quiet(e, e.forget(id)));
            quiet_trans(p, e, q);
        }
    }
}

/// No event but a settle concerns turns: in particular neither the end of the
/// agent loop nor the end of one of its steps ends a turn.
pub proof fn events_leave_turns_alone(
    p: PumpView,
    ev: RpcEvent,
    now: Seq<char>,
    echo: bool,
    file: Option<Seq<char>>,
)
    requires
        !(ev is AgentSettled),
    ensures
        quiet(p, p.on_event(ev, now, echo, file)),
{
    quiet_refl(p);
    let q = p.on_event(ev, now, echo, file);
    match ev {
        RpcEvent::MessageUpdate { usage, assistant_message_event } => {
            let a = p.on_usage(pump::report_of(usage));
            quiet_usage(p, pump::report_of(usage));
            quiet_part(a, assistant_message_event);
            quiet_trans(p, a, q);
        },
        RpcEvent::MessageStart { .. } => {},
        RpcEvent::MessageEnd { message } => {
            quiet_message_end(p, message@);
        },
        RpcEvent::ToolExecutionStart { tool_call_id, tool_name, args } => {
            if bash::names_bash(tool_name@) {
                quiet_announce(
                    p,
                    tool_call_id@,
                    tool_name@,
                    Some(args@),
                    TrackedStatus::InProgress,
                    !p.tracks(tool_call_id@),
                );
            } else {
                quiet_tools(p, q.tools, q.out.last()->Emit_0);
            }
        },
        RpcEvent::ToolExecutionUpdate { tool_call_id, partial_result, .. } => {
            if tool_call_id@.len() > 0 {
                if p.tool(tool_call_id@).bash {
                    quiet_show(
                        p,
                        tool_call_id@,
                        crate::session::facts::BashToolStatus::InProgress,
                        partial_result@,
                        None,
                    );
                } else {
                    quiet_act(p, q.out.last());
                }
            }
        },
        RpcEvent::ToolExecutionEnd { tool_call_id, result, is_error, .. } => {
            quiet_tool_end(p, tool_call_id@, result@, is_error, file);
        },
        RpcEvent::BashExecutionUpdate { id, delta } => {
            if q != p {
                quiet_tools(p, q.tools, q.out.last()->Emit_0);
            }
        },
        RpcEvent::AgentStart => {},
        RpcEvent::AgentEnd { .. } => {},
        RpcEvent::ExtensionUiRequest { inner } => {
            quiet_act(p, ActionView::AskUser(inner));
        },
        RpcEvent::AutoRetryStart { attempt, max_attempts, delay_ms, .. } => {
            quiet_chunk(
                p,
                TextChunkKind::Agent,
                pump::retry_text(attempt, max_attempts, delay_ms),
            );
        },
        RpcEvent::AutoRetryEnd { .. } => {
            quiet_chunk(p, TextChunkKind::Agent, "Retry finished, resuming."@);
        },
        RpcEvent::CompactionStart { reason } => {
            quiet_chunk(
                p,
                TextChunkKind::Agent,
                "Context nearing limit, running automatic compaction..."@,
            );
        },
        RpcEvent::CompactionEnd { reason, aborted, .. } => {
            quiet_chunk(
                p,
                TextChunkKind::Agent,
                "Automatic compaction finished; context was summarized to continue the session."@,
            );
        },
        RpcEvent::SessionInfoChanged { name } => {
            if q != p {
                quiet_act(p, q.out.last());
            }
        },
        RpcEvent::ThinkingLevelChanged { level } => {
            let m = OutboundView::Mode(p.session_id, crate::pi::rpc::level_id(level));
            quiet_act(p, ActionView::Emit(m));
            if !echo {
                quiet_act(p.emit(m), ActionView::RefreshThinking { level });
                quiet_trans(p, p.emit(m), q);
            }
        },
        RpcEvent::Unknown { raw } => {
            if let Some(t) = crate::session::failure::unknown_error(raw@) {
                quiet_error(p, t);
            }
        },
        _ => {},
    }
}

// ---------------------------------------------------------------------------
// Parts of a step
// ---------------------------------------------------------------------------

/// `q` has done more than `p` without sending a prompt.
pub open spec fn plain(p: PumpView, q: PumpView) -> bool {
    &&& q.next_turn_id == p.next_turn_id
    &&& q.out.len() >= p.out.len()
    &&& q.out.take(p.out.len() as int) == p.out
    &&& forall|k: int|
        p.out.len() <= k < q.out.len() ==> !((#[trigger] q.out[k]) is SendPrompt)
}

/// `q` has done more than `p`, and last of all sent the prompt of the turn that
/// now runs.
pub open spec fn starts(p: PumpView, q: PumpView) -> bool {
    &&& q.next_turn_id == p.next_turn_id + 1
    &&& q.out.len() > p.out.len()
    &&& q.out.take(p.out.len() as int) == p.out
    &&& forall|k: int|
        p.out.len() <= k < q.out.len() - 1 ==> !((#[trigger] q.out[k]) is SendPrompt)
    &&& q.out.last() matches ActionView::SendPrompt { turn_id, .. } && turn_id == p.next_turn_id
    &&& q.pending is Some && q.pending->0.turn_id == p.next_turn_id
}

pub(crate) proof fn plain_act(p: PumpView, a: ActionView)
    requires
        !(a is SendPrompt),
    ensures
        plain(p, p.act(a)),
{
    assert(p.act(a).out.take(p.out.len() as int) =~= p.out);
}

pub(crate) proof fn plain_refl(p: PumpView)
    ensures
        plain(p, p),
{
    assert(p.out.take(p.out.len() as int) =~= p.out);
}

pub(crate) proof fn plain_trans(p: PumpView, q: PumpView, r: PumpView)
    requires
        plain(p, q),
        plain(q, r),
    ensures
        plain(p, r),
{
    assert(r.out.take(p.out.len() as int) =~= p.out) by {
        assert forall|k: int| 0 <= k < p.out.len() implies r.out[k] == p.out[k] by {
            assert(r.out.take(q.out.len() as int)[k] == q.out[k]);
            assert(q.out.take(p.out.len() as int)[k] == p.out[k]);
        }
    }
    assert forall|k: int| p.out.len() <= k < r.out.len() implies !(
    (#[trigger] r.out[k]) is SendPrompt) by {
        if k < q.out.len() {
            assert(r.out.take(q.out.len() as int)[k] == q.out[k]);
        }
    }
}

proof fn plain_starts(p: PumpView, q: PumpView, r: PumpView)
    requires
        plain(p, q),
        starts(q, r),
    ensures
        starts(p, r),
{
    assert(r.out.take(p.out.len() as int) =~= p.out) by {
        assert forall|k: int| 0 <= k < p.out.len() implies r.out[k] == p.out[k] by {
            assert(r.out.take(q.out.len() as int)[k] == q.out[k]);
            assert(q.out.take(p.out.len() as int)[k] == p.out[k]);
        }
    }
    assert forall|k: int| p.out.len() <= k < r.out.len() - 1 implies !(
    (#[trigger] r.out[k]) is SendPrompt) by {
        if k < q.out.len() {
            assert(r.out.take(q.out.len() as int)[k] == q.out[k]);
        }
    }
}

pub(crate) proof fn quiet_is_plain(p: PumpView, q: PumpView)
    requires
        quiet(p, q),
    ensures
        plain(p, q),
{
    assert forall|k: int| p.out.len() <= k < q.out.len() implies !(
    (#[trigger] q.out[k]) is SendPrompt) by {
        assert(idle_action(q.out[k]));
    }
}

/// Ending the waiting turns answers each of them, and sends nothing.
pub(crate) proof fn resolve_queue_parts(p: PumpView, o: Result<StopReason, AcpxError<Seq<char>>>)
    ensures
        plain(p, p.resolve_queue(o)),
        answered(p.resolve_queue(o).out) == answered(p.out).add(waiting(p.queue)),
        p.resolve_queue(o) == (PumpView {
            queue: Seq::empty(),
            out: p.resolve_queue(o).out,
            ..p
        }),
    decreases p.queue.len(),
{
    pump::resolve_queue_frame(p, o);
    if p.queue.len() == 0 {
        plain_refl(p);
        assert(answered(p.out).add(waiting(p.queue)) =~= answered(p.out));
    } else {
        let a = PumpView { queue: p.queue.skip(1), ..p };
        let b = a.resolve(p.queue[0].ticket, o);
        plain_refl(p);
        assert(plain(p, a));
        plain_act(a, ActionView::Resolve { ticket: p.queue[0].ticket, outcome: o });
        plain_trans(p, a, b);
        answered_push(a.out, ActionView::Resolve { ticket: p.queue[0].ticket, outcome: o });
        resolve_queue_parts(b, o);
        plain_trans(p, b, p.resolve_queue(o));
        assert(answered(b.out).add(waiting(b.queue)) =~= answered(p.out).add(waiting(p.queue)));
    }
}

/// Ending the running turn answers it, and sends nothing.
pub(crate) proof fn resolve_pending_parts(p: PumpView, o: Result<StopReason, AcpxError<Seq<char>>>)
    ensures
        plain(p, p.resolve_pending(o)),
        answered(p.resolve_pending(o).out) == (match p.pending {
            Some(t) => answered(p.out).insert(t.ticket),
            None => answered(p.out),
        }),
        p.resolve_pending(o) == (PumpView {
            pending: None,
            out: p.resolve_pending(o).out,
            ..p
        }),
{
    plain_refl(p);
    if let Some(t) = p.pending {
        let a = PumpView { pending: None, ..p };
        assert(plain(p, a));
        let r = ActionView::Resolve { ticket: t.ticket, outcome: o };
        plain_act(a, r);
        plain_trans(p, a, a.act(r));
        answered_push(a.out, r);
    }
}

/// Acting without answering or sending.
pub(crate) proof fn act_parts(p: PumpView, a: ActionView)
    requires
        !(a is Resolve),
        !(a is SendPrompt),
    ensures
        plain(p, p.act(a)),
        answered(p.act(a).out) == answered(p.out),
{
    plain_act(p, a);
    answered_push(p.out, a);
}

pub(crate) proof fn say_parts(p: PumpView, t: Seq<char>)
    ensures
        quiet(p, p.say(t)),
        plain(p, p.say(t)),
        answered(p.say(t).out) == answered(p.out),
{
    quiet_chunk(p, TextChunkKind::Agent, t);
    quiet_is_plain(p, p.say(t));
    quiet_answered(p, p.say(t));
}

pub(crate) proof fn start_parts(p: PumpView, t: TurnView)
    requires
        p.next_turn_id < u64::MAX,
    ensures
        starts(p, p.start_turn(t)),
        answered(p.start_turn(t).out) == answered(p.out),
{
    let a = PumpView {
        cancel_requested: false,
        in_agent_loop: false,
        last_error: None,
        next_turn_id: (p.next_turn_id + 1) as u64,
        pending: Some(
            PendingTurn {
                ticket: t.ticket,
                turn_id: p.next_turn_id,
                extension_command: t.extension_command,
                prompt_accepted: false,
                settled_before_accept: false,
            },
        ),
        ..p
    };
    let b = a.report_queue(true);
    act_parts(a, b.out.last());
    let c = b.report_foreground(ForegroundState::Running);
    act_parts(b, c.out.last());
    plain_trans(a, b, c);
    let d = p.start_turn(t);
    answered_push(c.out, d.out.last());
    assert(d.out.take(p.out.len() as int) =~= c.out.take(p.out.len() as int));
    assert forall|k: int| p.out.len() <= k < d.out.len() - 1 implies !(
    (#[trigger] d.out[k]) is SendPrompt) by {
        assert(d.out[k] == c.out[k]);
    }
}

/// Starting the first waiting turn, or reporting that none waits.
pub(crate) proof fn next_parts(p: PumpView)
    requires
        p.pending is None,
        p.has_room(),
    ensures
        accounted(p.next_turn()) == accounted(p),
        plain(p, p.next_turn()) || starts(p, p.next_turn()),
        p.queue.len() == 0 ==> quiet(p, p.next_turn()),
{
    if p.queue.len() > 0 {
        let a = PumpView { queue: p.queue.skip(1), ..p };
        plain_refl(p);
        assert(plain(p, a));
        let line = "Starting queued message. ("@ + text::decimal(a.queue.len())
            + " remaining)"@;
        let b = a.say(line);
        say_parts(a, line);
        plain_trans(p, a, b);
        start_parts(b, p.queue[0]);
        plain_starts(p, b, p.next_turn());
        assert(outstanding(p.next_turn()) =~= outstanding(p));
    } else {
        let r = p.report_queue(false);
        quiet_act(p, r.out.last());
        quiet_is_plain(p, r);
        act_parts(p, r.out.last());
    }
}

/// The first actions of a settle: what was told is on its way before the turn
/// is answered.
pub proof fn told_before_answered(p: PumpView)
    requires
        p.pending is Some,
        p.has_room(),
    ensures
        p.settle().out.len() >= p.out.len() + 2,
        p.settle().out[p.out.len() as int] == ActionView::Flush,
        p.settle().out[p.out.len() as int + 1] == (ActionView::Resolve {
            ticket: p.pending->0.ticket,
            outcome: Ok(
                if p.cancel_requested {
                    StopReason::Cancelled
                } else {
                    StopReason::EndTurn
                },
            ),
        }),
{
    let t = p.pending->0;
    let reason = if p.cancel_requested {
        StopReason::Cancelled
    } else {
        StopReason::EndTurn
    };
    let a = PumpView { settle_armed: false, pending: None, ..p }.act(ActionView::Flush).resolve(
        t.ticket,
        Ok(reason),
    );
    let b = PumpView { in_agent_loop: false, ..a }.report_foreground(ForegroundState::Idle(reason));
    next_parts(b);
    let c = b.next_turn();
    assert(c.out.take(b.out.len() as int)[p.out.len() as int] == b.out[p.out.len() as int]);
    assert(c.out.take(b.out.len() as int)[p.out.len() as int + 1] == b.out[p.out.len() as int + 1]);
}

pub(crate) proof fn settle_parts(p: PumpView)
    requires
        p.has_room(),
    ensures
        accounted(p.settle()) == accounted(p),
        plain(p, p.settle()) || starts(p, p.settle()),
{
    plain_refl(p);
    if let Some(t) = p.pending {
        let reason = if p.cancel_requested {
            StopReason::Cancelled
        } else {
            StopReason::EndTurn
        };
        let a = PumpView { settle_armed: false, pending: None, ..p };
        assert(plain(p, a));
        let b = a.act(ActionView::Flush);
        act_parts(a, ActionView::Flush);
        plain_trans(p, a, b);
        let r = ActionView::Resolve { ticket: t.ticket, outcome: Ok(reason) };
        let c = b.act(r);
        plain_act(b, r);
        plain_trans(p, b, c);
        answered_push(b.out, r);
        let d = PumpView { in_agent_loop: false, ..c };
        plain_refl(c);
        assert(plain(c, d));
        let e = d.report_foreground(ForegroundState::Idle(reason));
        act_parts(d, e.out.last());
        plain_trans(c, d, e);
        plain_trans(p, c, e);
        next_parts(e);
        let f = e.next_turn();
        let g = p.settle();
        assert(g == PumpView { cancel_requested: false, ..f });
        assert(accounted(e) =~= accounted(p));
        assert(accounted(g) == accounted(f));
        if plain(e, f) {
            plain_trans(p, e, f);
            assert(plain(p, g));
        } else {
            plain_starts(p, e, f);
            assert(starts(p, g));
        }
    }
}

pub(crate) proof fn clear_parts(p: PumpView)
    ensures
        accounted(p.clear_queue()) == accounted(p),
        plain(p, p.clear_queue()),
        p.clear_queue().pending == p.pending,
        p.clear_queue().queue.len() == 0,
        p.clear_queue().poisoned == p.poisoned,
        p.clear_queue().recovering == p.recovering,
        p.clear_queue().settle_armed == p.settle_armed,
        p.clear_queue().abort_confirmed == p.abort_confirmed,
        p.clear_queue().stale_settled == p.stale_settled,
{
    plain_refl(p);
    if p.queue.len() > 0 {
        let o = Ok::<StopReason, AcpxError<Seq<char>>>(StopReason::Cancelled);
        let a = p.resolve_queue(o);
        resolve_queue_parts(p, o);
        let b = a.say("Cleared queued prompts."@);
        say_parts(a, "Cleared queued prompts."@);
        plain_trans(p, a, b);
        let c = b.report_queue(p.pending is Some);
        act_parts(b, c.out.last());
        plain_trans(p, b, c);
        assert(accounted(c) =~= accounted(p));
    }
}

pub(crate) proof fn finish_parts(p: PumpView)
    requires
        p.has_room(),
        p.recovering ==> p.pending is None,
    ensures
        accounted(p.finish_recovery()) == accounted(p),
        plain(p, p.finish_recovery()) || starts(p, p.finish_recovery()),
{
    plain_refl(p);
    if p.recovering && p.abort_confirmed && p.stale_settled {
        let a = PumpView {
            recovering: false,
            abort_confirmed: false,
            stale_settled: false,
            ..p
        };
        assert(plain(p, a));
        next_parts(a);
        if plain(a, a.next_turn()) {
            plain_trans(p, a, a.next_turn());
        } else {
            plain_starts(p, a, a.next_turn());
        }
    }
}

proof fn poison_parts(p: PumpView)
    requires
        p.pending is None,
    ensures
        accounted(p.poison_recovery()) == accounted(p),
        plain(p, p.poison_recovery()),
{
    let a = PumpView {
        recovering: false,
        abort_confirmed: false,
        stale_settled: false,
        poisoned: true,
        cancel_requested: false,
        in_agent_loop: false,
        ..p
    };
    plain_refl(p);
    assert(plain(p, a));
    let b = a.resolve_queue(Err(p.closed()));
    resolve_queue_parts(a, Err(p.closed()));
    plain_trans(p, a, b);
    let c = b.report_queue(false);
    act_parts(b, c.out.last());
    plain_trans(p, b, c);
    assert(accounted(c) =~= accounted(p));
}

proof fn begin_parts(p: PumpView, confirmed: bool)
    ensures
        accounted(p.begin_recovery(confirmed)) == accounted(p),
        plain(p, p.begin_recovery(confirmed)),
{
    let a = PumpView {
        cancel_requested: false,
        in_agent_loop: false,
        recovering: true,
        abort_confirmed: confirmed,
        stale_settled: false,
        ..p
    };
    plain_refl(p);
    assert(plain(p, a));
    let b = a.act(ActionView::ArmRecovery { secs: pump::STALE_DRAIN_TIMEOUT_SECS });
    act_parts(a, b.out.last());
    plain_trans(p, a, b);
    let c = b.report_queue(false);
    act_parts(b, c.out.last());
    plain_trans(p, b, c);
}

pub(crate) proof fn settled_parts(p: PumpView)
    requires
        p.has_room(),
        sound(p),
    ensures
        accounted(p.on_agent_settled()) == accounted(p),
        plain(p, p.on_agent_settled()) || starts(p, p.on_agent_settled()),
{
    plain_refl(p);
    match p.pending {
        None => {
            if p.recovering {
                let a = PumpView { stale_settled: true, ..p };
                assert(plain(p, a));
                finish_parts(a);
                let b = a.finish_recovery();
                if plain(a, b) {
                    plain_trans(p, a, b);
                } else {
                    plain_starts(p, a, b);
                }
            }
        },
        Some(t) => {
            if t.prompt_accepted || p.cancel_requested {
                settle_parts(p);
            }
        },
    }
}

/// What is told of a prompt that waits concerns no other turn.
pub(crate) proof fn queueing_is_quiet(p: PumpView, t: TurnView)
    requires
        !p.poisoned,
        p.pending is Some || p.recovering,
    ensures
        quiet(PumpView { queue: p.on_prompt(t).queue, ..p }, p.on_prompt(t)),
        answered(p.on_prompt(t).out) == answered(p.out),
{
    let q = p.on_prompt(t);
    let a = PumpView { queue: q.queue, ..p };
    let line = "Queued message (position "@ + text::decimal(q.queue.len()) + ")."@;
    let b = a.say(line);
    say_parts(a, line);
    quiet_act(b, q.out.last());
    quiet_trans(a, b, q);
    quiet_answered(a, q);
}

proof fn after_prompt(p: PumpView, t: TurnView)
    requires
        sound(p),
        legal(p, Input::Prompt(t)),
        p.has_room(),
    ensures
        accounted(p.on_prompt(t)) == accounted(p).add(brought(Input::Prompt(t))),
        plain(p, p.on_prompt(t)) || starts(p, p.on_prompt(t)),
{
    let i = Input::Prompt(t);
    let q = p.on_prompt(t);
    plain_refl(p);
    assert(accounted(p).add(Multiset::empty()) =~= accounted(p));
    if p.poisoned {
        let r = ActionView::Resolve { ticket: t.ticket, outcome: Err(p.closed()) };
        plain_act(p, r);
        answered_push(p.out, r);
        assert(accounted(q) =~= accounted(p).add(brought(i)));
    } else if p.pending is Some || p.recovering {
        let a = PumpView { queue: p.queue.push(t), ..p };
        assert(plain(p, a));
        let line = "Queued message (position "@ + text::decimal(a.queue.len()) + ")."@;
        let b = a.say(line);
        say_parts(a, line);
        plain_trans(p, a, b);
        act_parts(b, q.out.last());
        plain_trans(p, b, q);
        waiting_push(p.queue, t);
        assert(accounted(q) =~= accounted(p).add(brought(i)));
    } else {
        start_parts(p, t);
        assert(accounted(q) =~= accounted(p).add(brought(i)));
    }
}

proof fn after_cancel(p: PumpView, k: u64)
    requires
        sound(p),
        legal(p, Input::Cancel(k)),
        p.has_room(),
    ensures
        accounted(p.on_cancel(k)) == accounted(p).add(brought(Input::Cancel(k))),
        plain(p, p.on_cancel(k)) || starts(p, p.on_cancel(k)),
{
    let i = Input::Cancel(k);
    let q = p.on_cancel(k);
    plain_refl(p);
    assert(accounted(p).add(Multiset::empty()) =~= accounted(p));
    if p.poisoned {
        act_parts(p, q.out.last());
    } else {
        let a = PumpView { cancel_requested: p.pending is Some, ..p };
        assert(plain(p, a));
        clear_parts(a);
        let b = a.clear_queue();
        plain_trans(p, a, b);
        act_parts(b, q.out.last());
        plain_trans(p, b, q);
    }
}

proof fn after_cancel_aborted(p: PumpView, k: u64, e: Option<AcpxError<Seq<char>>>)
    requires
        sound(p),
        legal(p, Input::CancelAborted(k, e)),
        p.has_room(),
    ensures
        accounted(p.on_cancel_aborted(k, e)) == accounted(p).add(brought(Input::CancelAborted(k, e))),
        plain(p, p.on_cancel_aborted(k, e)) || starts(p, p.on_cancel_aborted(k, e)),
{
    let i = Input::CancelAborted(k, e);
    let q = p.on_cancel_aborted(k, e);
    plain_refl(p);
    assert(accounted(p).add(Multiset::empty()) =~= accounted(p));
    match e {
        None => {
            act_parts(p, q.out.last());
        },
        Some(err) => {
            let a = PumpView { poisoned: true, cancel_requested: false, ..p };
            assert(plain(p, a));
            let o = Err::<StopReason, AcpxError<Seq<char>>>(p.closed());
            let b = a.resolve_pending(o);
            resolve_pending_parts(a, o);
            plain_trans(p, a, b);
            let c = b.resolve_queue(o);
            resolve_queue_parts(b, o);
            plain_trans(p, b, c);
            let d = PumpView { in_agent_loop: false, settle_armed: false, ..c };
            plain_refl(c);
            assert(plain(c, d));
            plain_trans(p, c, d);
            let f = d.report_queue(false);
            act_parts(d, f.out.last());
            plain_trans(p, d, f);
            act_parts(f, q.out.last());
            plain_trans(p, f, q);
            assert(accounted(q) =~= accounted(p));
        },
    }
}

proof fn after_prompt_result(p: PumpView, n: u64, e: Option<AcpxError<Seq<char>>>)
    requires
        sound(p),
        legal(p, Input::PromptResult(n, e)),
        p.has_room(),
    ensures
        accounted(p.on_prompt_result(n, e)) == accounted(p).add(brought(Input::PromptResult(n, e))),
        plain(p, p.on_prompt_result(n, e)) || starts(p, p.on_prompt_result(n, e)),
{
    let i = Input::PromptResult(n, e);
    let q = p.on_prompt_result(n, e);
    plain_refl(p);
    assert(accounted(p).add(Multiset::empty()) =~= accounted(p));
    if let Some(t) = p.pending {
        if t.turn_id == n {
            match e {
                None => {
                    let a = PumpView {
                        pending: Some(PendingTurn { prompt_accepted: true, ..t }),
                        ..p
                    };
                    assert(plain(p, a));
                    if t.extension_command || t.settled_before_accept {
                        settle_parts(a);
                        if plain(a, q) {
                            plain_trans(p, a, q);
                        } else {
                            plain_starts(p, a, q);
                        }
                    } else if p.settle_timeout_secs > 0 {
                        let b = PumpView { settle_armed: true, ..a };
                        assert(plain(p, b));
                        act_parts(b, q.out.last());
                        plain_trans(p, b, q);
                    }
                },
                Some(err) => {
                    let a = PumpView { settle_armed: false, ..p };
                    assert(plain(p, a));
                    let b = a.act(ActionView::Flush);
                    act_parts(a, ActionView::Flush);
                    plain_trans(p, a, b);
                    let c = b.resolve_pending(Err(err));
                    resolve_pending_parts(b, Err(err));
                    plain_trans(p, b, c);
                    let d = c.resolve_queue(Err(p.closed()));
                    resolve_queue_parts(c, Err(p.closed()));
                    plain_trans(p, c, d);
                    let f = PumpView {
                        poisoned: true,
                        cancel_requested: false,
                        in_agent_loop: false,
                        ..d
                    };
                    plain_refl(d);
                    assert(plain(d, f));
                    plain_trans(p, d, f);
                    act_parts(f, q.out.last());
                    plain_trans(p, f, q);
                    assert(accounted(q) =~= accounted(p));
                },
            }
        }
    }
}

proof fn after_stream_end(p: PumpView, c: Option<i32>, s: Option<i32>)
    requires
        sound(p),
        legal(p, Input::StreamEnd(c, s)),
        p.has_room(),
    ensures
        accounted(p.on_stream_end(c, s)) == accounted(p).add(brought(Input::StreamEnd(c, s))),
        plain(p, p.on_stream_end(c, s)) || starts(p, p.on_stream_end(c, s)),
{
    let i = Input::StreamEnd(c, s);
    let q = p.on_stream_end(c, s);
    plain_refl(p);
    assert(accounted(p).add(Multiset::empty()) =~= accounted(p));
    let error = Err::<StopReason, AcpxError<Seq<char>>>(
        AcpxError::PiExited { code: c, signal: s },
    );
    let a = PumpView { settle_armed: false, ..p };
    assert(plain(p, a));
    let b = a.act(ActionView::Flush);
    act_parts(a, ActionView::Flush);
    plain_trans(p, a, b);
    let d = b.resolve_pending(error);
    resolve_pending_parts(b, error);
    plain_trans(p, b, d);
    let f = d.resolve_queue(error);
    resolve_queue_parts(d, error);
    plain_trans(p, d, f);
    plain_refl(f);
    assert(plain(f, q));
    plain_trans(p, f, q);
    assert(accounted(q) =~= accounted(p));
}

proof fn after_teardown(p: PumpView)
    requires
        sound(p),
        legal(p, Input::Teardown),
        p.has_room(),
    ensures
        accounted(p.teardown()) == accounted(p).add(brought(Input::Teardown)),
        plain(p, p.teardown()) || starts(p, p.teardown()),
{
    let i = Input::Teardown;
    let q = p.teardown();
    plain_refl(p);
    assert(accounted(p).add(Multiset::empty()) =~= accounted(p));
    let error = Err::<StopReason, AcpxError<Seq<char>>>(
        AcpxError::PiExited { code: None, signal: None },
    );
    let d = p.resolve_pending(error);
    resolve_pending_parts(p, error);
    resolve_queue_parts(d, error);
    plain_trans(p, d, q);
    assert(accounted(q) =~= accounted(p));
}

proof fn after_settle_timeout(p: PumpView)
    requires
        sound(p),
        legal(p, Input::SettleTimeout),
        p.has_room(),
    ensures
        accounted(p.on_settle_timeout()) == accounted(p).add(brought(Input::SettleTimeout)),
        plain(p, p.on_settle_timeout()) || starts(p, p.on_settle_timeout()),
{
    let i = Input::SettleTimeout;
    let q = p.on_settle_timeout();
    plain_refl(p);
    assert(accounted(p).add(Multiset::empty()) =~= accounted(p));
    let a = PumpView { settle_armed: false, ..p };
    assert(plain(p, a));
    if p.pending is Some {
        let b = a.act(ActionView::Flush);
        act_parts(a, ActionView::Flush);
        plain_trans(p, a, b);
        if p.cancel_requested {
            let o = Ok::<StopReason, AcpxError<Seq<char>>>(StopReason::Cancelled);
            let c = b.resolve_pending(o);
            resolve_pending_parts(b, o);
            plain_trans(p, b, c);
            begin_parts(c, true);
            plain_trans(p, c, q);
            assert(accounted(q) =~= accounted(p));
        } else {
            let error = Err::<StopReason, AcpxError<Seq<char>>>(
                AcpxError::SettleTimeout { secs: p.settle_timeout_secs },
            );
            let c = b.resolve_pending(error);
            resolve_pending_parts(b, error);
            plain_trans(p, b, c);
            let d = c.resolve_queue(error);
            resolve_queue_parts(c, error);
            plain_trans(p, c, d);
            let f = d.begin_recovery(false);
            begin_parts(d, false);
            plain_trans(p, d, f);
            act_parts(f, ActionView::AbortStale);
            plain_trans(p, f, q);
            assert(accounted(q) =~= accounted(p));
        }
    }
}

proof fn after_recovery_abort(p: PumpView, ok: bool)
    requires
        sound(p),
        legal(p, Input::RecoveryAbort(ok)),
        p.has_room(),
    ensures
        accounted(p.on_recovery_abort_result(ok)) == accounted(p).add(brought(Input::RecoveryAbort(ok))),
        plain(p, p.on_recovery_abort_result(ok)) || starts(p, p.on_recovery_abort_result(ok)),
{
    let i = Input::RecoveryAbort(ok);
    let q = p.on_recovery_abort_result(ok);
    plain_refl(p);
    assert(accounted(p).add(Multiset::empty()) =~= accounted(p));
    if p.recovering {
        if ok {
            let a = PumpView { abort_confirmed: true, ..p };
            assert(plain(p, a));
            finish_parts(a);
            if plain(a, q) {
                plain_trans(p, a, q);
            } else {
                plain_starts(p, a, q);
            }
        } else {
            poison_parts(p);
        }
    }
}

proof fn after_recover_timeout(p: PumpView)
    requires
        sound(p),
        legal(p, Input::RecoverTimeout),
        p.has_room(),
    ensures
        accounted(p.on_recover_timeout()) == accounted(p).add(brought(Input::RecoverTimeout)),
        plain(p, p.on_recover_timeout()) || starts(p, p.on_recover_timeout()),
{
    let i = Input::RecoverTimeout;
    let q = p.on_recover_timeout();
    plain_refl(p);
    assert(accounted(p).add(Multiset::empty()) =~= accounted(p));
    if p.recovering {
        if p.abort_confirmed && p.stale_settled {
            finish_parts(p);
        } else {
            poison_parts(p);
        }
    }
}

proof fn after_initial_usage(p: PumpView)
    requires
        sound(p),
        legal(p, Input::InitialUsage),
        p.has_room(),
    ensures
        accounted(p.on_initial_usage()) == accounted(p).add(brought(Input::InitialUsage)),
        plain(p, p.on_initial_usage()) || starts(p, p.on_initial_usage()),
{
    let i = Input::InitialUsage;
    let q = p.on_initial_usage();
    plain_refl(p);
    assert(accounted(p).add(Multiset::empty()) =~= accounted(p));
    if q != p {
        act_parts(p, q.out.last());
    }
}

pub(crate) proof fn step_parts(p: PumpView, i: Input)
    requires
        sound(p),
        legal(p, i),
        p.has_room(),
    ensures
        accounted(step(p, i)) == accounted(p).add(brought(i)),
        plain(p, step(p, i)) || starts(p, step(p, i)),
{
    plain_refl(p);
    let q = step(p, i);
    assert(accounted(p).add(Multiset::empty()) =~= accounted(p));
    match i {
        Input::Prompt(t) => {
            after_prompt(p, t);
        },
        Input::Cancel(k) => {
            after_cancel(p, k);
        },
        Input::CancelAborted(k, e) => {
            after_cancel_aborted(p, k, e);
        },
        Input::PromptResult(n, e) => {
            after_prompt_result(p, n, e);
        },
        Input::Event(ev, now, echo, file) => {
            if ev is AgentSettled {
                settled_parts(p);
            } else {
                events_leave_turns_alone(p, ev, now, echo, file);
                quiet_is_plain(p, q);
                quiet_answered(p, q);
            }
        },
        Input::Drained(ev, now, echo, file) => {
            if !(ev is AgentSettled) {
                events_leave_turns_alone(p, ev, now, echo, file);
                quiet_is_plain(p, q);
                quiet_answered(p, q);
            }
        },
        Input::StreamEnd(c, s) => {
            after_stream_end(p, c, s);
        },
        Input::Teardown => {
            after_teardown(p);
        },
        Input::SettleTimeout => {
            after_settle_timeout(p);
        },
        Input::RecoveryAbort(ok) => {
            after_recovery_abort(p, ok);
        },
        Input::RecoverTimeout => {
            after_recover_timeout(p);
        },
        Input::InitialUsage => {
            after_initial_usage(p);
        },
    }
}

// ---------------------------------------------------------------------------
// The laws
// ---------------------------------------------------------------------------

/// No turn is lost and none is answered twice: whatever the session is told,
/// the turns it still owes an answer together with those it answered are those
/// it had before, and the one it was just given.
pub proof fn turns_are_answered_once(p: PumpView, i: Input)
    requires
        sound(p),
        legal(p, i),
        p.has_room(),
    ensures
        accounted(step(p, i)) == accounted(p).add(brought(i)),
{
    step_parts(p, i);
}

/// When the session ends, every turn it was given has been answered.
pub proof fn teardown_answers_everything(p: PumpView)
    ensures
        outstanding(p.teardown()) == Multiset::<u64>::empty(),
        answered(p.teardown().out) == accounted(p),
{
    let error = Err::<StopReason, AcpxError<Seq<char>>>(
        AcpxError::PiExited { code: None, signal: None },
    );
    let d = p.resolve_pending(error);
    resolve_pending_parts(p, error);
    resolve_queue_parts(d, error);
    assert(answered(p.teardown().out) =~= accounted(p));
}

/// What a session decided to do stays decided, in that order.
pub proof fn actions_are_never_taken_back(p: PumpView, i: Input)
    requires
        sound(p),
        legal(p, i),
        p.has_room(),
    ensures
        step(p, i).out.len() >= p.out.len(),
        step(p, i).out.take(p.out.len() as int) == p.out,
{
    step_parts(p, i);
}

/// One turn at a time: a step sends at most one prompt, it is that of the turn
/// that runs afterwards, and its number was never used before.
pub proof fn a_prompt_is_sent_for_the_running_turn(p: PumpView, i: Input, k: int)
    requires
        sound(p),
        legal(p, i),
        p.has_room(),
        p.out.len() <= k < step(p, i).out.len(),
        step(p, i).out[k] is SendPrompt,
    ensures
        k == step(p, i).out.len() - 1,
        step(p, i).out[k] matches ActionView::SendPrompt { turn_id, .. } && turn_id
            == p.next_turn_id,
        step(p, i).pending is Some,
        step(p, i).pending->0.turn_id == p.next_turn_id,
        step(p, i).next_turn_id == p.next_turn_id + 1,
{
    step_parts(p, i);
}

proof fn sound_after_cancel(p: PumpView, k: u64)
    requires
        sound(p),
        legal(p, Input::Cancel(k)),
        p.has_room(),
    ensures
        sound(p.on_cancel(k)),
{
    if !p.poisoned {
        let a = PumpView { cancel_requested: p.pending is Some, ..p };
        clear_parts(a);
    }
}

proof fn sound_after_cancel_aborted(p: PumpView, k: u64, e: Option<AcpxError<Seq<char>>>)
    requires
        sound(p),
        legal(p, Input::CancelAborted(k, e)),
        p.has_room(),
    ensures
        sound(p.on_cancel_aborted(k, e)),
{
    if let Some(err) = e {
        let a = PumpView { poisoned: true, cancel_requested: false, ..p };
        let o = Err::<StopReason, AcpxError<Seq<char>>>(p.closed());
        resolve_pending_parts(a, o);
        resolve_queue_parts(a.resolve_pending(o), o);
    }
}

proof fn sound_after_prompt_result(p: PumpView, n: u64, e: Option<AcpxError<Seq<char>>>)
    requires
        sound(p),
        legal(p, Input::PromptResult(n, e)),
        p.has_room(),
    ensures
        sound(p.on_prompt_result(n, e)),
{
    if let Some(t) = p.pending {
        if t.turn_id == n {
            match e {
                None => {},
                Some(err) => {
                    let b = PumpView { settle_armed: false, ..p }.act(ActionView::Flush);
                    resolve_pending_parts(b, Err(err));
                    resolve_queue_parts(b.resolve_pending(Err(err)), Err(p.closed()));
                },
            }
        }
    }
}

proof fn sound_after_stream_end(p: PumpView, c: Option<i32>, s: Option<i32>)
    requires
        sound(p),
        legal(p, Input::StreamEnd(c, s)),
        p.has_room(),
    ensures
        sound(p.on_stream_end(c, s)),
{
    let error = Err::<StopReason, AcpxError<Seq<char>>>(
        AcpxError::PiExited { code: c, signal: s },
    );
    let b = PumpView { settle_armed: false, ..p }.act(ActionView::Flush);
    resolve_pending_parts(b, error);
    resolve_queue_parts(b.resolve_pending(error), error);
}

proof fn sound_after_settle_timeout(p: PumpView)
    requires
        sound(p),
        legal(p, Input::SettleTimeout),
        p.has_room(),
    ensures
        sound(p.on_settle_timeout()),
{
    let b = PumpView { settle_armed: false, ..p }.act(ActionView::Flush);
    let error = Err::<StopReason, AcpxError<Seq<char>>>(
        AcpxError::SettleTimeout { secs: p.settle_timeout_secs },
    );
    resolve_pending_parts(b, error);
    resolve_queue_parts(b.resolve_pending(error), error);
}

proof fn sound_after_recovery_abort(p: PumpView, ok: bool)
    requires
        sound(p),
        legal(p, Input::RecoveryAbort(ok)),
        p.has_room(),
    ensures
        sound(p.on_recovery_abort_result(ok)),
{
    let a = PumpView {
        recovering: false,
        abort_confirmed: false,
        stale_settled: false,
        poisoned: true,
        cancel_requested: false,
        in_agent_loop: false,
        ..p
    };
    resolve_queue_parts(a, Err(p.closed()));
}

proof fn sound_after_recover_timeout(p: PumpView)
    requires
        sound(p),
        legal(p, Input::RecoverTimeout),
        p.has_room(),
    ensures
        sound(p.on_recover_timeout()),
{
    let a = PumpView {
        recovering: false,
        abort_confirmed: false,
        stale_settled: false,
        poisoned: true,
        cancel_requested: false,
        in_agent_loop: false,
        ..p
    };
    resolve_queue_parts(a, Err(p.closed()));
}

/// A session that goes on stays sound.
pub proof fn sessions_stay_sound(p: PumpView, i: Input)
    requires
        sound(p),
        legal(p, i),
        p.has_room(),
        !(i is Teardown),
    ensures
        sound(step(p, i)),
{
    match i {
        Input::Prompt(t) => {},
        Input::Cancel(k) => {
            sound_after_cancel(p, k);
        },
        Input::CancelAborted(k, e) => {
            sound_after_cancel_aborted(p, k, e);
        },
        Input::PromptResult(n, e) => {
            sound_after_prompt_result(p, n, e);
        },
        Input::Event(ev, now, echo, file) => {
            if !(ev is AgentSettled) {
                events_leave_turns_alone(p, ev, now, echo, file);
            }
        },
        Input::Drained(ev, now, echo, file) => {
            if !(ev is AgentSettled) {
                events_leave_turns_alone(p, ev, now, echo, file);
            }
        },
        Input::StreamEnd(c, s) => {
            sound_after_stream_end(p, c, s);
        },
        Input::Teardown => {
        },
        Input::SettleTimeout => {
            sound_after_settle_timeout(p);
        },
        Input::RecoveryAbort(ok) => {
            sound_after_recovery_abort(p, ok);
        },
        Input::RecoverTimeout => {
            sound_after_recover_timeout(p);
        },
        Input::InitialUsage => {},
    }
}

/// A session without turns is sound, and owes nothing.
pub proof fn a_new_session_is_sound(p: PumpView)
    requires
        p.queue.len() == 0,
        p.pending is None,
        p.out.len() == 0,
        !p.poisoned && !p.recovering && !p.abort_confirmed && !p.stale_settled
            && !p.settle_armed,
    ensures
        sound(p),
        accounted(p) == Multiset::<u64>::empty(),
{
    assert(accounted(p) =~= Multiset::empty());
}

/// A settle that belongs to a turn that timed out answers nobody: it only lets
/// the recovery go on.
pub proof fn a_stale_settle_answers_nobody(p: PumpView)
    requires
        sound(p),
        p.recovering,
        p.has_room(),
    ensures
        answered(p.on_agent_settled().out) == answered(p.out),
        !p.abort_confirmed ==> p.on_agent_settled() == (PumpView { stale_settled: true, ..p }),
{
    let a = PumpView { stale_settled: true, ..p };
    if p.abort_confirmed {
        let b = PumpView { recovering: false, abort_confirmed: false, stale_settled: false, ..a };
        if b.queue.len() > 0 {
            let c = PumpView { queue: b.queue.skip(1), ..b };
            let line = "Starting queued message. ("@ + text::decimal(c.queue.len())
                + " remaining)"@;
            say_parts(c, line);
            start_parts(c.say(line), b.queue[0]);
        } else {
            act_parts(b, b.report_queue(false).out.last());
        }
    }
}

proof fn poisoned_stays(p: PumpView, i: Input)
    requires
        sound(p),
        p.poisoned,
        legal(p, i),
    ensures
        step(p, i).poisoned,
        step(p, i).pending is None,
        plain(p, step(p, i)),
{
    plain_refl(p);
    match i {
        Input::Prompt(t) => {
            plain_act(p, ActionView::Resolve { ticket: t.ticket, outcome: Err(p.closed()) });
        },
        Input::Cancel(k) => {
            plain_act(p, ActionView::Answer { ticket: k, result: Err(p.closed()) });
        },
        Input::CancelAborted(k, e) => {},
        Input::PromptResult(n, e) => {},
        Input::Event(ev, now, echo, file) => {
            if !(ev is AgentSettled) {
                events_leave_turns_alone(p, ev, now, echo, file);
                quiet_is_plain(p, step(p, i));
            }
        },
        Input::Drained(ev, now, echo, file) => {},
        Input::StreamEnd(c, s) => {
            plain_act(p, ActionView::Flush);
        },
        Input::Teardown => {},
        Input::SettleTimeout => {},
        Input::RecoveryAbort(ok) => {},
        Input::RecoverTimeout => {},
        Input::InitialUsage => {
            if p.context_window is Some {
                plain_act(p, step(p, i).out.last());
            }
        },
    }
}

/// A closed session stays closed: it sends no prompt any more, and refuses
/// every turn that it is given.
pub proof fn a_closed_session_stays_closed(p: PumpView, i: Input)
    requires
        sound(p),
        p.poisoned,
        legal(p, i),
    ensures
        step(p, i).poisoned,
        step(p, i).pending is None,
        forall|k: int|
            p.out.len() <= k < step(p, i).out.len() ==> !((#[trigger] step(p, i).out[k])
                is SendPrompt),
        i matches Input::Prompt(t) ==> step(p, i).out == p.out.push(
            ActionView::Resolve { ticket: t.ticket, outcome: Err(p.closed()) },
        ),
{
    poisoned_stays(p, i);
}

/// The answer to the prompt of a turn that is over changes nothing.
pub proof fn a_late_answer_is_ignored(
    p: PumpView,
    turn_id: u64,
    failure: Option<AcpxError<Seq<char>>>,
)
    requires
        p.pending matches Some(t) ==> t.turn_id != turn_id,
    ensures
        p.on_prompt_result(turn_id, failure) == p,
{
}

/// A cancel answers the turns that wait, in order and as cancelled, and leaves
/// the running turn to its abort.
pub proof fn a_cancel_clears_the_queue(p: PumpView, ticket: u64)
    requires
        !p.poisoned,
    ensures
        p.on_cancel(ticket).queue.len() == 0,
        p.on_cancel(ticket).pending == p.pending,
        p.on_cancel(ticket).cancel_requested == (p.pending is Some),
        answered(p.on_cancel(ticket).out) == answered(p.out).add(waiting(p.queue)),
        forall|k: int|
            0 <= k < p.queue.len() ==> #[trigger] p.on_cancel(ticket).out[p.out.len() + k] == (
            ActionView::Resolve {
                ticket: p.queue[k].ticket,
                outcome: Ok(StopReason::Cancelled),
            }),
{
    let a = PumpView { cancel_requested: p.pending is Some, ..p };
    let q = p.on_cancel(ticket);
    if p.queue.len() > 0 {
        let o = Ok::<StopReason, AcpxError<Seq<char>>>(StopReason::Cancelled);
        let b = a.resolve_queue(o);
        resolve_queue_parts(a, o);
        resolve_queue_order(a, o);
        let c = b.say("Cleared queued prompts."@);
        say_parts(b, "Cleared queued prompts."@);
        let d = c.report_queue(p.pending is Some);
        act_parts(c, d.out.last());
        act_parts(d, q.out.last());
        plain_trans(b, c, d);
        plain_trans(b, d, q);
        assert forall|k: int| 0 <= k < p.queue.len() implies #[trigger] q.out[p.out.len() + k] == (
        ActionView::Resolve { ticket: p.queue[k].ticket, outcome: o }) by {
            assert(q.out.take(b.out.len() as int)[p.out.len() + k] == b.out[p.out.len() + k]);
        }
    } else {
        act_parts(a, q.out.last());
        assert(answered(p.out).add(waiting(p.queue)) =~= answered(p.out));
    }
}

/// The waiting turns are answered first come first.
pub(crate) proof fn resolve_queue_order(p: PumpView, o: Result<StopReason, AcpxError<Seq<char>>>)
    ensures
        p.resolve_queue(o).out.len() == p.out.len() + p.queue.len(),
        forall|k: int|
            0 <= k < p.queue.len() ==> #[trigger] p.resolve_queue(o).out[p.out.len() + k] == (
            ActionView::Resolve { ticket: p.queue[k].ticket, outcome: o }),
    decreases p.queue.len(),
{
    if p.queue.len() > 0 {
        let a = PumpView { queue: p.queue.skip(1), ..p };
        let b = a.resolve(p.queue[0].ticket, o);
        let r = p.resolve_queue(o);
        resolve_queue_order(b, o);
        resolve_queue_parts(b, o);
        assert forall|k: int| 0 <= k < p.queue.len() implies #[trigger] r.out[p.out.len() + k] == (
        ActionView::Resolve { ticket: p.queue[k].ticket, outcome: o }) by {
            if k == 0 {
                assert(r.out.take(b.out.len() as int)[p.out.len() as int] == b.out[p.out.len() as int]);
            } else {
                assert(r.out[b.out.len() + (k - 1)] == (ActionView::Resolve {
                    ticket: b.queue[k - 1].ticket,
                    outcome: o,
                }));
            }
        }
    }
}

/// The turn of a command that pi's extensions carry out ends when pi accepts
/// it: no settle follows.
pub proof fn an_extension_command_ends_when_accepted(p: PumpView)
    requires
        p.has_room(),
        p.pending is Some,
        p.pending->0.extension_command,
    ensures
        p.on_prompt_result(p.pending->0.turn_id, None).out.len() >= p.out.len() + 2,
        p.on_prompt_result(p.pending->0.turn_id, None).out[p.out.len() as int]
            == ActionView::Flush,
        p.on_prompt_result(p.pending->0.turn_id, None).out[p.out.len() as int + 1] matches
            ActionView::Resolve { ticket, .. } && ticket == p.pending->0.ticket,
{
    let a = PumpView {
        pending: Some(PendingTurn { prompt_accepted: true, ..p.pending->0 }),
        ..p
    };
    told_before_answered(a);
}

/// An error that pi reports twice in a turn is told once.
pub proof fn an_error_is_told_once(p: PumpView, error: Seq<char>)
    ensures
        p.on_error(error).on_error(error) == p.on_error(error),
{
}

/// A call that runs has not been set back.
pub open spec fn runs_or_ended(p: PumpView, id: Seq<char>) -> bool {
    p.tracks(id) ==> p.tool(id).status is InProgress
}

proof fn running_part(p: PumpView, e: AssistantMessageEvent, id: Seq<char>)
    requires
        p.tracks(id),
        p.tool(id).status is InProgress,
    ensures
        runs_or_ended(p.on_part(e), id),
{
}

pub(crate) proof fn settled_keeps_tools(p: PumpView)
    ensures
        p.on_agent_settled().tools == p.tools,
{
}

pub(crate) proof fn message_end_keeps_tools(p: PumpView, message: crate::json::JsonView)
    ensures
        p.on_message_end(message).tools == p.tools,
{
}

/// A call that runs stays running until it ends, whatever pi reports
/// meanwhile: a call that is announced late is not set back.
pub proof fn a_running_call_stays_running(
    p: PumpView,
    ev: RpcEvent,
    now: Seq<char>,
    echo: bool,
    file: Option<Seq<char>>,
    id: Seq<char>,
)
    requires
        p.tracks(id),
        p.tool(id).status is InProgress,
    ensures
        runs_or_ended(p.on_event(ev, now, echo, file), id),
{
    match ev {
        RpcEvent::MessageUpdate { usage, assistant_message_event } => {
            let a = p.on_usage(pump::report_of(usage));
            assert(a.tools == p.tools);
            running_part(a, assistant_message_event, id);
        },
        RpcEvent::MessageEnd { message } => {
            message_end_keeps_tools(p, message@);
        },
        RpcEvent::AgentSettled => {
            settled_keeps_tools(p);
        },
        _ => {},
    }
}

/// A frame that shows a call.
pub open spec fn shows(a: ActionView, id: Seq<char>) -> bool {
    match a {
        ActionView::Emit(OutboundView::ToolCall(f)) => f.tool_call_id == id,
        ActionView::Emit(OutboundView::BashToolCall(f)) => f.tool_call_id == id,
        _ => false,
    }
}

/// A frame that shows a call as not yet running.
pub open spec fn shows_pending(a: ActionView) -> bool {
    match a {
        ActionView::Emit(OutboundView::ToolCall(f)) => f.status == Some(ToolStatusFact::Pending),
        ActionView::Emit(OutboundView::BashToolCall(f)) => f.status is Pending,
        _ => false,
    }
}

/// A call that runs is not shown as waiting when its announcement arrives late.
pub proof fn a_running_call_is_shown_running(
    p: PumpView,
    id: Seq<char>,
    name: Seq<char>,
    raw_input: Option<crate::json::JsonView>,
)
    requires
        id.len() > 0,
        p.tracks(id),
        p.tool(id).status is InProgress,
    ensures
        p.surface(id, name, raw_input).out.len() == p.out.len() + 1,
        shows(p.surface(id, name, raw_input).out.last(), id),
        !shows_pending(p.surface(id, name, raw_input).out.last()),
{
}

/// What a terminal shows is what its frames brought: each frame brings what is
/// missing, as long as the output only grows.
pub proof fn frames_rebuild_the_output(
    p: PumpView,
    id: Seq<char>,
    status: crate::session::facts::BashToolStatus,
    result: crate::json::JsonView,
    exit_code: Option<i32>,
)
    requires
        text::begins(bash::terminal_text(result), p.tool(id).output),
    ensures
        p.show_bash(id, status, result, exit_code).out.last() matches ActionView::Emit(
            OutboundView::BashToolCall(f),
        ) && p.tool(id).output + f.output_delta == f.output,
{
    bash::added_rebuilds_output(p.tool(id).output, bash::terminal_text(result));
}

/// A message that begins has a name that no message before it had.
pub proof fn message_ids_are_fresh(p: PumpView, earlier: nat)
    requires
        p.has_room(),
        earlier <= p.next_message_seq,
    ensures
        p.mint().message_id is Some,
        p.mint().message_id->0 != "pi-msg-"@ + text::decimal(earlier),
{
    let n = (p.next_message_seq + 1) as nat;
    text::decimal_reads_back(n);
    text::decimal_reads_back(earlier);
    let a = "pi-msg-"@ + text::decimal(n);
    let b = "pi-msg-"@ + text::decimal(earlier);
    if a == b {
        let k = "pi-msg-"@.len() as int;
        assert(a.skip(k) =~= text::decimal(n));
        assert(b.skip(k) =~= text::decimal(earlier));
    }
}

} // verus!
