//! How turns end: who is answered, and what.

use crate::error::AcpxError;
use crate::session::facts::{ForegroundState, StopReason};
use crate::session::laws;
use crate::session::order;
use crate::session::pump::{ActionView, PendingTurn, PumpView, TurnView};
use vstd::prelude::*;

verus! {

/// How a turn ended.
pub type Outcome = Result<StopReason, AcpxError<Seq<char>>>;

/// The turns that were answered, each with how it ended, in order.
pub open spec fn answers(out: Seq<ActionView>) -> Seq<(u64, Outcome)>
    decreases out.len(),
{
    if out.len() == 0 {
        Seq::empty()
    } else {
        let before = answers(out.drop_last());
        match out.last() {
            ActionView::Resolve { ticket, outcome } => before.push((ticket, outcome)),
            _ => before,
        }
    }
}

/// The requests to cancel that were answered, in order.
pub open spec fn replies(out: Seq<ActionView>) -> Seq<(u64, Result<(), AcpxError<Seq<char>>>)>
    decreases out.len(),
{
    if out.len() == 0 {
        Seq::empty()
    } else {
        let before = replies(out.drop_last());
        match out.last() {
            ActionView::Answer { ticket, result } => before.push((ticket, result)),
            _ => before,
        }
    }
}

/// Every one of the turns that wait, ended in one way.
pub open spec fn all_end(queue: Seq<TurnView>, o: Outcome) -> Seq<(u64, Outcome)> {
    Seq::new(queue.len(), |k: int| (queue[k].ticket, o))
}

/// The running turn, ended in some way.
pub open spec fn runner_ends(p: PumpView, o: Outcome) -> Seq<(u64, Outcome)> {
    match p.pending {
        Some(t) => seq![(t.ticket, o)],
        None => Seq::empty(),
    }
}

proof fn push_answers(out: Seq<ActionView>, a: ActionView)
    ensures
        answers(out.push(a)) == (match a {
            ActionView::Resolve { ticket, outcome } => answers(out).push((ticket, outcome)),
            _ => answers(out),
        }),
        replies(out.push(a)) == (match a {
            ActionView::Answer { ticket, result } => replies(out).push((ticket, result)),
            _ => replies(out),
        }),
{
    assert(out.push(a).drop_last() =~= out);
}

proof fn quiet_answers_nobody(p: PumpView, q: PumpView)
    requires
        laws::quiet(p, q),
    ensures
        answers(q.out) == answers(p.out),
        replies(q.out) == replies(p.out),
    decreases q.out.len() - p.out.len(),
{
    if q.out.len() == p.out.len() {
        assert(q.out =~= q.out.take(p.out.len() as int));
    } else {
        let r = PumpView { out: q.out.drop_last(), ..q };
        assert(r.out.take(p.out.len() as int) =~= q.out.take(p.out.len() as int));
        assert forall|k: int| p.out.len() <= k < r.out.len() implies laws::idle_action(
            #[trigger] r.out[k],
        ) by {
            assert(r.out[k] == q.out[k]);
        }
        quiet_answers_nobody(p, r);
        assert(laws::idle_action(q.out[q.out.len() - 1]));
        assert(q.out =~= r.out.push(q.out.last()));
        push_answers(r.out, q.out.last());
    }
}

proof fn queue_ends(p: PumpView, o: Outcome)
    ensures
        answers(p.resolve_queue(o).out) == answers(p.out) + all_end(p.queue, o),
        replies(p.resolve_queue(o).out) == replies(p.out),
        p.resolve_queue(o) == (PumpView {
            queue: Seq::empty(),
            out: p.resolve_queue(o).out,
            ..p
        }),
    decreases p.queue.len(),
{
    if p.queue.len() == 0 {
        assert(answers(p.out) + all_end(p.queue, o) =~= answers(p.out));
        assert(p.queue =~= Seq::empty());
    } else {
        let q = PumpView { queue: p.queue.skip(1), ..p }.resolve(p.queue[0].ticket, o);
        push_answers(p.out, q.out.last());
        queue_ends(q, o);
        assert(answers(p.out) + all_end(p.queue, o) =~= answers(q.out) + all_end(q.queue, o));
    }
}

proof fn runner_ends_so(p: PumpView, o: Outcome)
    ensures
        answers(p.resolve_pending(o).out) == answers(p.out) + runner_ends(p, o),
        replies(p.resolve_pending(o).out) == replies(p.out),
        p.resolve_pending(o) == (PumpView {
            pending: None,
            out: p.resolve_pending(o).out,
            ..p
        }),
{
    if p.pending is Some {
        push_answers(p.out, p.resolve_pending(o).out.last());
    }
    assert(answers(p.resolve_pending(o).out) =~= answers(p.out) + runner_ends(p, o));
}

proof fn all_are_ended(p: PumpView, o: Outcome, w: Outcome)
    ensures
        ({
            let q = p.resolve_pending(o).resolve_queue(w);
            &&& answers(q.out) == answers(p.out) + runner_ends(p, o) + all_end(p.queue, w)
            &&& replies(q.out) == replies(p.out)
            &&& q == PumpView { pending: None, queue: Seq::empty(), out: q.out, ..p }
        }),
{
    runner_ends_so(p, o);
    queue_ends(p.resolve_pending(o), w);
}

/// A turn that pi settles is answered once: it completed, or it was cancelled
/// when the client had cancelled it. Turns that wait are not answered.
pub proof fn a_settled_turn_is_answered(p: PumpView)
    requires
        p.pending is Some,
        p.pending->0.prompt_accepted || p.cancel_requested,
        p.has_room(),
    ensures
        answers(p.on_agent_settled().out) == answers(p.out).push(
            (
                p.pending->0.ticket,
                Ok(
                    if p.cancel_requested {
                        StopReason::Cancelled
                    } else {
                        StopReason::EndTurn
                    },
                ),
            ),
        ),
        replies(p.on_agent_settled().out) == replies(p.out),
        !p.on_agent_settled().cancel_requested,
{
    settle_answers(p);
}

proof fn settle_answers(p: PumpView)
    requires
        p.pending is Some,
        p.has_room(),
    ensures
        answers(p.settle().out) == answers(p.out).push(
            (
                p.pending->0.ticket,
                Ok(
                    if p.cancel_requested {
                        StopReason::Cancelled
                    } else {
                        StopReason::EndTurn
                    },
                ),
            ),
        ),
        replies(p.settle().out) == replies(p.out),
{
    let t = p.pending->0;
    let reason = if p.cancel_requested {
        StopReason::Cancelled
    } else {
        StopReason::EndTurn
    };
    let b = PumpView { settle_armed: false, pending: None, ..p }.act(ActionView::Flush);
    push_answers(p.out, ActionView::Flush);
    let r = ActionView::Resolve { ticket: t.ticket, outcome: Ok(reason) };
    let c = PumpView { in_agent_loop: false, ..b.act(r) };
    push_answers(b.out, r);
    let e = c.report_foreground(ForegroundState::Idle(reason));
    push_answers(c.out, e.out.last());
    next_answers_nobody(e);
}

proof fn next_answers_nobody(p: PumpView)
    requires
        p.pending is None,
        p.has_room(),
    ensures
        answers(p.next_turn().out) == answers(p.out),
        replies(p.next_turn().out) == replies(p.out),
{
    if p.queue.len() > 0 {
        let a = PumpView { queue: p.queue.skip(1), ..p };
        let line = "Starting queued message. ("@ + crate::text::decimal(a.queue.len())
            + " remaining)"@;
        laws::say_parts(a, line);
        let b = a.say(line);
        quiet_answers_nobody(a, b);
        start_answers_nobody(b, p.queue[0]);
    } else {
        push_answers(p.out, p.next_turn().out.last());
    }
}

proof fn start_answers_nobody(p: PumpView, t: TurnView)
    ensures
        answers(p.start_turn(t).out) == answers(p.out),
        replies(p.start_turn(t).out) == replies(p.out),
{
    let d = p.start_turn(t);
    let n = p.out.len() as int;
    let x = d.out[n];
    let y = d.out[n + 1];
    push_answers(p.out, x);
    push_answers(p.out.push(x), y);
    push_answers(p.out.push(x).push(y), d.out.last());
    assert(d.out =~= p.out.push(x).push(y).push(d.out.last()));
}

/// A settle that comes before pi accepted the prompt is remembered: the turn
/// ends as soon as pi accepts it, and not before.
pub proof fn an_early_settle_is_remembered(p: PumpView)
    requires
        p.pending is Some,
        !p.pending->0.prompt_accepted,
        !p.cancel_requested,
        p.has_room(),
    ensures
        p.on_agent_settled().out == p.out,
        p.on_agent_settled().pending is Some,
        answers(p.on_agent_settled().on_prompt_result(p.pending->0.turn_id, None).out) == answers(
            p.out,
        ).push((p.pending->0.ticket, Ok(StopReason::EndTurn))),
{
    let q = p.on_agent_settled();
    let r = PumpView {
        pending: Some(PendingTurn { prompt_accepted: true, ..q.pending->0 }),
        ..q
    };
    settle_answers(r);
}

/// A prompt that pi accepts goes on: nobody is answered, and the clock is
/// started when turns have a time.
pub proof fn an_accepted_prompt_goes_on(p: PumpView)
    requires
        p.pending is Some,
        !p.pending->0.extension_command,
        !p.pending->0.settled_before_accept,
    ensures
        ({
            let q = p.on_prompt_result(p.pending->0.turn_id, None);
            &&& q.pending matches Some(t) && t.ticket == p.pending->0.ticket && t.turn_id
                == p.pending->0.turn_id && t.prompt_accepted
            &&& q.queue == p.queue
            &&& p.settle_timeout_secs > 0 ==> q.settle_armed && q.out == p.out.push(
                ActionView::ArmSettle { secs: p.settle_timeout_secs },
            )
            &&& p.settle_timeout_secs == 0 ==> q.out == p.out && q.settle_armed == p.settle_armed
        }),
{
}

/// A prompt that pi refuses ends its turn with pi's error, and closes the
/// session: the turns that wait end as refused by a closed session.
pub proof fn a_refused_prompt_closes_the_session(p: PumpView, e: AcpxError<Seq<char>>)
    requires
        p.pending is Some,
    ensures
        ({
            let q = p.on_prompt_result(p.pending->0.turn_id, Some(e));
            &&& answers(q.out) == answers(p.out) + seq![(p.pending->0.ticket, Err(e))] + all_end(
                p.queue,
                Err(AcpxError::SessionClosed(p.session_id)),
            )
            &&& q.poisoned
            &&& q.pending is None
            &&& q.queue.len() == 0
            &&& replies(q.out) == replies(p.out)
        }),
{
    let b = PumpView { settle_armed: false, ..p }.act(ActionView::Flush);
    push_answers(p.out, ActionView::Flush);
    all_are_ended(b, Err(e), Err(p.closed()));
    let c = b.resolve_pending(Err(e)).resolve_queue(Err(p.closed()));
    push_answers(c.out, p.on_prompt_result(p.pending->0.turn_id, Some(e)).out.last());
}

/// A closed session refuses a prompt and a cancel at once, and says so.
pub proof fn a_closed_session_refuses(p: PumpView, t: TurnView, ticket: u64)
    requires
        p.poisoned,
    ensures
        p.on_prompt(t).out == p.out.push(
            ActionView::Resolve {
                ticket: t.ticket,
                outcome: Err(AcpxError::SessionClosed(p.session_id)),
            },
        ),
        p.on_cancel(ticket).out == p.out.push(
            ActionView::Answer { ticket, result: Err(AcpxError::SessionClosed(p.session_id)) },
        ),
{
}

/// A cancel ends the turns that wait, as cancelled and in order. A turn that
/// runs is to be aborted, and the cancel is answered when it was; with none
/// running it is answered at once.
pub proof fn a_cancel_is_carried_out(p: PumpView, ticket: u64)
    requires
        !p.poisoned,
    ensures
        ({
            let q = p.on_cancel(ticket);
            &&& answers(q.out) == answers(p.out) + all_end(p.queue, Ok(StopReason::Cancelled))
            &&& q.queue.len() == 0
            &&& q.pending == p.pending
            &&& p.pending matches Some(t) ==> q.cancel_requested && replies(q.out) == replies(
                p.out,
            ) && q.out.last() == (ActionView::AbortTurn { turn_id: t.turn_id, ticket })
            &&& p.pending is None ==> !q.cancel_requested && replies(q.out) == replies(
                p.out,
            ).push((ticket, Ok(())))
            &&& q.poisoned == p.poisoned
        }),
{
    let q = p.on_cancel(ticket);
    let a = PumpView { cancel_requested: p.pending is Some, ..p };
    let o = Ok::<StopReason, AcpxError<Seq<char>>>(StopReason::Cancelled);
    let c = a.clear_queue();
    if p.queue.len() > 0 {
        queue_ends(a, o);
        let b = a.resolve_queue(o);
        laws::say_parts(b, "Cleared queued prompts."@);
        let d = b.say("Cleared queued prompts."@);
        quiet_answers_nobody(b, d);
        push_answers(d.out, c.out.last());
    } else {
        assert(answers(p.out) + all_end(p.queue, o) =~= answers(p.out));
    }
    push_answers(c.out, q.out.last());
}

/// A turn whose abort pi carried out is left to its settle, and the cancel is
/// answered. An abort that fails is reported, and closes the session: the
/// turns are refused by a closed session.
pub proof fn an_abort_is_reported(p: PumpView, ticket: u64, e: AcpxError<Seq<char>>)
    ensures
        p.on_cancel_aborted(ticket, None) == (PumpView {
            out: p.out.push(ActionView::Answer { ticket, result: Ok(()) }),
            ..p
        }),
        ({
            let q = p.on_cancel_aborted(ticket, Some(e));
            let refused = Err(AcpxError::SessionClosed(p.session_id));
            &&& answers(q.out) == answers(p.out) + runner_ends(p, refused) + all_end(
                p.queue,
                refused,
            )
            &&& replies(q.out) == replies(p.out).push((ticket, Err(e)))
            &&& q.poisoned
            &&& q.pending is None
            &&& q.queue.len() == 0
        }),
{
    let q = p.on_cancel_aborted(ticket, Some(e));
    let a = PumpView { poisoned: true, cancel_requested: false, ..p };
    all_are_ended(a, Err(p.closed()), Err(p.closed()));
    let c = a.resolve_pending(Err(p.closed())).resolve_queue(Err(p.closed()));
    let d = PumpView { in_agent_loop: false, settle_armed: false, ..c };
    let f = d.report_queue(false);
    push_answers(d.out, f.out.last());
    push_answers(f.out, q.out.last());
}

/// When pi is gone, every turn ends with how pi ended.
pub proof fn pis_end_is_reported(p: PumpView, code: Option<i32>, signal: Option<i32>)
    ensures
        ({
            let q = p.on_stream_end(code, signal);
            let gone = Err(AcpxError::PiExited { code, signal });
            &&& answers(q.out) == answers(p.out) + runner_ends(p, gone) + all_end(p.queue, gone)
            &&& q.pending is None
            &&& q.queue.len() == 0
        }),
        ({
            let q = p.teardown();
            let gone = Err(AcpxError::PiExited { code: None, signal: None });
            &&& answers(q.out) == answers(p.out) + runner_ends(p, gone) + all_end(p.queue, gone)
            &&& q.pending is None
            &&& q.queue.len() == 0
        }),
{
    let o = Err::<StopReason, AcpxError<Seq<char>>>(AcpxError::PiExited { code, signal });
    let b = PumpView { settle_armed: false, ..p }.act(ActionView::Flush);
    push_answers(p.out, ActionView::Flush);
    all_are_ended(b, o, o);
    let g = Err::<StopReason, AcpxError<Seq<char>>>(
        AcpxError::PiExited { code: None, signal: None },
    );
    all_are_ended(p, g, g);
}

/// A turn that does not end in its time ends with that error, and so do those
/// that wait; pi is told to give it up, and no turn runs until it is certainly
/// gone. A cancelled turn that does not end in its time ends as cancelled, and
/// those that wait go on waiting.
pub proof fn a_turn_has_its_time(p: PumpView)
    requires
        p.pending is Some,
    ensures
        ({
            let q = p.on_settle_timeout();
            let late = Err(AcpxError::SettleTimeout { secs: p.settle_timeout_secs });
            &&& q.pending is None
            &&& q.recovering
            &&& !q.settle_armed
            &&& !q.stale_settled
            &&& q.poisoned == p.poisoned
            &&& !p.cancel_requested ==> {
                &&& answers(q.out) == answers(p.out) + runner_ends(p, late) + all_end(
                    p.queue,
                    late,
                )
                &&& q.queue.len() == 0
                &&& !q.abort_confirmed
                &&& q.out.last() == ActionView::AbortStale
            }
            &&& p.cancel_requested ==> {
                &&& answers(q.out) == answers(p.out) + runner_ends(p, Ok(StopReason::Cancelled))
                &&& q.queue == p.queue
                &&& q.abort_confirmed
                &&& q.out.last() != ActionView::AbortStale
            }
        }),
{
    let q = p.on_settle_timeout();
    let a = PumpView { settle_armed: false, ..p };
    let b = a.act(ActionView::Flush);
    push_answers(a.out, ActionView::Flush);
    if p.cancel_requested {
        let o = Ok::<StopReason, AcpxError<Seq<char>>>(StopReason::Cancelled);
        let c = b.resolve_pending(o);
        runner_ends_so(b, o);
        recovery_answers_nobody(c, true);
    } else {
        let o = Err::<StopReason, AcpxError<Seq<char>>>(
            AcpxError::SettleTimeout { secs: p.settle_timeout_secs },
        );
        all_are_ended(b, o, o);
        let d = b.resolve_pending(o).resolve_queue(o);
        recovery_answers_nobody(d, false);
        push_answers(d.begin_recovery(false).out, ActionView::AbortStale);
    }
}

proof fn recovery_answers_nobody(p: PumpView, confirmed: bool)
    ensures
        answers(p.begin_recovery(confirmed).out) == answers(p.out),
        replies(p.begin_recovery(confirmed).out) == replies(p.out),
{
    let a = ActionView::ArmRecovery { secs: crate::session::pump::STALE_DRAIN_TIMEOUT_SECS };
    push_answers(p.out, a);
    push_answers(p.out.push(a), p.begin_recovery(confirmed).out.last());
}

/// Turns run again once pi confirmed the abort of a timed-out turn and that
/// turn's settle was seen, in whichever order; then the first that waits is
/// sent. When pi refuses the abort, or either is missing when the time is up,
/// the session is closed and those that wait are refused.
pub proof fn a_recovery_ends(p: PumpView)
    requires
        p.recovering,
        p.pending is None,
        p.has_room(),
    ensures
        p.stale_settled ==> !p.on_recovery_abort_result(true).recovering,
        !p.stale_settled ==> p.on_recovery_abort_result(true).recovering
            && p.on_recovery_abort_result(true).out == p.out,
        p.abort_confirmed ==> !p.on_agent_settled().recovering,
        !p.abort_confirmed ==> p.on_agent_settled().recovering && p.on_agent_settled().out
            == p.out,
        p.stale_settled && p.queue.len() > 0 ==> order::sent(p.on_recovery_abort_result(true).out)
            == order::sent(p.out).push((p.queue[0].message, p.queue[0].images)),
        p.abort_confirmed && p.queue.len() > 0 ==> order::sent(p.on_agent_settled().out)
            == order::sent(p.out).push((p.queue[0].message, p.queue[0].images)),
        ({
            let q = p.on_recovery_abort_result(false);
            &&& answers(q.out) == answers(p.out) + all_end(
                p.queue,
                Err(AcpxError::SessionClosed(p.session_id)),
            )
            &&& q.poisoned
            &&& !q.recovering
            &&& q.queue.len() == 0
        }),
        !(p.abort_confirmed && p.stale_settled) ==> p.on_recover_timeout()
            == p.on_recovery_abort_result(false),
        p.abort_confirmed && p.stale_settled ==> !p.on_recover_timeout().poisoned
            == !p.poisoned && !p.on_recover_timeout().recovering,
{
    let a = PumpView { recovering: false, abort_confirmed: false, stale_settled: false, ..p };
    order::first_is_sent(a);
    let b = PumpView { poisoned: true, cancel_requested: false, in_agent_loop: false, ..a };
    let o = Err::<StopReason, AcpxError<Seq<char>>>(p.closed());
    queue_ends(b, o);
    push_answers(b.resolve_queue(o).out, p.on_recovery_abort_result(false).out.last());
}

} // verus!
