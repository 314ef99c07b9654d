//! The order of turns: prompts are sent to pi in the order in which they came.

use crate::error::AcpxError;
use crate::session::facts::StopReason;
use crate::session::laws;
use crate::session::laws::Input;
use crate::session::pump::{ActionView, PumpView, TurnView};
use vstd::prelude::*;

verus! {

/// A prompt: its text and its images.
pub type Prompt = (Seq<char>, Seq<(Seq<char>, Seq<char>)>);

/// The prompts that were sent to pi, in order.
pub open spec fn sent(out: Seq<ActionView>) -> Seq<Prompt>
    decreases out.len(),
{
    if out.len() == 0 {
        Seq::empty()
    } else {
        let before = sent(out.drop_last());
        match out.last() {
            ActionView::SendPrompt { message, images, .. } => before.push((message, images)),
            _ => before,
        }
    }
}

/// The prompts that wait, the next one first.
pub open spec fn in_line(queue: Seq<TurnView>) -> Seq<Prompt> {
    Seq::new(queue.len(), |k: int| (queue[k].message, queue[k].images))
}

/// Every prompt that was sent or still waits, in order.
pub open spec fn line(p: PumpView) -> Seq<Prompt> {
    sent(p.out) + in_line(p.queue)
}

/// `b` with some of its elements left out.
pub open spec fn is_left_of<A>(a: Seq<A>, b: Seq<A>) -> bool
    decreases b.len(),
{
    if b.len() == 0 {
        a.len() == 0
    } else {
        ||| is_left_of(a, b.drop_last())
        ||| a.len() > 0 && a.last() == b.last() && is_left_of(a.drop_last(), b.drop_last())
    }
}

proof fn left_whole<A>(a: Seq<A>)
    ensures
        is_left_of(a, a),
    decreases a.len(),
{
    if a.len() > 0 {
        left_whole(a.drop_last());
    }
}

proof fn left_push<A>(a: Seq<A>, b: Seq<A>, x: A)
    requires
        is_left_of(a, b),
    ensures
        is_left_of(a.push(x), b.push(x)),
        is_left_of(a, b.push(x)),
{
    assert(b.push(x).drop_last() =~= b);
    assert(a.push(x).drop_last() =~= a);
}

proof fn left_front<A>(a: Seq<A>, n: int, b: Seq<A>)
    requires
        0 <= n <= a.len(),
        is_left_of(a, b),
    ensures
        is_left_of(a.take(n), b),
    decreases b.len(),
{
    if b.len() > 0 {
        if is_left_of(a, b.drop_last()) {
            left_front(a, n, b.drop_last());
        } else if n == a.len() {
            assert(a.take(n) =~= a);
        } else {
            left_front(a.drop_last(), n, b.drop_last());
            assert(a.drop_last().take(n) =~= a.take(n));
        }
    } else {
        assert(a.take(n) =~= a);
    }
}

proof fn sent_push(out: Seq<ActionView>, a: ActionView)
    ensures
        sent(out.push(a)) == (match a {
            ActionView::SendPrompt { message, images, .. } => sent(out).push((message, images)),
            _ => sent(out),
        }),
{
    assert(out.push(a).drop_last() =~= out);
}

proof fn plain_sends_nothing(p: PumpView, q: PumpView)
    requires
        laws::plain(p, q),
    ensures
        sent(q.out) == sent(p.out),
    decreases q.out.len() - p.out.len(),
{
    if q.out.len() == p.out.len() {
        assert(q.out =~= q.out.take(p.out.len() as int));
    } else {
        let r = PumpView { out: q.out.drop_last(), ..q };
        assert(r.out.take(p.out.len() as int) =~= q.out.take(p.out.len() as int));
        assert forall|k: int| p.out.len() <= k < r.out.len() implies !(
        (#[trigger] r.out[k]) is SendPrompt) by {
            assert(r.out[k] == q.out[k]);
        }
        plain_sends_nothing(p, r);
        assert(!(q.out[q.out.len() - 1] is SendPrompt));
    }
}

proof fn starting_sends_one(p: PumpView, q: PumpView)
    requires
        laws::starts(p, q),
    ensures
        q.out.last() matches ActionView::SendPrompt { message, images, .. } && sent(q.out)
            == sent(p.out).push((message, images)),
{
    let r = PumpView { out: q.out.drop_last(), next_turn_id: p.next_turn_id, ..q };
    assert(r.out.take(p.out.len() as int) =~= q.out.take(p.out.len() as int));
    assert forall|k: int| p.out.len() <= k < r.out.len() implies !((#[trigger] r.out[k])
        is SendPrompt) by {
        assert(r.out[k] == q.out[k]);
    }
    plain_sends_nothing(p, r);
}

/// A prompt that comes while a turn runs, or while a timed-out turn is being
/// cleared away, waits behind all that wait already. Nothing is sent.
pub proof fn a_prompt_waits_behind_the_others(p: PumpView, t: TurnView)
    requires
        !p.poisoned,
        p.pending is Some || p.recovering,
    ensures
        p.on_prompt(t).queue.len() == p.queue.len() + 1,
        forall|k: int|
            0 <= k < p.queue.len() ==> #[trigger] p.on_prompt(t).queue[k] == p.queue[k],
        p.on_prompt(t).queue[p.queue.len() as int] == t,
        p.on_prompt(t).pending == p.pending,
        sent(p.on_prompt(t).out) == sent(p.out),
        laws::answered(p.on_prompt(t).out) == laws::answered(p.out),
{
    let q = p.on_prompt(t);
    let a = PumpView { queue: q.queue, ..p };
    laws::queueing_is_quiet(p, t);
    laws::quiet_is_plain(a, q);
    plain_sends_nothing(a, q);
}

/// A prompt that comes when nothing runs is sent at once, as it is, and its
/// turn runs.
pub proof fn a_prompt_is_sent_at_once(p: PumpView, t: TurnView)
    requires
        !p.poisoned,
        p.pending is None,
        !p.recovering,
        p.has_room(),
    ensures
        sent(p.on_prompt(t).out) == sent(p.out).push((t.message, t.images)),
        p.on_prompt(t).queue == p.queue,
        p.on_prompt(t).pending matches Some(now) && now.ticket == t.ticket
            && now.extension_command == t.extension_command && !now.prompt_accepted
            && !now.settled_before_accept,
        !p.on_prompt(t).cancel_requested,
{
    laws::start_parts(p, t);
    starting_sends_one(p, p.start_turn(t));
}

proof fn next_keeps_line(p: PumpView)
    requires
        p.pending is None,
        p.has_room(),
    ensures
        line(p.next_turn()) == line(p),
        p.queue.len() == 0 ==> p.next_turn().queue.len() == 0 && sent(p.next_turn().out) == sent(
            p.out,
        ) && p.next_turn().pending is None,
        p.queue.len() > 0 ==> {
            let q = p.next_turn();
            &&& sent(q.out) == sent(p.out).push((p.queue[0].message, p.queue[0].images))
            &&& q.queue == p.queue.skip(1)
            &&& q.pending matches Some(now) && now.ticket == p.queue[0].ticket
                && now.extension_command == p.queue[0].extension_command
        },
{
    let q = p.next_turn();
    laws::next_parts(p);
    if p.queue.len() > 0 {
        assert(q.queue == p.queue.skip(1));
        assert(q.out.last() == ActionView::SendPrompt {
            turn_id: p.next_turn_id,
            message: p.queue[0].message,
            images: p.queue[0].images,
        });
        starting_sends_one(p, q);
        assert(line(q) =~= line(p));
    } else {
        laws::quiet_is_plain(p, q);
        plain_sends_nothing(p, q);
    }
}

/// The first that waits is sent.
pub(crate) proof fn first_is_sent(p: PumpView)
    requires
        p.pending is None,
        p.has_room(),
    ensures
        p.queue.len() > 0 ==> sent(p.next_turn().out) == sent(p.out).push(
            (p.queue[0].message, p.queue[0].images),
        ),
        p.queue.len() == 0 ==> sent(p.next_turn().out) == sent(p.out),
{
    next_keeps_line(p);
}

/// When a turn is over, the one that waited longest is sent, as it is, and
/// runs; the others keep their places.
pub proof fn the_first_in_line_is_next(p: PumpView)
    requires
        p.pending is Some,
        p.pending->0.prompt_accepted || p.cancel_requested,
        p.queue.len() > 0,
        p.has_room(),
    ensures
        sent(p.on_agent_settled().out) == sent(p.out).push(
            (p.queue[0].message, p.queue[0].images),
        ),
        p.on_agent_settled().pending matches Some(now) && now.ticket == p.queue[0].ticket
            && now.extension_command == p.queue[0].extension_command,
        p.on_agent_settled().queue.len() == p.queue.len() - 1,
        forall|k: int|
            0 <= k < p.queue.len() - 1 ==> #[trigger] p.on_agent_settled().queue[k] == p.queue[k
                + 1],
{
    settle_keeps_line(p);
}

/// When a turn is over and none waits, nothing runs.
pub proof fn nothing_runs_without_prompts(p: PumpView)
    requires
        p.pending is Some,
        p.pending->0.prompt_accepted || p.cancel_requested,
        p.queue.len() == 0,
        p.has_room(),
    ensures
        sent(p.on_agent_settled().out) == sent(p.out),
        p.on_agent_settled().pending is None,
        p.on_agent_settled().queue.len() == 0,
{
    settle_keeps_line(p);
}

proof fn settle_keeps_line(p: PumpView)
    requires
        p.has_room(),
    ensures
        line(p.settle()) == line(p),
        p.pending is Some && p.queue.len() == 0 ==> p.settle().queue.len() == 0 && sent(
            p.settle().out,
        ) == sent(p.out) && p.settle().pending is None,
        p.pending is Some && p.queue.len() > 0 ==> {
            let q = p.settle();
            &&& sent(q.out) == sent(p.out).push((p.queue[0].message, p.queue[0].images))
            &&& q.queue == p.queue.skip(1)
            &&& q.pending matches Some(now) && now.ticket == p.queue[0].ticket
                && now.extension_command == p.queue[0].extension_command
        },
{
    if let Some(t) = p.pending {
        let reason = if p.cancel_requested {
            StopReason::Cancelled
        } else {
            StopReason::EndTurn
        };
        let b = PumpView { settle_armed: false, pending: None, ..p }.act(ActionView::Flush);
        sent_push(p.out, ActionView::Flush);
        let r = ActionView::Resolve { ticket: t.ticket, outcome: Ok(reason) };
        let c = PumpView { in_agent_loop: false, ..b.act(r) };
        sent_push(b.out, r);
        let e = c.report_foreground(crate::session::facts::ForegroundState::Idle(reason));
        sent_push(c.out, e.out.last());
        next_keeps_line(e);
        assert(p.settle() == PumpView { cancel_requested: false, ..e.next_turn() });
        assert(line(e) =~= line(p));
    }
}

proof fn finish_keeps_line(p: PumpView)
    requires
        p.has_room(),
        p.recovering ==> p.pending is None,
    ensures
        line(p.finish_recovery()) == line(p),
{
    if p.recovering && p.abort_confirmed && p.stale_settled {
        let a = PumpView {
            recovering: false,
            abort_confirmed: false,
            stale_settled: false,
            ..p
        };
        assert(line(a) =~= line(p));
        next_keeps_line(a);
    }
}

proof fn quiet_keeps_line(p: PumpView, q: PumpView)
    requires
        laws::quiet(p, q),
    ensures
        line(q) == line(p),
{
    laws::quiet_is_plain(p, q);
    plain_sends_nothing(p, q);
}

/// Whether what a session is told cannot drop a prompt that waits: anything
/// but a cancel, a failure, a turn's or a recovery's end of time, and an end.
pub open spec fn gentle(i: Input) -> bool {
    match i {
        Input::Prompt(_) => true,
        Input::CancelAborted(_, e) => e is None,
        Input::PromptResult(_, e) => e is None,
        Input::Event(_, _, _, _) => true,
        Input::Drained(_, _, _, _) => true,
        Input::RecoveryAbort(ok) => ok,
        Input::InitialUsage => true,
        _ => false,
    }
}

/// The prompt that a session takes in; a closed session takes none.
pub open spec fn taken(p: PumpView, i: Input) -> Seq<Prompt> {
    match i {
        Input::Prompt(t) => if p.poisoned {
            Seq::empty()
        } else {
            seq![(t.message, t.images)]
        },
        _ => Seq::empty(),
    }
}

/// Whatever a session is told, what was sent stays sent and what waits keeps
/// its order: a prompt that is taken in goes to the end of the line, and no
/// prompt overtakes another. Prompts leave the line unsent only all at once,
/// and only on a cancel, a failure, a timeout or an end.
pub proof fn turns_keep_their_order(p: PumpView, i: Input)
    requires
        laws::sound(p),
        laws::legal(p, i),
        p.has_room(),
    ensures
        line(laws::step(p, i)) == line(p) + taken(p, i) || (!gentle(i) && line(laws::step(p, i))
            == sent(p.out)),
{
    let q = laws::step(p, i);
    assert(line(p) + Seq::<Prompt>::empty() =~= line(p));
    match i {
        Input::Prompt(t) => {
            if p.poisoned {
                sent_push(p.out, q.out.last());
                assert(line(q) =~= line(p));
            } else if p.pending is Some || p.recovering {
                a_prompt_waits_behind_the_others(p, t);
                assert(line(q) =~= line(p) + taken(p, i));
            } else {
                a_prompt_is_sent_at_once(p, t);
                assert(p.queue.len() == 0);
                assert(line(q) =~= line(p) + taken(p, i));
            }
        },
        Input::Cancel(k) => {
            laws::step_parts(p, i);
            if p.poisoned {
                sent_push(p.out, q.out.last());
                assert(line(q) =~= line(p));
            } else {
                let a = PumpView { cancel_requested: p.pending is Some, ..p };
                laws::clear_parts(a);
                let b = a.clear_queue();
                plain_sends_nothing(a, b);
                sent_push(b.out, q.out.last());
                assert(line(q) =~= sent(p.out));
            }
        },
        Input::CancelAborted(k, e) => {
            match e {
                None => {
                    sent_push(p.out, q.out.last());
                    assert(line(q) =~= line(p));
                },
                Some(err) => {
                    let o = Err::<StopReason, AcpxError<Seq<char>>>(p.closed());
                    let a = PumpView { poisoned: true, cancel_requested: false, ..p };
                    let b = a.resolve_pending(o);
                    laws::resolve_pending_parts(a, o);
                    plain_sends_nothing(a, b);
                    let c = b.resolve_queue(o);
                    laws::resolve_queue_parts(b, o);
                    plain_sends_nothing(b, c);
                    let d = PumpView { in_agent_loop: false, settle_armed: false, ..c };
                    let f = d.report_queue(false);
                    sent_push(d.out, f.out.last());
                    sent_push(f.out, q.out.last());
                    assert(line(q) =~= sent(p.out));
                },
            }
        },
        Input::PromptResult(n, e) => {
            if let Some(t) = p.pending {
                if t.turn_id == n {
                    match e {
                        None => {
                            let a = PumpView {
                                pending: Some(
                                    crate::session::pump::PendingTurn { prompt_accepted: true, ..t },
                                ),
                                ..p
                            };
                            assert(line(a) =~= line(p));
                            if t.extension_command || t.settled_before_accept {
                                settle_keeps_line(a);
                            } else if p.settle_timeout_secs > 0 {
                                sent_push(p.out, q.out.last());
                                assert(line(q) =~= line(p));
                            }
                        },
                        Some(err) => {
                            let b = PumpView { settle_armed: false, ..p }.act(ActionView::Flush);
                            sent_push(p.out, ActionView::Flush);
                            let c = b.resolve_pending(Err(err));
                            laws::resolve_pending_parts(b, Err(err));
                            plain_sends_nothing(b, c);
                            let d = c.resolve_queue(Err(p.closed()));
                            laws::resolve_queue_parts(c, Err(p.closed()));
                            plain_sends_nothing(c, d);
                            sent_push(d.out, q.out.last());
                            assert(line(q) =~= sent(p.out));
                        },
                    }
                }
            }
        },
        Input::Event(ev, now, echo, file) => {
            if ev is AgentSettled {
                settled_keeps_line(p);
            } else {
                laws::events_leave_turns_alone(p, ev, now, echo, file);
                quiet_keeps_line(p, q);
            }
        },
        Input::Drained(ev, now, echo, file) => {
            if ev is AgentSettled {
                assert(line(q) =~= line(p));
            } else {
                laws::events_leave_turns_alone(p, ev, now, echo, file);
                quiet_keeps_line(p, q);
            }
        },
        Input::StreamEnd(c, s) => {
            let o = Err::<StopReason, AcpxError<Seq<char>>>(
                AcpxError::PiExited { code: c, signal: s },
            );
            let b = PumpView { settle_armed: false, ..p }.act(ActionView::Flush);
            sent_push(p.out, ActionView::Flush);
            everyone_leaves(b, o);
            assert(line(q) =~= sent(p.out));
        },
        Input::Teardown => {
            let o = Err::<StopReason, AcpxError<Seq<char>>>(
                AcpxError::PiExited { code: None, signal: None },
            );
            everyone_leaves(p, o);
            assert(line(q) =~= sent(p.out));
        },
        Input::SettleTimeout => {
            timeout_keeps_line(p);
        },
        Input::RecoveryAbort(ok) => {
            if p.recovering {
                if ok {
                    let a = PumpView { abort_confirmed: true, ..p };
                    assert(line(a) =~= line(p));
                    finish_keeps_line(a);
                } else {
                    poison_empties_line(p);
                }
            }
        },
        Input::RecoverTimeout => {
            if p.recovering {
                if p.abort_confirmed && p.stale_settled {
                    finish_keeps_line(p);
                } else {
                    poison_empties_line(p);
                }
            }
        },
        Input::InitialUsage => {
            if p.context_window is Some {
                sent_push(p.out, q.out.last());
                assert(line(q) =~= line(p));
            }
        },
    }
}

proof fn settled_keeps_line(p: PumpView)
    requires
        laws::sound(p),
        p.has_room(),
    ensures
        line(p.on_agent_settled()) == line(p),
{
    match p.pending {
        None => {
            if p.recovering {
                let a = PumpView { stale_settled: true, ..p };
                assert(line(a) =~= line(p));
                finish_keeps_line(a);
            }
        },
        Some(t) => {
            if t.prompt_accepted || p.cancel_requested {
                settle_keeps_line(p);
            } else {
                assert(line(p.on_agent_settled()) =~= line(p));
            }
        },
    }
}

proof fn everyone_leaves(p: PumpView, o: Result<StopReason, AcpxError<Seq<char>>>)
    ensures
        p.resolve_pending(o).resolve_queue(o).queue.len() == 0,
        sent(p.resolve_pending(o).resolve_queue(o).out) == sent(p.out),
{
    let b = p.resolve_pending(o);
    laws::resolve_pending_parts(p, o);
    plain_sends_nothing(p, b);
    laws::resolve_queue_parts(b, o);
    plain_sends_nothing(b, b.resolve_queue(o));
}

proof fn timeout_keeps_line(p: PumpView)
    ensures
        line(p.on_settle_timeout()) == line(p) || line(p.on_settle_timeout()) == sent(p.out),
{
    let q = p.on_settle_timeout();
    let a = PumpView { settle_armed: false, ..p };
    if p.pending is None {
        assert(line(q) =~= line(p));
    } else {
        let b = a.act(ActionView::Flush);
        sent_push(a.out, ActionView::Flush);
        if p.cancel_requested {
            let o = Ok::<StopReason, AcpxError<Seq<char>>>(StopReason::Cancelled);
            let c = b.resolve_pending(o);
            laws::resolve_pending_parts(b, o);
            plain_sends_nothing(b, c);
            recovery_keeps_line(c, true);
            assert(line(q) =~= line(p));
        } else {
            let o = Err::<StopReason, AcpxError<Seq<char>>>(
                AcpxError::SettleTimeout { secs: p.settle_timeout_secs },
            );
            everyone_leaves(b, o);
            let d = b.resolve_pending(o).resolve_queue(o);
            recovery_keeps_line(d, false);
            sent_push(d.begin_recovery(false).out, ActionView::AbortStale);
            assert(line(q) =~= sent(p.out));
        }
    }
}

proof fn recovery_keeps_line(p: PumpView, confirmed: bool)
    ensures
        p.begin_recovery(confirmed).queue == p.queue,
        sent(p.begin_recovery(confirmed).out) == sent(p.out),
{
    let a = ActionView::ArmRecovery { secs: crate::session::pump::STALE_DRAIN_TIMEOUT_SECS };
    sent_push(p.out, a);
    sent_push(p.out.push(a), p.begin_recovery(confirmed).out.last());
}

proof fn poison_empties_line(p: PumpView)
    ensures
        line(p.poison_recovery()) == sent(p.out),
{
    let a = PumpView {
        recovering: false,
        abort_confirmed: false,
        stale_settled: false,
        poisoned: true,
        cancel_requested: false,
        in_agent_loop: false,
        ..p
    };
    let o = Err::<StopReason, AcpxError<Seq<char>>>(p.closed());
    laws::resolve_queue_parts(a, o);
    let b = a.resolve_queue(o);
    plain_sends_nothing(a, b);
    sent_push(b.out, p.poison_recovery().out.last());
    assert(line(p.poison_recovery()) =~= sent(p.out));
}

// ---------------------------------------------------------------------------
// Whole runs
// ---------------------------------------------------------------------------

/// What becomes of a session that is told one thing after another.
pub open spec fn run(p: PumpView, inputs: Seq<Input>) -> PumpView
    decreases inputs.len(),
{
    if inputs.len() == 0 {
        p
    } else {
        laws::step(run(p, inputs.drop_last()), inputs.last())
    }
}

/// The prompts that a session takes in over a run, in order.
pub open spec fn taken_over(p: PumpView, inputs: Seq<Input>) -> Seq<Prompt>
    decreases inputs.len(),
{
    if inputs.len() == 0 {
        Seq::empty()
    } else {
        taken_over(p, inputs.drop_last()) + taken(run(p, inputs.drop_last()), inputs.last())
    }
}

/// A run that can happen: each thing is told when it can be, the session is
/// not torn down before the end, and its numbers do not run out.
pub open spec fn possible(p: PumpView, inputs: Seq<Input>) -> bool {
    forall|n: int|
        0 <= n < inputs.len() ==> {
            &&& laws::legal(#[trigger] run(p, inputs.take(n)), inputs[n])
            &&& run(p, inputs.take(n)).has_room()
            &&& (inputs[n] is Teardown ==> n == inputs.len() - 1)
        }
}

proof fn shorter_is_possible(p: PumpView, inputs: Seq<Input>)
    requires
        possible(p, inputs),
        inputs.len() > 0,
    ensures
        possible(p, inputs.drop_last()),
        laws::legal(run(p, inputs.drop_last()), inputs.last()),
        run(p, inputs.drop_last()).has_room(),
        forall|n: int| 0 <= n < inputs.len() - 1 ==> !(inputs[n] is Teardown),
{
    let front = inputs.drop_last();
    assert forall|n: int| 0 <= n < front.len() implies {
        &&& laws::legal(#[trigger] run(p, front.take(n)), front[n])
        &&& run(p, front.take(n)).has_room()
        &&& (front[n] is Teardown ==> n == front.len() - 1)
    } by {
        assert(front.take(n) =~= inputs.take(n));
        assert(run(p, inputs.take(n)).has_room());
    }
    assert(inputs.take(inputs.len() - 1) =~= front);
    assert(run(p, inputs.take(inputs.len() - 1)).has_room());
    assert forall|n: int| 0 <= n < inputs.len() - 1 implies !(inputs[n] is Teardown) by {
        assert(run(p, inputs.take(n)).has_room());
    }
}

proof fn runs_stay_sound(p: PumpView, inputs: Seq<Input>)
    requires
        laws::sound(p),
        possible(p, inputs),
        forall|n: int| 0 <= n < inputs.len() ==> !(inputs[n] is Teardown),
    ensures
        laws::sound(run(p, inputs)),
    decreases inputs.len(),
{
    if inputs.len() > 0 {
        shorter_is_possible(p, inputs);
        assert forall|n: int| 0 <= n < inputs.drop_last().len() implies !(inputs.drop_last()[n]
            is Teardown) by {
            assert(inputs.drop_last()[n] == inputs[n]);
        }
        runs_stay_sound(p, inputs.drop_last());
        laws::sessions_stay_sound(run(p, inputs.drop_last()), inputs.last());
    }
}

/// Over any run the prompts that are sent come in the order in which they were
/// taken in: they are those taken in, with some left out.
pub proof fn prompts_are_sent_in_order(p: PumpView, inputs: Seq<Input>)
    requires
        laws::sound(p),
        possible(p, inputs),
    ensures
        is_left_of(line(run(p, inputs)), line(p) + taken_over(p, inputs)),
        is_left_of(sent(run(p, inputs).out), line(p) + taken_over(p, inputs)),
    decreases inputs.len(),
{
    let q = run(p, inputs);
    let all = line(p) + taken_over(p, inputs);
    if inputs.len() == 0 {
        assert(all =~= line(p));
        left_whole(line(p));
    } else {
        let front = inputs.drop_last();
        let r = run(p, front);
        let i = inputs.last();
        shorter_is_possible(p, inputs);
        prompts_are_sent_in_order(p, front);
        assert forall|n: int| 0 <= n < front.len() implies !(front[n] is Teardown) by {
            assert(front[n] == inputs[n]);
        }
        runs_stay_sound(p, front);
        turns_keep_their_order(r, i);
        let before = line(p) + taken_over(p, front);
        assert(all =~= before + taken(r, i));
        if taken(r, i).len() == 0 {
            assert(all =~= before);
            assert(line(r) + taken(r, i) =~= line(r));
        } else {
            let x = taken(r, i)[0];
            assert(all =~= before.push(x));
            left_push(line(r), before, x);
            left_push(sent(r.out), before, x);
            assert(line(r) + taken(r, i) =~= line(r).push(x));
        }
    }
    left_front(line(q), sent(q.out).len() as int, all);
    assert(line(q).take(sent(q.out).len() as int) =~= sent(q.out));
}

/// Over a run without a cancel, a failure or a timeout every prompt that is
/// taken in is sent or still waits, in the order in which they came.
pub proof fn no_prompt_is_passed_over(p: PumpView, inputs: Seq<Input>)
    requires
        laws::sound(p),
        possible(p, inputs),
        forall|n: int| 0 <= n < inputs.len() ==> gentle(#[trigger] inputs[n]),
    ensures
        sent(run(p, inputs).out) + in_line(run(p, inputs).queue) == line(p) + taken_over(
            p,
            inputs,
        ),
    decreases inputs.len(),
{
    if inputs.len() == 0 {
        assert(line(p) + taken_over(p, inputs) =~= line(p));
    } else {
        let front = inputs.drop_last();
        let r = run(p, front);
        shorter_is_possible(p, inputs);
        assert forall|n: int| 0 <= n < front.len() implies gentle(#[trigger] front[n]) && !(
        front[n] is Teardown) by {
            assert(front[n] == inputs[n]);
        }
        no_prompt_is_passed_over(p, front);
        runs_stay_sound(p, front);
        assert(gentle(inputs[inputs.len() - 1]));
        turns_keep_their_order(r, inputs.last());
        assert(line(p) + taken_over(p, inputs) =~= line(p) + taken_over(p, front) + taken(
            r,
            inputs.last(),
        ));
    }
}

} // verus!
