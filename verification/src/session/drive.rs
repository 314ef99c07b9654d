//! The loop of a session: what opens it, what it takes in one after another,
//! and what ends it.

use crate::agent::lifecycle;
use crate::error::AcpxError;
use crate::pi::events::RpcEvent;
use crate::pi::rpc::RpcSessionState;
use crate::session::laws;
use crate::session::pump::{Pump, PumpView, QueuedTurn};
use crate::text;
use vstd::multiset::Multiset;
use vstd::prelude::*;

verus! {

/// What a session takes in.
#[derive(Debug)]
pub enum Arrival {
    /// A prompt.
    Prompt(QueuedTurn),
    /// A request to cancel.
    Cancel {
        /// Whom to answer.
        ticket: u64,
    },
    /// The outcome of the abort that a cancel asked for.
    CancelAborted {
        /// Whom to answer.
        ticket: u64,
        /// Why it failed, if it did.
        failure: Option<AcpxError>,
    },
    /// pi's answer to a prompt.
    PromptResult {
        /// The turn.
        turn_id: u64,
        /// Why it failed, if it did.
        failure: Option<AcpxError>,
    },
    /// An event of pi.
    Event {
        /// The event.
        event: RpcEvent,
        /// The current time.
        now: String,
        /// Whether a change of the level answers our own change.
        echo: bool,
        /// The file that [`Pump::file_to_read`] asked for.
        file: Option<String>,
    },
    /// An event that had arrived when the time of a recovery ran out.
    Drained {
        /// The event.
        event: RpcEvent,
        /// The current time.
        now: String,
        /// Whether a change of the level answers our own change.
        echo: bool,
        /// The file that [`Pump::file_to_read`] asked for.
        file: Option<String>,
    },
    /// The end of pi's output, with its exit as far as it is known.
    StreamEnd {
        /// The exit code.
        code: Option<i32>,
        /// The signal.
        signal: Option<i32>,
    },
    /// The end of a turn's time.
    SettleTimeout,
    /// The outcome of the abort of a timed-out turn.
    RecoveryAbort {
        /// Whether pi carried it out.
        confirmed: bool,
    },
    /// The end of a recovery's time.
    RecoverTimeout,
    /// A request to tell the empty context.
    InitialUsage,
    /// The context window of another model, when it is known.
    ContextWindow(Option<u64>),
    /// A request to end, or that nobody holds the session any more.
    Shutdown,
}

/// How a session ended.
#[derive(Debug, Clone, Copy, PartialEq, Eq, Structural)]
pub enum Ending {
    /// pi ended by itself; commands to the session fail with its exit.
    PiDied,
    /// The session was closed.
    Closed,
}

/// The model of an optional failure.
pub open spec fn opt_failure(e: Option<AcpxError>) -> Option<AcpxError<Seq<char>>> {
    match e {
        Some(x) => Some(x@),
        None => None,
    }
}

/// What becomes of a session that takes something in. At its end everything
/// that still waits is answered.
pub open spec fn after(p: PumpView, a: Arrival) -> PumpView {
    match a {
        Arrival::Prompt(t) => p.on_prompt(t@),
        Arrival::Cancel { ticket } => p.on_cancel(ticket),
        Arrival::CancelAborted { ticket, failure } => p.on_cancel_aborted(
            ticket,
            opt_failure(failure),
        ),
        Arrival::PromptResult { turn_id, failure } => p.on_prompt_result(
            turn_id,
            opt_failure(failure),
        ),
        Arrival::Event { event, now, echo, file } => p.on_event(
            event,
            now@,
            echo,
            text::opt_text(file),
        ),
        Arrival::Drained { event, now, echo, file } => p.on_drained_event(
            event,
            now@,
            echo,
            text::opt_text(file),
        ),
        Arrival::StreamEnd { code, signal } => p.on_stream_end(code, signal).teardown(),
        Arrival::SettleTimeout => p.on_settle_timeout(),
        Arrival::RecoveryAbort { confirmed } => p.on_recovery_abort_result(confirmed),
        Arrival::RecoverTimeout => p.on_recover_timeout(),
        Arrival::InitialUsage => p.on_initial_usage(),
        Arrival::ContextWindow(window) => PumpView {
            context_window: if window is Some {
                window
            } else {
                p.context_window
            },
            ..p
        },
        Arrival::Shutdown => p.teardown(),
    }
}

/// Whether, and how, a session ends with what it takes in.
pub open spec fn ending(a: Arrival) -> Option<Ending> {
    match a {
        Arrival::StreamEnd { .. } => Some(Ending::PiDied),
        Arrival::Shutdown => Some(Ending::Closed),
        _ => None,
    }
}

/// The session of a pi that told its state: it has no turns yet and takes them.
/// A pi that continues another session than the one that was asked for is
/// turned away.
pub fn open_session(
    expected: Option<&str>,
    cwd: &str,
    windows: bool,
    settle_timeout_secs: u64,
    state: &RpcSessionState,
) -> (r: Result<Pump, AcpxError>)
    ensures
        match r {
            Ok(p) => {
                &&& expected is None || expected->0@ == state.session_id@
                &&& p@ == (PumpView {
                    session_id: state.session_id@,
                    cwd: cwd@,
                    windows,
                    settle_timeout_secs,
                    queue: Seq::empty(),
                    pending: None,
                    next_turn_id: 0,
                    cancel_requested: false,
                    poisoned: false,
                    recovering: false,
                    abort_confirmed: false,
                    stale_settled: false,
                    in_agent_loop: false,
                    settle_armed: false,
                    last_error: None,
                    tools: Map::empty(),
                    context_window: match state.model {
                        Some(m) => m.context_window,
                        None => None,
                    },
                    message_id: None,
                    next_message_seq: 0,
                    out: Seq::empty(),
                })
                &&& p@.has_room()
                &&& laws::sound(p@)
                &&& laws::outstanding(p@) == Multiset::<u64>::empty()
            },
            Err(e) => expected is Some && expected->0@ != state.session_id@ && e@ == (
            AcpxError::SessionIdMismatch { expected: expected->0@, actual: state.session_id@ }),
        },
{
    match lifecycle::registered_id(expected, state.session_id.as_str()) {
        Ok(id) => {
            let window: Option<u64> = match &state.model {
                Some(m) => m.context_window,
                None => None,
            };
            Ok(Pump::new(id.as_str(), cwd, windows, settle_timeout_secs, window))
        },
        Err(e) => Err(e),
    }
}

impl Pump {
    /// Take something in; the loop is over when this says how.
    pub fn take_in(&mut self, a: Arrival) -> (r: Option<Ending>)
        requires
            old(self)@.has_room(),
        ensures
            final(self)@ == after(old(self)@, a),
            r == ending(a),
    {
        match a {
            Arrival::Prompt(t) => self.on_prompt(t),
            Arrival::Cancel { ticket } => self.on_cancel(ticket),
            Arrival::CancelAborted { ticket, failure } => self.on_cancel_aborted(ticket, failure),
            Arrival::PromptResult { turn_id, failure } => self.on_prompt_result(turn_id, failure),
            Arrival::Event { event, now, echo, file } => self.on_event(
                event,
                now.as_str(),
                echo,
                file,
            ),
            Arrival::Drained { event, now, echo, file } => self.on_drained_event(
                event,
                now.as_str(),
                echo,
                file,
            ),
            Arrival::StreamEnd { code, signal } => {
                self.on_stream_end(code, signal);
                self.teardown();
                return Some(Ending::PiDied);
            },
            Arrival::SettleTimeout => self.on_settle_timeout(),
            Arrival::RecoveryAbort { confirmed } => self.on_recovery_abort_result(confirmed),
            Arrival::RecoverTimeout => self.on_recover_timeout(),
            Arrival::InitialUsage => self.emit_initial_usage_update(),
            Arrival::ContextWindow(window) => self.set_context_window(window),
            Arrival::Shutdown => {
                self.teardown();
                return Some(Ending::Closed);
            },
        }
        None
    }
}

/// When the loop is over, every turn that the session was given has been
/// answered.
pub proof fn a_session_that_ends_answers_everyone(p: PumpView, a: Arrival)
    requires
        ending(a) is Some,
    ensures
        laws::outstanding(after(p, a)) == Multiset::<u64>::empty(),
{
    match a {
        Arrival::StreamEnd { code, signal } => {
            laws::teardown_answers_everything(p.on_stream_end(code, signal));
        },
        _ => {
            laws::teardown_answers_everything(p);
        },
    }
}

} // verus!
