//! The session's state machine.
//!
//! A [`Pump`] runs one turn at a time. It takes what the client asks and what
//! pi reports, one input at a time, and collects what is to be done in answer:
//! messages to the client, commands to pi, turns to resolve, timers to set.
//! [`PumpView`] is its model; each input has a function from model to model,
//! and the method of the same name computes it.
//!
//! A turn ends when pi settles, not when pi accepts the prompt; only extension
//! commands end with their acceptance. A turn that pi accepted and does not
//! settle in time fails, and prompts wait until pi confirmed that it gave the
//! turn up and its late settle was seen, so that neither can touch a later
//! turn.

use crate::error::AcpxError;
use crate::json;
use crate::json::{Json, JsonMap, JsonView, NumberView};
use crate::path;
use crate::pi::events::{AssistantMessageEvent, ExtensionUiRequest, RpcEvent};
use crate::pi::fields;
use crate::pi::rpc;
use crate::pi::rpc::{CompactionReason, ImageContent, ThinkingLevel, Usage};
use crate::session::facts;
use crate::session::facts::{
    BashToolCall, BashToolCallView, BashToolStatus, CostFact, ForegroundState, MessagePatch,
    MessagePatchView, MetaView, ModeFact, OutboundMessage, OutboundView, SessionInfoFact,
    SessionInfoView, StopReason, TextChunk, TextChunkKind, TextChunkView, ToolCallFact,
    ToolCallView, ToolContentFact, ToolContentView, ToolStatusFact, UsageFact, UsageView,
};
use crate::session::failure;
use crate::table;
use crate::table::Table;
use crate::text;
use crate::translate::bash;
use crate::translate::tools;
use std::collections::VecDeque;
use vstd::prelude::*;
use vstd::string::*;

verus! {

// ---------------------------------------------------------------------------
// State
// ---------------------------------------------------------------------------

/// How far a tool call is known to have come. It only moves forward.
#[derive(Debug, Clone, Copy, PartialEq, Eq, Structural)]
pub enum TrackedStatus {
    /// Announced.
    Pending,
    /// Running.
    InProgress,
}

/// A file as it was before a tool changed it.
#[derive(Debug)]
pub struct FileSnapshot {
    /// The path, as the tool names it.
    pub path: String,
    /// The content; `None` when there was no readable file.
    pub old_text: Option<String>,
}

/// What is remembered of a running tool call.
#[derive(Debug)]
pub struct ToolEntry {
    /// How far the call has come.
    pub status: TrackedStatus,
    /// Whether the call changes a file.
    pub mutates: bool,
    /// The file before the change.
    pub snapshot: Option<FileSnapshot>,
    /// Whether the call is shown as a terminal.
    pub bash: bool,
    /// What the terminal shows.
    pub output: String,
    /// The command that runs in the terminal.
    pub command: String,
}

/// The model of a [`ToolEntry`].
pub struct ToolView {
    pub status: TrackedStatus,
    pub mutates: bool,
    pub snapshot: Option<(Seq<char>, Option<Seq<char>>)>,
    pub bash: bool,
    pub output: Seq<char>,
    pub command: Seq<char>,
}

impl View for ToolEntry {
    type V = ToolView;

    open spec fn view(&self) -> ToolView {
        ToolView {
            status: self.status,
            mutates: self.mutates,
            snapshot: match self.snapshot {
                Some(s) => Some((s.path@, text::opt_text(s.old_text))),
                None => None,
            },
            bash: self.bash,
            output: self.output@,
            command: self.command@,
        }
    }
}

impl Clone for ToolEntry {
    fn clone(&self) -> (r: ToolEntry)
        ensures
            r@ == self@,
    {
        ToolEntry {
            status: self.status,
            mutates: self.mutates,
            snapshot: match &self.snapshot {
                Some(s) => Some(
                    FileSnapshot { path: s.path.clone(), old_text: text::clone_opt(&s.old_text) },
                ),
                None => None,
            },
            bash: self.bash,
            output: self.output.clone(),
            command: self.command.clone(),
        }
    }
}

/// A turn that has not started.
#[derive(Debug)]
pub struct QueuedTurn {
    /// The prompt.
    pub message: String,
    /// Attached images.
    pub images: Vec<ImageContent>,
    /// Whether the prompt names a command of an extension.
    pub extension_command: bool,
    /// By which the requester is answered.
    pub ticket: u64,
}

/// The model of a [`QueuedTurn`].
pub struct TurnView {
    pub message: Seq<char>,
    pub images: Seq<(Seq<char>, Seq<char>)>,
    pub extension_command: bool,
    pub ticket: u64,
}

impl View for QueuedTurn {
    type V = TurnView;

    open spec fn view(&self) -> TurnView {
        TurnView {
            message: self.message@,
            images: rpc::image_views(self.images@),
            extension_command: self.extension_command,
            ticket: self.ticket,
        }
    }
}

/// The running turn.
#[derive(Debug, Clone, Copy, PartialEq, Eq, Structural)]
pub struct PendingTurn {
    /// By which the requester is answered.
    pub ticket: u64,
    /// The turn's number; answers to its prompt bear it.
    pub turn_id: u64,
    /// Whether the turn ends when pi accepts its prompt.
    pub extension_command: bool,
    /// Whether pi accepted the prompt.
    pub prompt_accepted: bool,
    /// Whether pi settled before the acceptance was seen.
    pub settled_before_accept: bool,
}

/// What is to be done.
#[derive(Debug)]
pub enum Action {
    /// Tell the client something.
    Emit(OutboundMessage),
    /// Wait until everything told so far is on its way.
    Flush,
    /// End a turn.
    Resolve {
        /// Whose turn.
        ticket: u64,
        /// How it ended.
        outcome: Result<StopReason, AcpxError>,
    },
    /// Answer a request to cancel.
    Answer {
        /// Whose request.
        ticket: u64,
        /// Whether it was carried out.
        result: Result<(), AcpxError>,
    },
    /// Send a prompt to pi and report its answer with the turn's number.
    SendPrompt {
        /// The turn.
        turn_id: u64,
        /// The prompt.
        message: String,
        /// Attached images.
        images: Vec<ImageContent>,
    },
    /// Once the turn's prompt is written, make pi abort and report the outcome
    /// before anything else.
    AbortTurn {
        /// The turn.
        turn_id: u64,
        /// The request to answer.
        ticket: u64,
    },
    /// Make pi abort the turn that did not settle, and report the outcome.
    AbortStale,
    /// Start the clock on the running turn.
    ArmSettle {
        /// How long, in seconds.
        secs: u64,
    },
    /// Start the clock on the recovery.
    ArmRecovery {
        /// How long, in seconds.
        secs: u64,
    },
    /// Read pi's state again after it changed its thinking level.
    RefreshThinking {
        /// The level.
        level: ThinkingLevel,
    },
    /// Put an extension's question to the user.
    AskUser(ExtensionUiRequest),
}

/// The model of an [`Action`].
pub enum ActionView {
    Emit(OutboundView),
    Flush,
    Resolve { ticket: u64, outcome: Result<StopReason, AcpxError<Seq<char>>> },
    Answer { ticket: u64, result: Result<(), AcpxError<Seq<char>>> },
    SendPrompt { turn_id: u64, message: Seq<char>, images: Seq<(Seq<char>, Seq<char>)> },
    AbortTurn { turn_id: u64, ticket: u64 },
    AbortStale,
    ArmSettle { secs: u64 },
    ArmRecovery { secs: u64 },
    RefreshThinking { level: ThinkingLevel },
    AskUser(ExtensionUiRequest),
}

/// The model of a turn's outcome.
pub open spec fn outcome_view(o: Result<StopReason, AcpxError>) -> Result<
    StopReason,
    AcpxError<Seq<char>>,
> {
    match o {
        Ok(r) => Ok(r),
        Err(e) => Err(e@),
    }
}

impl View for Action {
    type V = ActionView;

    open spec fn view(&self) -> ActionView {
        match self {
            Action::Emit(m) => ActionView::Emit(m@),
            Action::Flush => ActionView::Flush,
            Action::Resolve { ticket, outcome } => ActionView::Resolve {
                ticket: *ticket,
                outcome: outcome_view(*outcome),
            },
            Action::Answer { ticket, result } => ActionView::Answer {
                ticket: *ticket,
                result: match result {
                    Ok(_) => Ok(()),
                    Err(e) => Err(e@),
                },
            },
            Action::SendPrompt { turn_id, message, images } => ActionView::SendPrompt {
                turn_id: *turn_id,
                message: message@,
                images: rpc::image_views(images@),
            },
            Action::AbortTurn { turn_id, ticket } => ActionView::AbortTurn {
                turn_id: *turn_id,
                ticket: *ticket,
            },
            Action::AbortStale => ActionView::AbortStale,
            Action::ArmSettle { secs } => ActionView::ArmSettle { secs: *secs },
            Action::ArmRecovery { secs } => ActionView::ArmRecovery { secs: *secs },
            Action::RefreshThinking { level } => ActionView::RefreshThinking { level: *level },
            Action::AskUser(q) => ActionView::AskUser(*q),
        }
    }
}

/// How long a recovery waits for pi, in seconds.
pub const STALE_DRAIN_TIMEOUT_SECS: u64 = 30;

/// The state machine of one session.
#[derive(Debug)]
pub struct Pump {
    session_id: String,
    cwd: String,
    windows: bool,
    settle_timeout_secs: u64,
    queue: VecDeque<QueuedTurn>,
    pending: Option<PendingTurn>,
    next_turn_id: u64,
    cancel_requested: bool,
    poisoned: bool,
    recovering: bool,
    abort_confirmed: bool,
    stale_settled: bool,
    in_agent_loop: bool,
    settle_armed: bool,
    last_error: Option<String>,
    tools: Table<ToolEntry>,
    context_window: Option<u64>,
    message_id: Option<String>,
    next_message_seq: u64,
    out: Vec<Action>,
}

/// The model of a [`Pump`].
#[verifier::ext_equal]
pub struct PumpView {
    /// The session.
    pub session_id: Seq<char>,
    /// Its working directory.
    pub cwd: Seq<char>,
    /// Whether paths are those of Windows.
    pub windows: bool,
    /// How long an accepted turn may take; zero for any time.
    pub settle_timeout_secs: u64,
    /// The turns that wait.
    pub queue: Seq<TurnView>,
    /// The running turn.
    pub pending: Option<PendingTurn>,
    /// The number of the next turn.
    pub next_turn_id: u64,
    /// Whether the running turn was cancelled.
    pub cancel_requested: bool,
    /// Whether the session takes no further turns.
    pub poisoned: bool,
    /// Whether prompts wait for a timed-out turn to be gone.
    pub recovering: bool,
    /// Whether pi confirmed that it gave that turn up.
    pub abort_confirmed: bool,
    /// Whether that turn's settle was seen.
    pub stale_settled: bool,
    /// Whether pi's agent loop is running.
    pub in_agent_loop: bool,
    /// Whether the clock on the running turn is started.
    pub settle_armed: bool,
    /// The error last told in this turn.
    pub last_error: Option<Seq<char>>,
    /// The running tool calls.
    pub tools: Map<Seq<char>, ToolView>,
    /// The size of the context window.
    pub context_window: Option<u64>,
    /// The message that is being written.
    pub message_id: Option<Seq<char>>,
    /// How many messages were numbered.
    pub next_message_seq: u64,
    /// What is to be done, in order.
    pub out: Seq<ActionView>,
}

/// The models of a list of actions.
pub open spec fn action_views(v: Seq<Action>) -> Seq<ActionView> {
    v.map_values(|a: Action| a@)
}

impl View for Pump {
    type V = PumpView;

    closed spec fn view(&self) -> PumpView {
        PumpView {
            session_id: self.session_id@,
            cwd: self.cwd@,
            windows: self.windows,
            settle_timeout_secs: self.settle_timeout_secs,
            queue: self.queue@.map_values(|t: QueuedTurn| t@),
            pending: self.pending,
            next_turn_id: self.next_turn_id,
            cancel_requested: self.cancel_requested,
            poisoned: self.poisoned,
            recovering: self.recovering,
            abort_confirmed: self.abort_confirmed,
            stale_settled: self.stale_settled,
            in_agent_loop: self.in_agent_loop,
            settle_armed: self.settle_armed,
            last_error: text::opt_text(self.last_error),
            tools: self.tools@,
            context_window: self.context_window,
            message_id: text::opt_text(self.message_id),
            next_message_seq: self.next_message_seq,
            out: action_views(self.out@),
        }
    }
}

// ---------------------------------------------------------------------------
// Model: telling the client
// ---------------------------------------------------------------------------

impl PumpView {
    /// Turns and messages can still be numbered.
    pub open spec fn has_room(self) -> bool {
        &&& self.next_turn_id < u64::MAX
        &&& self.next_message_seq < u64::MAX
    }

    /// One more thing to do.
    pub open spec fn act(self, a: ActionView) -> PumpView {
        PumpView { out: self.out.push(a), ..self }
    }

    /// One more thing to tell.
    pub open spec fn emit(self, m: OutboundView) -> PumpView {
        self.act(ActionView::Emit(m))
    }

    /// A new message begins.
    pub open spec fn mint(self) -> PumpView {
        let n = (self.next_message_seq + 1) as u64;
        PumpView {
            next_message_seq: n,
            message_id: Some("pi-msg-"@ + text::decimal(n as nat)),
            ..self
        }
    }

    /// A message is being written: the current one, else a new one.
    pub open spec fn with_message(self) -> PumpView {
        if self.message_id is Some {
            self
        } else {
            self.mint()
        }
    }

    /// A piece of the current message.
    pub open spec fn chunk(self, kind: TextChunkKind, t: Seq<char>) -> PumpView {
        let p = self.with_message();
        p.emit(
            OutboundView::TextChunk(
                TextChunkView {
                    session_id: p.session_id,
                    message_id: p.message_id,
                    kind,
                    text: t,
                    meta: None,
                },
            ),
        )
    }

    /// A piece of the agent's answer.
    pub open spec fn say(self, t: Seq<char>) -> PumpView {
        self.chunk(TextChunkKind::Agent, t)
    }

    /// How many turns wait, and whether one runs.
    pub open spec fn report_queue(self, running: bool) -> PumpView {
        self.emit(
            OutboundView::SessionInfo(
                SessionInfoView {
                    session_id: self.session_id,
                    title: None,
                    updated_at: None,
                    meta: Some(queue_meta(self.queue.len(), running)),
                },
            ),
        )
    }

    /// What the foreground work is doing.
    pub open spec fn report_foreground(self, state: ForegroundState) -> PumpView {
        self.emit(OutboundView::Foreground(self.session_id, state))
    }

    /// The error that refuses further turns.
    pub open spec fn closed(self) -> AcpxError<Seq<char>> {
        AcpxError::SessionClosed(self.session_id)
    }
}

/// The `_meta` members that report the queue.
pub open spec fn queue_meta(depth: nat, running: bool) -> MetaView {
    json::put(
        Seq::empty(),
        "piAcp"@,
        JsonView::Object(
            json::put(
                json::put(
                    Seq::empty(),
                    "queueDepth"@,
                    JsonView::Number(NumberView::Int(depth as int)),
                ),
                "running"@,
                JsonView::Bool(running),
            ),
        ),
    )
}

// ---------------------------------------------------------------------------
// Model: turns
// ---------------------------------------------------------------------------

impl PumpView {
    /// A turn starts.
    pub open spec fn start_turn(self, t: TurnView) -> PumpView {
        PumpView {
            cancel_requested: false,
            in_agent_loop: false,
            last_error: None,
            next_turn_id: (self.next_turn_id + 1) as u64,
            pending: Some(
                PendingTurn {
                    ticket: t.ticket,
                    turn_id: self.next_turn_id,
                    extension_command: t.extension_command,
                    prompt_accepted: false,
                    settled_before_accept: false,
                },
            ),
            ..self
        }.report_queue(true).report_foreground(ForegroundState::Running).act(
            ActionView::SendPrompt {
                turn_id: self.next_turn_id,
                message: t.message,
                images: t.images,
            },
        )
    }

    /// A turn ends.
    pub open spec fn resolve(
        self,
        ticket: u64,
        outcome: Result<StopReason, AcpxError<Seq<char>>>,
    ) -> PumpView {
        self.act(ActionView::Resolve { ticket, outcome })
    }

    /// Every waiting turn ends, first come first.
    pub open spec fn resolve_queue(
        self,
        outcome: Result<StopReason, AcpxError<Seq<char>>>,
    ) -> PumpView
        decreases self.queue.len(),
    {
        if self.queue.len() == 0 {
            self
        } else {
            PumpView { queue: self.queue.skip(1), ..self }.resolve(
                self.queue[0].ticket,
                outcome,
            ).resolve_queue(outcome)
        }
    }

    /// The running turn ends.
    pub open spec fn resolve_pending(
        self,
        outcome: Result<StopReason, AcpxError<Seq<char>>>,
    ) -> PumpView {
        match self.pending {
            Some(t) => PumpView { pending: None, ..self }.resolve(t.ticket, outcome),
            None => self,
        }
    }

    /// The first waiting turn starts, or nothing waits.
    pub open spec fn next_turn(self) -> PumpView {
        if self.queue.len() > 0 {
            let p = PumpView { queue: self.queue.skip(1), ..self };
            p.say(
                "Starting queued message. ("@ + text::decimal(p.queue.len()) + " remaining)"@,
            ).start_turn(self.queue[0])
        } else {
            self.report_queue(false)
        }
    }

    /// A prompt arrives.
    pub open spec fn on_prompt(self, t: TurnView) -> PumpView {
        if self.poisoned {
            self.resolve(t.ticket, Err(self.closed()))
        } else if self.pending is Some || self.recovering {
            let p = PumpView { queue: self.queue.push(t), ..self };
            p.say(
                "Queued message (position "@ + text::decimal(p.queue.len()) + ")."@,
            ).report_queue(self.pending is Some)
        } else {
            self.start_turn(t)
        }
    }

    /// Every waiting turn is cancelled, and the client is told.
    pub open spec fn clear_queue(self) -> PumpView {
        if self.queue.len() > 0 {
            self.resolve_queue(Ok(StopReason::Cancelled)).say(
                "Cleared queued prompts."@,
            ).report_queue(self.pending is Some)
        } else {
            self
        }
    }

    /// The client cancels.
    pub open spec fn on_cancel(self, ticket: u64) -> PumpView {
        if self.poisoned {
            self.act(ActionView::Answer { ticket, result: Err(self.closed()) })
        } else {
            match self.pending {
                None => PumpView { cancel_requested: false, ..self }.clear_queue().act(
                    ActionView::Answer { ticket, result: Ok(()) },
                ),
                Some(t) => PumpView { cancel_requested: true, ..self }.clear_queue().act(
                    ActionView::AbortTurn { turn_id: t.turn_id, ticket },
                ),
            }
        }
    }

    /// pi carried out, or refused, the abort that a cancel asked for.
    pub open spec fn on_cancel_aborted(
        self,
        ticket: u64,
        failure: Option<AcpxError<Seq<char>>>,
    ) -> PumpView {
        match failure {
            None => self.act(ActionView::Answer { ticket, result: Ok(()) }),
            Some(e) => {
                let p = PumpView {
                    poisoned: true,
                    cancel_requested: false,
                    ..self
                }.resolve_pending(Err(self.closed())).resolve_queue(Err(self.closed()));
                PumpView { in_agent_loop: false, settle_armed: false, ..p }.report_queue(
                    false,
                ).act(ActionView::Answer { ticket, result: Err(e) })
            },
        }
    }

    /// The running turn is over.
    pub open spec fn settle(self) -> PumpView {
        match self.pending {
            None => PumpView { settle_armed: false, ..self },
            Some(t) => {
                let reason = if self.cancel_requested {
                    StopReason::Cancelled
                } else {
                    StopReason::EndTurn
                };
                let p = PumpView { settle_armed: false, pending: None, ..self }.act(
                    ActionView::Flush,
                ).resolve(t.ticket, Ok(reason));
                let q = PumpView { in_agent_loop: false, ..p }.report_foreground(
                    ForegroundState::Idle(reason),
                ).next_turn();
                PumpView { cancel_requested: false, ..q }
            },
        }
    }

    /// pi answered a prompt.
    pub open spec fn on_prompt_result(
        self,
        turn_id: u64,
        failure: Option<AcpxError<Seq<char>>>,
    ) -> PumpView {
        match self.pending {
            None => self,
            Some(t) => if t.turn_id != turn_id {
                self
            } else {
                match failure {
                    None => {
                        let p = PumpView {
                            pending: Some(PendingTurn { prompt_accepted: true, ..t }),
                            ..self
                        };
                        if t.extension_command || t.settled_before_accept {
                            p.settle()
                        } else if self.settle_timeout_secs > 0 {
                            PumpView { settle_armed: true, ..p }.act(
                                ActionView::ArmSettle { secs: self.settle_timeout_secs },
                            )
                        } else {
                            p
                        }
                    },
                    Some(e) => {
                        let p = PumpView { settle_armed: false, ..self }.act(
                            ActionView::Flush,
                        ).resolve_pending(Err(e)).resolve_queue(Err(self.closed()));
                        PumpView {
                            poisoned: true,
                            cancel_requested: false,
                            in_agent_loop: false,
                            ..p
                        }.report_queue(false)
                    },
                }
            },
        }
    }

    /// pi settled.
    pub open spec fn on_agent_settled(self) -> PumpView {
        match self.pending {
            None => if self.recovering {
                PumpView { stale_settled: true, ..self }.finish_recovery()
            } else {
                self
            },
            Some(t) => if !t.prompt_accepted && !self.cancel_requested {
                PumpView {
                    pending: Some(PendingTurn { settled_before_accept: true, ..t }),
                    ..self
                }
            } else {
                self.settle()
            },
        }
    }

    /// pi's output ended.
    pub open spec fn on_stream_end(self, code: Option<i32>, signal: Option<i32>) -> PumpView {
        let error = AcpxError::<Seq<char>>::PiExited { code, signal };
        let p = PumpView { settle_armed: false, ..self }.act(ActionView::Flush).resolve_pending(
            Err(error),
        ).resolve_queue(Err(error));
        PumpView { in_agent_loop: false, ..p }
    }

    /// The session is torn down.
    pub open spec fn teardown(self) -> PumpView {
        let error = AcpxError::<Seq<char>>::PiExited { code: None, signal: None };
        self.resolve_pending(Err(error)).resolve_queue(Err(error))
    }

    /// The recovery of a timed-out turn begins.
    pub open spec fn begin_recovery(self, abort_confirmed: bool) -> PumpView {
        PumpView {
            cancel_requested: false,
            in_agent_loop: false,
            recovering: true,
            abort_confirmed,
            stale_settled: false,
            ..self
        }.act(ActionView::ArmRecovery { secs: STALE_DRAIN_TIMEOUT_SECS }).report_queue(false)
    }

    /// The clock on the running turn ran out.
    pub open spec fn on_settle_timeout(self) -> PumpView {
        let p = PumpView { settle_armed: false, ..self };
        if self.pending is None {
            p
        } else if self.cancel_requested {
            p.act(ActionView::Flush).resolve_pending(Ok(StopReason::Cancelled)).begin_recovery(
                true,
            )
        } else {
            let error = AcpxError::<Seq<char>>::SettleTimeout { secs: self.settle_timeout_secs };
            p.act(ActionView::Flush).resolve_pending(Err(error)).resolve_queue(
                Err(error),
            ).begin_recovery(false).act(ActionView::AbortStale)
        }
    }

    /// Turns run again once the timed-out one is certainly gone.
    pub open spec fn finish_recovery(self) -> PumpView {
        if self.recovering && self.abort_confirmed && self.stale_settled {
            PumpView {
                recovering: false,
                abort_confirmed: false,
                stale_settled: false,
                ..self
            }.next_turn()
        } else {
            self
        }
    }

    /// The timed-out turn may still be there: no turn runs again.
    pub open spec fn poison_recovery(self) -> PumpView {
        PumpView {
            recovering: false,
            abort_confirmed: false,
            stale_settled: false,
            poisoned: true,
            cancel_requested: false,
            in_agent_loop: false,
            ..self
        }.resolve_queue(Err(self.closed())).report_queue(false)
    }

    /// pi carried out, or refused, the abort of the timed-out turn.
    pub open spec fn on_recovery_abort_result(self, confirmed: bool) -> PumpView {
        if !self.recovering {
            self
        } else if confirmed {
            PumpView { abort_confirmed: true, ..self }.finish_recovery()
        } else {
            self.poison_recovery()
        }
    }

    /// The clock on the recovery ran out, and everything that had arrived by
    /// then was taken in.
    pub open spec fn on_recover_timeout(self) -> PumpView {
        if !self.recovering {
            self
        } else if self.abort_confirmed && self.stale_settled {
            self.finish_recovery()
        } else {
            self.poison_recovery()
        }
    }
}

// ---------------------------------------------------------------------------
// Turns
// ---------------------------------------------------------------------------

impl Pump {
    /// A session without turns.
    pub fn new(
        session_id: &str,
        cwd: &str,
        windows: bool,
        settle_timeout_secs: u64,
        context_window: Option<u64>,
    ) -> (r: Pump)
        ensures
            r@ == (PumpView {
                session_id: session_id@,
                cwd: cwd@,
                windows,
                settle_timeout_secs,
                queue: Seq::empty(),
                pending: None,
                next_turn_id: 0,
                cancel_requested: false,
                poisoned: false,
                recovering: false,
                abort_confirmed: false,
                stale_settled: false,
                in_agent_loop: false,
                settle_armed: false,
                last_error: None,
                tools: Map::empty(),
                context_window,
                message_id: None,
                next_message_seq: 0,
                out: Seq::empty(),
            }),
    {
        let r = Pump {
            session_id: session_id.to_owned(),
            cwd: cwd.to_owned(),
            windows,
            settle_timeout_secs,
            queue: VecDeque::new(),
            pending: None,
            next_turn_id: 0,
            cancel_requested: false,
            poisoned: false,
            recovering: false,
            abort_confirmed: false,
            stale_settled: false,
            in_agent_loop: false,
            settle_armed: false,
            last_error: None,
            tools: Table::new(),
            context_window,
            message_id: None,
            next_message_seq: 0,
            out: Vec::new(),
        };
        assert(r@.queue =~= Seq::empty());
        assert(r@.out =~= Seq::empty());
        r
    }

    /// Take what is to be done, in order.
    pub fn take_actions(&mut self) -> (r: Vec<Action>)
        ensures
            action_views(r@) == old(self)@.out,
            final(self)@ == (PumpView { out: Seq::empty(), ..old(self)@ }),
    {
        let mut r: Vec<Action> = Vec::new();
        std::mem::swap(&mut r, &mut self.out);
        assert(self@.out =~= Seq::empty());
        r
    }

    /// Whether turns and messages can still be numbered.
    pub fn has_room(&self) -> (r: bool)
        ensures
            r == self@.has_room(),
    {
        self.next_turn_id < u64::MAX && self.next_message_seq < u64::MAX
    }

    /// Whether prompts wait for a timed-out turn to be gone.
    pub fn is_recovering(&self) -> (r: bool)
        ensures
            r == self@.recovering,
    {
        self.recovering
    }

    /// Whether the clock on the running turn is started.
    pub fn is_settle_armed(&self) -> (r: bool)
        ensures
            r == self@.settle_armed,
    {
        self.settle_armed
    }

    fn act(&mut self, a: Action)
        ensures
            final(self)@ == old(self)@.act(a@),
    {
        self.out.push(a);
        assert(self@.out =~= old(self)@.out.push(a@));
    }

    fn mint_message_id(&mut self)
        requires
            old(self)@.has_room(),
        ensures
            final(self)@ == old(self)@.mint(),
    {
        self.next_message_seq = self.next_message_seq + 1;
        let d = text::decimal_text(self.next_message_seq);
        let id = text::cat2("pi-msg-", d.as_str());
        self.message_id = Some(id);
    }

    fn emit_chunk(&mut self, kind: TextChunkKind, t: &str)
        requires
            old(self)@.has_room(),
        ensures
            final(self)@ == old(self)@.chunk(kind, t@),
    {
        if self.message_id.is_none() {
            self.mint_message_id();
        }
        let chunk = TextChunk {
            session_id: self.session_id.clone(),
            message_id: text::clone_opt(&self.message_id),
            kind,
            text: t.to_owned(),
            meta: None,
        };
        self.act(Action::Emit(OutboundMessage::TextChunk(chunk)));
    }

    fn emit_text(&mut self, t: &str)
        requires
            old(self)@.has_room(),
        ensures
            final(self)@ == old(self)@.say(t@),
    {
        self.emit_chunk(TextChunkKind::Agent, t)
    }

    fn emit_queue_depth(&mut self, running: bool)
        ensures
            final(self)@ == old(self)@.report_queue(running),
    {
        broadcast use crate::json::json_view;

        let depth = JsonMap::new().with("queueDepth", Json::unsigned(self.queue.len() as u64)).with(
            "running",
            Json::Bool(running),
        );
        let meta = JsonMap::new().with("piAcp", Json::Object(depth));
        let fact = SessionInfoFact {
            session_id: self.session_id.clone(),
            title: None,
            updated_at: None,
            meta: Some(meta),
        };
        self.act(Action::Emit(OutboundMessage::SessionInfo(fact)));
    }

    fn emit_foreground(&mut self, state: ForegroundState)
        ensures
            final(self)@ == old(self)@.report_foreground(state),
    {
        let session_id = self.session_id.clone();
        self.act(Action::Emit(OutboundMessage::Foreground { session_id, state }));
    }

    fn session_closed_error(&self) -> (r: AcpxError)
        ensures
            r@ == self@.closed(),
    {
        AcpxError::SessionClosed(self.session_id.clone())
    }

    fn start_turn(&mut self, t: QueuedTurn)
        requires
            old(self)@.next_turn_id < u64::MAX,
        ensures
            final(self)@ == old(self)@.start_turn(t@),
    {
        let turn_id = self.next_turn_id;
        self.cancel_requested = false;
        self.in_agent_loop = false;
        self.last_error = None;
        self.next_turn_id = turn_id + 1;
        self.pending = Some(
            PendingTurn {
                ticket: t.ticket,
                turn_id,
                extension_command: t.extension_command,
                prompt_accepted: false,
                settled_before_accept: false,
            },
        );
        self.emit_queue_depth(true);
        self.emit_foreground(ForegroundState::Running);
        self.act(Action::SendPrompt { turn_id, message: t.message, images: t.images });
    }

    fn pop_queue(&mut self) -> (r: Option<QueuedTurn>)
        ensures
            match r {
                Some(t) => old(self)@.queue.len() > 0 && t@ == old(self)@.queue[0] && final(self)@
                    == (PumpView { queue: old(self)@.queue.skip(1), ..old(self)@ }),
                None => old(self)@.queue.len() == 0 && final(self)@ == old(self)@,
            },
    {
        let ghost before = self.queue@;
        let r = self.queue.pop_front();
        proof {
            if before.len() > 0 {
                assert(before.map_values(|t: QueuedTurn| t@).skip(1) =~= self.queue@.map_values(
                    |t: QueuedTurn| t@,
                ));
            }
        }
        r
    }

    fn resolve_queue(&mut self, outcome: Result<StopReason, AcpxError>)
        ensures
            final(self)@ == old(self)@.resolve_queue(outcome_view(outcome)),
    {
        let ghost target = self@.resolve_queue(outcome_view(outcome));
        loop
            invariant
                target == old(self)@.resolve_queue(outcome_view(outcome)),
                target == self@.resolve_queue(outcome_view(outcome)),
            decreases self@.queue.len(),
        {
            match self.pop_queue() {
                Some(t) => {
                    let copy = match &outcome {
                        Ok(r) => Ok(*r),
                        Err(e) => Err(e.clone()),
                    };
                    self.act(Action::Resolve { ticket: t.ticket, outcome: copy });
                },
                None => {
                    return;
                },
            }
        }
    }

    fn resolve_pending(&mut self, outcome: Result<StopReason, AcpxError>)
        ensures
            final(self)@ == old(self)@.resolve_pending(outcome_view(outcome)),
    {
        if let Some(t) = self.pending {
            self.pending = None;
            self.act(Action::Resolve { ticket: t.ticket, outcome });
        }
    }

    fn next_turn(&mut self)
        requires
            old(self)@.has_room(),
        ensures
            final(self)@ == old(self)@.next_turn(),
    {
        match self.pop_queue() {
            Some(t) => {
                let d = text::decimal_text(self.queue.len() as u64);
                let line = text::cat3("Starting queued message. (", d.as_str(), " remaining)");
                self.emit_text(line.as_str());
                self.start_turn(t);
            },
            None => self.emit_queue_depth(false),
        }
    }

    /// A prompt arrives: it starts, waits, or is refused.
    pub fn on_prompt(&mut self, t: QueuedTurn)
        requires
            old(self)@.has_room(),
        ensures
            final(self)@ == old(self)@.on_prompt(t@),
    {
        if self.poisoned {
            let e = self.session_closed_error();
            self.act(Action::Resolve { ticket: t.ticket, outcome: Err(e) });
        } else if self.pending.is_some() || self.recovering {
            let running = self.pending.is_some();
            let ghost before = self.queue@;
            self.queue.push_back(t);
            assert(self.queue@.map_values(|t: QueuedTurn| t@) =~= before.map_values(
                |t: QueuedTurn| t@,
            ).push(t@));
            let d = text::decimal_text(self.queue.len() as u64);
            let line = text::cat3("Queued message (position ", d.as_str(), ").");
            self.emit_text(line.as_str());
            self.emit_queue_depth(running);
        } else {
            self.start_turn(t);
        }
    }

    fn clear_queue(&mut self)
        requires
            old(self)@.has_room(),
        ensures
            final(self)@ == old(self)@.clear_queue(),
    {
        if self.queue.len() > 0 {
            proof {
                resolve_queue_frame(self@, Ok(StopReason::Cancelled));
            }
            self.resolve_queue(Ok(StopReason::Cancelled));
            self.emit_text("Cleared queued prompts.");
            let running = self.pending.is_some();
            self.emit_queue_depth(running);
        }
    }

    /// The client cancels: waiting turns end at once, the running one when pi
    /// gave it up.
    pub fn on_cancel(&mut self, ticket: u64)
        requires
            old(self)@.has_room(),
        ensures
            final(self)@ == old(self)@.on_cancel(ticket),
    {
        if self.poisoned {
            let e = self.session_closed_error();
            self.act(Action::Answer { ticket, result: Err(e) });
            return;
        }
        match self.pending {
            None => {
                self.cancel_requested = false;
                self.clear_queue();
                self.act(Action::Answer { ticket, result: Ok(()) });
            },
            Some(t) => {
                self.cancel_requested = true;
                self.clear_queue();
                self.act(Action::AbortTurn { turn_id: t.turn_id, ticket });
            },
        }
    }

    /// pi carried out, or refused, the abort that a cancel asked for. A refused
    /// abort closes the session: pi may still settle the turn at any time.
    #[verifier::rlimit(40)]
    pub fn on_cancel_aborted(&mut self, ticket: u64, failure: Option<AcpxError>)
        ensures
            final(self)@ == old(self)@.on_cancel_aborted(
                ticket,
                match failure {
                    Some(e) => Some(e@),
                    None => None,
                },
            ),
    {
        match failure {
            None => self.act(Action::Answer { ticket, result: Ok(()) }),
            Some(e) => {
                self.poisoned = true;
                self.cancel_requested = false;
                let closed = self.session_closed_error();
                self.resolve_pending(Err(closed));
                let closed = self.session_closed_error();
                self.resolve_queue(Err(closed));
                self.in_agent_loop = false;
                self.settle_armed = false;
                self.emit_queue_depth(false);
                self.act(Action::Answer { ticket, result: Err(e) });
            },
        }
    }

    fn settle_pending_turn(&mut self)
        requires
            old(self)@.has_room(),
        ensures
            final(self)@ == old(self)@.settle(),
    {
        self.settle_armed = false;
        if let Some(t) = self.pending {
            self.pending = None;
            self.act(Action::Flush);
            let reason = if self.cancel_requested {
                StopReason::Cancelled
            } else {
                StopReason::EndTurn
            };
            self.act(Action::Resolve { ticket: t.ticket, outcome: Ok(reason) });
            self.in_agent_loop = false;
            self.emit_foreground(ForegroundState::Idle(reason));
            self.next_turn();
            self.cancel_requested = false;
        }
    }

    /// pi answered the prompt of a turn. Answers to other turns are ignored; a
    /// refused prompt fails its turn and closes the session.
    pub fn on_prompt_result(&mut self, turn_id: u64, failure: Option<AcpxError>)
        requires
            old(self)@.has_room(),
        ensures
            final(self)@ == old(self)@.on_prompt_result(
                turn_id,
                match failure {
                    Some(e) => Some(e@),
                    None => None,
                },
            ),
    {
        if let Some(t) = self.pending {
            if t.turn_id == turn_id {
                match failure {
                    None => {
                        self.pending = Some(
                            PendingTurn {
                                ticket: t.ticket,
                                turn_id: t.turn_id,
                                extension_command: t.extension_command,
                                prompt_accepted: true,
                                settled_before_accept: t.settled_before_accept,
                            },
                        );
                        if t.extension_command || t.settled_before_accept {
                            self.settle_pending_turn();
                        } else if self.settle_timeout_secs > 0 {
                            self.settle_armed = true;
                            let secs = self.settle_timeout_secs;
                            self.act(Action::ArmSettle { secs });
                        }
                    },
                    Some(e) => {
                        self.settle_armed = false;
                        self.act(Action::Flush);
                        self.resolve_pending(Err(e));
                        let closed = self.session_closed_error();
                        self.resolve_queue(Err(closed));
                        self.poisoned = true;
                        self.cancel_requested = false;
                        self.in_agent_loop = false;
                        self.emit_queue_depth(false);
                    },
                }
            }
        }
    }

    fn on_agent_settled(&mut self)
        requires
            old(self)@.has_room(),
        ensures
            final(self)@ == old(self)@.on_agent_settled(),
    {
        match self.pending {
            None => {
                if self.recovering {
                    self.stale_settled = true;
                    self.finish_recovery_if_confirmed();
                }
            },
            Some(t) => {
                if !t.prompt_accepted && !self.cancel_requested {
                    self.pending = Some(
                        PendingTurn {
                            ticket: t.ticket,
                            turn_id: t.turn_id,
                            extension_command: t.extension_command,
                            prompt_accepted: t.prompt_accepted,
                            settled_before_accept: true,
                        },
                    );
                } else {
                    self.settle_pending_turn();
                }
            },
        }
    }

    /// pi's output ended: every turn fails with the exit status.
    pub fn on_stream_end(&mut self, code: Option<i32>, signal: Option<i32>)
        ensures
            final(self)@ == old(self)@.on_stream_end(code, signal),
    {
        self.settle_armed = false;
        self.act(Action::Flush);
        self.resolve_pending(Err(AcpxError::PiExited { code, signal }));
        self.resolve_queue(Err(AcpxError::PiExited { code, signal }));
        self.in_agent_loop = false;
    }

    /// The session is torn down: every turn fails.
    pub fn teardown(&mut self)
        ensures
            final(self)@ == old(self)@.teardown(),
    {
        self.resolve_pending(Err(AcpxError::PiExited { code: None, signal: None }));
        self.resolve_queue(Err(AcpxError::PiExited { code: None, signal: None }));
    }

    fn begin_recovery(&mut self, abort_confirmed: bool)
        ensures
            final(self)@ == old(self)@.begin_recovery(abort_confirmed),
    {
        self.cancel_requested = false;
        self.in_agent_loop = false;
        self.recovering = true;
        self.abort_confirmed = abort_confirmed;
        self.stale_settled = false;
        self.act(Action::ArmRecovery { secs: STALE_DRAIN_TIMEOUT_SECS });
        self.emit_queue_depth(false);
    }

    /// The clock on the running turn ran out: the turn and those that wait
    /// fail, or end as cancelled when the client cancelled, and the recovery
    /// begins.
    pub fn on_settle_timeout(&mut self)
        ensures
            final(self)@ == old(self)@.on_settle_timeout(),
    {
        self.settle_armed = false;
        if self.pending.is_none() {
            return;
        }
        self.act(Action::Flush);
        if self.cancel_requested {
            self.resolve_pending(Ok(StopReason::Cancelled));
            self.begin_recovery(true);
            return;
        }
        let secs = self.settle_timeout_secs;
        self.resolve_pending(Err(AcpxError::SettleTimeout { secs }));
        self.resolve_queue(Err(AcpxError::SettleTimeout { secs }));
        self.begin_recovery(false);
        self.act(Action::AbortStale);
    }

    fn finish_recovery_if_confirmed(&mut self)
        requires
            old(self)@.has_room(),
        ensures
            final(self)@ == old(self)@.finish_recovery(),
    {
        if self.recovering && self.abort_confirmed && self.stale_settled {
            self.recovering = false;
            self.abort_confirmed = false;
            self.stale_settled = false;
            self.next_turn();
        }
    }

    fn poison_recovery(&mut self)
        ensures
            final(self)@ == old(self)@.poison_recovery(),
    {
        self.recovering = false;
        self.abort_confirmed = false;
        self.stale_settled = false;
        self.poisoned = true;
        self.cancel_requested = false;
        self.in_agent_loop = false;
        let closed = self.session_closed_error();
        self.resolve_queue(Err(closed));
        self.emit_queue_depth(false);
    }

    /// pi carried out, or refused, the abort of the timed-out turn.
    pub fn on_recovery_abort_result(&mut self, confirmed: bool)
        requires
            old(self)@.has_room(),
        ensures
            final(self)@ == old(self)@.on_recovery_abort_result(confirmed),
    {
        if !self.recovering {
            return;
        }
        if confirmed {
            self.abort_confirmed = true;
            self.finish_recovery_if_confirmed();
        } else {
            self.poison_recovery();
        }
    }

    /// The clock on the recovery ran out, and everything that had arrived by
    /// then was taken in: turns run again if the timed-out one is certainly
    /// gone, and the session closes otherwise.
    pub fn on_recover_timeout(&mut self)
        requires
            old(self)@.has_room(),
        ensures
            final(self)@ == old(self)@.on_recover_timeout(),
    {
        if !self.recovering {
            return;
        }
        if self.abort_confirmed && self.stale_settled {
            self.finish_recovery_if_confirmed();
        } else {
            self.poison_recovery();
        }
    }
}

/// Ending the waiting turns changes nothing but the queue and what is to be
/// done.
pub proof fn resolve_queue_frame(
    p: PumpView,
    outcome: Result<StopReason, AcpxError<Seq<char>>>,
)
    ensures
        p.resolve_queue(outcome) == (PumpView {
            queue: Seq::empty(),
            out: p.resolve_queue(outcome).out,
            ..p
        }),
    decreases p.queue.len(),
{
    if p.queue.len() == 0 {
        assert(p.queue =~= Seq::empty());
    } else {
        let q = PumpView { queue: p.queue.skip(1), ..p }.resolve(p.queue[0].ticket, outcome);
        resolve_queue_frame(q, outcome);
    }
}

// ---------------------------------------------------------------------------
// Model: what pi reports
// ---------------------------------------------------------------------------

/// The arguments of a complete tool call: the record `arguments`, else the JSON
/// in the string `partialArgs`, given what that string holds; a string that is
/// no JSON is kept as it is.
pub open spec fn raw_input_with(tool_call: JsonView, parsed: Option<JsonView>) -> Option<
    JsonView,
> {
    match json::member(tool_call, "arguments"@) {
        Some(JsonView::Object(es)) => Some(JsonView::Object(es)),
        _ => match json::str_member(tool_call, "partialArgs"@) {
            None => None,
            Some(s) => if s.len() == 0 {
                None
            } else if parsed is Some {
                parsed
            } else {
                Some(
                    JsonView::Object(
                        json::put(Seq::empty(), "partialArgs"@, JsonView::Str(s)),
                    ),
                )
            },
        },
    }
}

/// The JSON in the string `partialArgs` of a tool call.
pub open spec fn partial_args(tool_call: JsonView) -> Option<JsonView> {
    match json::str_member(tool_call, "partialArgs"@) {
        Some(s) => json::json_in(s),
        None => None,
    }
}

/// The arguments of a complete tool call.
pub open spec fn raw_input_of(tool_call: JsonView) -> Option<JsonView> {
    raw_input_with(tool_call, partial_args(tool_call))
}

/// What is said before a failed request is tried again. Delays under a second
/// count as one.
pub open spec fn retry_text(attempt: u32, max_attempts: u32, delay_ms: u64) -> Seq<char> {
    if attempt == 0 || max_attempts == 0 {
        "Retrying..."@
    } else {
        let secs = if 0 < delay_ms < 1000 {
            1
        } else {
            delay_ms as nat / 1000
        };
        "Retrying (attempt "@ + text::decimal(attempt as nat) + "/"@ + text::decimal(
            max_attempts as nat,
        ) + ", waiting "@ + text::decimal(secs) + "s)..."@
    }
}

/// What a usage report says.
pub struct UsageReport {
    /// The tokens it counts.
    pub tokens: u64,
    /// The cost it names, when it is above zero.
    pub cost: Option<NumberView>,
}

/// The tokens that a report counts: its total, else the sum of its parts (at
/// most the largest 64-bit number).
pub open spec fn counted(total: u64, input: u64, output: u64, read: u64, write: u64) -> u64 {
    if total > 0 {
        total
    } else {
        let sum = input + output + read + write;
        if sum <= u64::MAX {
            sum as u64
        } else {
            u64::MAX
        }
    }
}

/// The cost, when it is above zero. It is told with a fraction.
pub open spec fn charged(total: NumberView) -> Option<NumberView> {
    if rpc::positive(total) {
        Some(json::as_real(total))
    } else {
        None
    }
}

/// What a usage report says.
pub open spec fn report_of(u: Usage) -> UsageReport {
    UsageReport {
        tokens: counted(u.total_tokens, u.input, u.output, u.cache_read, u.cache_write),
        cost: match u.cost {
            Some(c) => charged(c.total@),
            None => None,
        },
    }
}

/// What the usage report in a record says; `None` when the record is none.
pub open spec fn report_in(v: JsonView) -> Option<UsageReport> {
    if rpc::readable_usage(v) {
        let v = rpc::usage_record(v);
        Some(
            UsageReport {
                tokens: counted(
                    fields::count(v, "totalTokens"@)->0,
                    fields::count(v, "input"@)->0,
                    fields::count(v, "output"@)->0,
                    fields::count(v, "cacheRead"@)->0,
                    fields::count(v, "cacheWrite"@)->0,
                ),
                cost: match fields::optional_value(v, "cost"@) {
                    Some(c) => charged(fields::number(rpc::cost_record(c), "total"@)->0),
                    None => None,
                },
            },
        )
    } else {
        None
    }
}

/// What a finished message of the assistant says of its usage.
pub open spec fn message_report(message: JsonView) -> Option<UsageReport> {
    match json::member(message, "usage"@) {
        Some(u) => if failure::from_assistant(message) {
            report_in(u)
        } else {
            None
        },
        None => None,
    }
}

/// Whether a compaction is pi's own doing.
pub open spec fn automatic(reason: CompactionReason) -> bool {
    reason != CompactionReason::Manual
}

/// Whether a tool changes files.
pub open spec fn changes_files(name: Seq<char>) -> bool {
    name == "edit"@ || name == "write"@
}

/// The line of the first text to be replaced that occurs exactly once.
pub open spec fn edit_line(content: Seq<char>, needles: Seq<Seq<char>>) -> Option<u32>
    decreases needles.len(),
{
    if needles.len() == 0 {
        None
    } else {
        match tools::unique_line(content, needles[0]) {
            Some(n) => if n <= u32::MAX {
                Some(n as u32)
            } else {
                edit_line(content, needles.skip(1))
            },
            None => edit_line(content, needles.skip(1)),
        }
    }
}

/// The line that an edit starts at, given the file's content.
pub open spec fn start_line(name: Seq<char>, args: JsonView, file: Option<Seq<char>>) -> Option<
    u32,
> {
    match file {
        Some(content) => if name == "edit"@ && tools::path_of(args) is Some {
            edit_line(
                content,
                tools::distinct(
                    tools::mentioned_old_texts(
                        args,
                        tools::edits_source(args),
                        tools::written_edits(args),
                    ),
                ),
            )
        } else {
            None
        },
        None => None,
    }
}

/// The status that a tracked call is shown with.
pub open spec fn tracked_fact(s: TrackedStatus) -> ToolStatusFact {
    match s {
        TrackedStatus::Pending => ToolStatusFact::Pending,
        TrackedStatus::InProgress => ToolStatusFact::InProgress,
    }
}

/// The status that a tracked bash call is shown with.
pub open spec fn tracked_bash(s: TrackedStatus) -> BashToolStatus {
    match s {
        TrackedStatus::Pending => BashToolStatus::Pending,
        TrackedStatus::InProgress => BashToolStatus::InProgress,
    }
}

/// The model of an optional list of contents.
pub open spec fn one_content(c: Option<ToolContentView>) -> Option<Seq<ToolContentView>> {
    match c {
        Some(x) => Some(seq![x]),
        None => None,
    }
}

impl PumpView {
    /// What is remembered of a call; nothing yet for a new one.
    pub open spec fn tool(self, id: Seq<char>) -> ToolView {
        match table::lookup(self.tools, id) {
            Some(t) => t,
            None => ToolView {
                status: TrackedStatus::Pending,
                mutates: false,
                snapshot: None,
                bash: false,
                output: Seq::empty(),
                command: Seq::empty(),
            },
        }
    }

    /// Whether a call is running.
    pub open spec fn tracks(self, id: Seq<char>) -> bool {
        self.tools.dom().contains(id)
    }

    /// A call is remembered.
    pub open spec fn track(self, id: Seq<char>, t: ToolView) -> PumpView {
        PumpView { tools: self.tools.insert(id, t), ..self }
    }

    /// A call is forgotten.
    pub open spec fn forget(self, id: Seq<char>) -> PumpView {
        PumpView { tools: self.tools.remove(id), ..self }
    }

    /// An error is told, unless it was the last one told in this turn.
    pub open spec fn on_error(self, s: Seq<char>) -> PumpView {
        let t = failure::or_generic(failure::said(s));
        if self.last_error == Some(t) {
            self
        } else {
            PumpView { last_error: Some(t), ..self }.say("Error: "@ + t)
        }
    }

    /// A usage report is told, when it says something and the size of the
    /// context window is known.
    pub open spec fn on_usage(self, u: UsageReport) -> PumpView {
        match self.context_window {
            None => self,
            Some(size) => if u.tokens == 0 && u.cost is None {
                self
            } else {
                self.emit(
                    OutboundView::Usage(
                        UsageView {
                            session_id: self.session_id,
                            used: u.tokens,
                            size,
                            cost: match u.cost {
                                Some(n) => Some((n, "USD"@)),
                                None => None,
                            },
                        },
                    ),
                )
            },
        }
    }

    /// The empty context is told.
    pub open spec fn on_initial_usage(self) -> PumpView {
        match self.context_window {
            None => self,
            Some(size) => self.emit(
                OutboundView::Usage(
                    UsageView { session_id: self.session_id, used: 0, size, cost: None },
                ),
            ),
        }
    }

    /// A frame of a tool call, with nothing to show.
    pub open spec fn frame(self, id: Seq<char>, first: bool, status: ToolStatusFact) -> ToolCallView {
        ToolCallView {
            session_id: self.session_id,
            tool_call_id: id,
            first,
            title: None,
            kind: None,
            status: Some(status),
            content: None,
            locations: Seq::empty(),
            raw_input: None,
            raw_output: None,
            meta: None,
        }
    }

    /// A frame of a bash call.
    pub open spec fn bash_frame(
        self,
        id: Seq<char>,
        status: BashToolStatus,
        delta: Seq<char>,
        exit_code: Option<i32>,
        first: bool,
    ) -> PumpView {
        self.emit(
            OutboundView::BashToolCall(
                BashToolCallView {
                    session_id: self.session_id,
                    tool_call_id: id,
                    command: self.tool(id).command,
                    cwd: Some(self.cwd),
                    status,
                    output: self.tool(id).output,
                    output_delta: delta,
                    exit_code,
                    first,
                },
            ),
        )
    }

    /// A bash call is announced: it is remembered with its command, and shown.
    pub open spec fn announce_bash(
        self,
        id: Seq<char>,
        name: Seq<char>,
        args: Option<JsonView>,
        status: TrackedStatus,
        first: bool,
    ) -> PumpView {
        let command = match args {
            Some(a) => match bash::command_of(a) {
                Some(c) => c,
                None => name,
            },
            None => name,
        };
        self.track(id, ToolView { status, bash: true, command, ..self.tool(id) }).bash_frame(
            id,
            tracked_bash(status),
            Seq::empty(),
            None,
            first,
        )
    }

    /// A tool call is being written, or was written. A call that is already
    /// running stays so.
    pub open spec fn surface(
        self,
        id: Seq<char>,
        name: Seq<char>,
        raw_input: Option<JsonView>,
    ) -> PumpView {
        let status = self.tool(id).status;
        let locations = match raw_input {
            Some(r) => tools::locations_of(r, self.cwd, None, self.windows),
            None => Seq::empty(),
        };
        if id.len() == 0 {
            self
        } else if bash::names_bash(name) {
            self.announce_bash(id, name, raw_input, status, !self.tracks(id))
        } else if !self.tracks(id) {
            self.track(id, self.tool(id)).emit(
                OutboundView::ToolCall(
                    ToolCallView {
                        title: Some(name),
                        kind: Some(tools::tool_kind(name)),
                        locations,
                        raw_input,
                        ..self.frame(id, true, tracked_fact(status))
                    },
                ),
            )
        } else {
            self.emit(
                OutboundView::ToolCall(
                    ToolCallView {
                        locations,
                        raw_input,
                        ..self.frame(id, false, tracked_fact(status))
                    },
                ),
            )
        }
    }

    /// A tool begins to run. The file it is about to change is kept.
    pub open spec fn on_tool_start(
        self,
        id: Seq<char>,
        name: Seq<char>,
        args: JsonView,
        file: Option<Seq<char>>,
    ) -> PumpView {
        let known = self.tracks(id);
        if bash::names_bash(name) {
            self.announce_bash(id, name, Some(args), TrackedStatus::InProgress, !known)
        } else {
            let entry = ToolView { status: TrackedStatus::InProgress, ..self.tool(id) };
            let kept = if changes_files(name) {
                match tools::path_of(args) {
                    Some(p) => ToolView { mutates: true, snapshot: Some((p, file)), ..entry },
                    None => ToolView { mutates: true, ..entry },
                }
            } else {
                entry
            };
            self.track(id, kept).emit(
                OutboundView::ToolCall(
                    ToolCallView {
                        title: if known {
                            None
                        } else {
                            Some(name)
                        },
                        locations: tools::locations_of(
                            args,
                            self.cwd,
                            start_line(name, args, file),
                            self.windows,
                        ),
                        raw_input: Some(args),
                        ..self.frame(id, !known, ToolStatusFact::InProgress)
                    },
                ),
            )
        }
    }

    /// The terminal of a bash call shows a result.
    pub open spec fn show_bash(
        self,
        id: Seq<char>,
        status: BashToolStatus,
        result: JsonView,
        exit_code: Option<i32>,
    ) -> PumpView {
        let next = bash::terminal_text(result);
        self.track(id, ToolView { output: next, ..self.tool(id) }).bash_frame(
            id,
            status,
            bash::added(self.tool(id).output, next),
            exit_code,
            false,
        )
    }

    /// A running tool has something to show. A call that changes a file shows
    /// nothing before it ends.
    pub open spec fn on_tool_update(self, id: Seq<char>, partial: JsonView) -> PumpView {
        if id.len() == 0 {
            self
        } else if self.tool(id).bash {
            self.show_bash(id, BashToolStatus::InProgress, partial, None)
        } else if self.tool(id).mutates {
            self.emit(
                OutboundView::ToolCall(self.frame(id, false, ToolStatusFact::InProgress)),
            )
        } else {
            let t = tools::result_text(partial);
            self.emit(
                OutboundView::ToolCall(
                    ToolCallView {
                        content: if t.len() > 0 {
                            Some(seq![ToolContentView::Text(t)])
                        } else {
                            None
                        },
                        raw_output: Some(partial),
                        ..self.frame(id, false, ToolStatusFact::InProgress)
                    },
                ),
            )
        }
    }

    /// The change that a call made to its file, given the file's new content.
    pub open spec fn diff(self, id: Seq<char>, is_error: bool, file: Option<Seq<char>>) -> Option<
        ToolContentView,
    > {
        match (self.tool(id).snapshot, file) {
            (Some(s), Some(new_text)) => if !is_error && s.1 != Some(new_text) {
                Some(ToolContentView::Diff { path: s.0, new_text, old_text: s.1 })
            } else {
                None
            },
            _ => None,
        }
    }

    /// A tool ended: its change or its result is shown, and it is forgotten.
    pub open spec fn on_tool_end(
        self,
        id: Seq<char>,
        result: JsonView,
        is_error: bool,
        file: Option<Seq<char>>,
    ) -> PumpView {
        if id.len() == 0 {
            self
        } else if self.tool(id).bash {
            self.show_bash(
                id,
                if is_error {
                    BashToolStatus::Failed
                } else {
                    BashToolStatus::Completed
                },
                result,
                Some(bash::exit_code(result, is_error)),
            ).forget(id)
        } else {
            let change = self.diff(id, is_error, file);
            let t = tools::result_text(result);
            self.emit(
                OutboundView::ToolCall(
                    ToolCallView {
                        content: if change is Some {
                            one_content(change)
                        } else if t.len() > 0 {
                            Some(seq![ToolContentView::Text(t)])
                        } else {
                            None
                        },
                        raw_output: if change is Some {
                            None
                        } else {
                            Some(result)
                        },
                        ..self.frame(
                            id,
                            false,
                            if is_error {
                                ToolStatusFact::Failed
                            } else {
                                ToolStatusFact::Completed
                            },
                        )
                    },
                ),
            ).forget(id)
        }
    }

    /// A bash call printed something.
    pub open spec fn on_bash_output(self, id: Option<Seq<char>>, delta: Seq<char>) -> PumpView {
        match id {
            None => self,
            Some(i) => if !self.tool(i).bash || delta.len() == 0 {
                self
            } else {
                self.track(
                    i,
                    ToolView { output: self.tool(i).output + delta, ..self.tool(i) },
                ).bash_frame(i, BashToolStatus::InProgress, delta, None, false)
            },
        }
    }

    /// The message that the assistant is writing changed.
    pub open spec fn on_part(self, e: AssistantMessageEvent) -> PumpView {
        match e {
            AssistantMessageEvent::TextDelta { delta, .. } => self.say(delta@),
            AssistantMessageEvent::ThinkingDelta { delta, .. } => self.chunk(
                TextChunkKind::Thought,
                delta@,
            ),
            AssistantMessageEvent::Error { reason, error } => self.on_error(
                failure::assistant_error(reason@, error@),
            ),
            AssistantMessageEvent::ToolcallStart { id, tool_name, .. } => self.surface(
                id@,
                tool_name@,
                None,
            ),
            AssistantMessageEvent::ToolcallEnd { tool_call, .. } => self.surface(
                match json::str_member(tool_call@, "id"@) {
                    Some(s) => s,
                    None => Seq::empty(),
                },
                match json::str_member(tool_call@, "name"@) {
                    Some(s) => s,
                    None => "tool"@,
                },
                raw_input_of(tool_call@),
            ),
            _ => self,
        }
    }

    /// A message is complete: its usage, its failure and its text are told.
    pub open spec fn on_message_end(self, message: JsonView) -> PumpView {
        let p = match message_report(message) {
            Some(u) => self.on_usage(u),
            None => self,
        };
        let q = match failure::message_error(message) {
            Some(t) => p.on_error(t),
            None => p,
        };
        match q.message_id {
            Some(id) => if failure::message_text(message).len() > 0 {
                q.emit(
                    OutboundView::MessagePatch(
                        MessagePatchView {
                            session_id: q.session_id,
                            message_id: id,
                            text: failure::message_text(message),
                        },
                    ),
                )
            } else {
                q
            },
            None => q,
        }
    }

    /// The session was renamed.
    pub open spec fn on_rename(self, name: Option<Seq<char>>, now: Seq<char>) -> PumpView {
        match name {
            Some(n) => self.emit(
                OutboundView::SessionInfo(
                    SessionInfoView {
                        session_id: self.session_id,
                        title: Some(n),
                        updated_at: Some(now),
                        meta: None,
                    },
                ),
            ),
            None => self,
        }
    }

    /// pi changed its thinking level. The change that answers one of our own is
    /// told without reading pi's state again.
    pub open spec fn on_level(self, level: ThinkingLevel, echo: bool) -> PumpView {
        let p = self.emit(OutboundView::Mode(self.session_id, rpc::level_id(level)));
        if echo {
            p
        } else {
            p.act(ActionView::RefreshThinking { level })
        }
    }

    /// pi reports something. `now` is the time, `echo` whether a change of the
    /// thinking level answers one of our own, and `file` the content of the
    /// file that [`Pump::file_to_read`] names for the event.
    pub open spec fn on_event(
        self,
        ev: RpcEvent,
        now: Seq<char>,
        echo: bool,
        file: Option<Seq<char>>,
    ) -> PumpView {
        match ev {
            RpcEvent::MessageUpdate { usage, assistant_message_event } => self.on_usage(
                report_of(usage),
            ).on_part(assistant_message_event),
            RpcEvent::MessageStart { .. } => self.mint(),
            RpcEvent::MessageEnd { message } => self.on_message_end(message@),
            RpcEvent::ToolExecutionStart { tool_call_id, tool_name, args } => self.on_tool_start(
                tool_call_id@,
                tool_name@,
                args@,
                file,
            ),
            RpcEvent::ToolExecutionUpdate { tool_call_id, partial_result, .. } =>
                self.on_tool_update(tool_call_id@, partial_result@),
            RpcEvent::ToolExecutionEnd { tool_call_id, result, is_error, .. } => self.on_tool_end(
                tool_call_id@,
                result@,
                is_error,
                file,
            ),
            RpcEvent::BashExecutionUpdate { id, delta } => self.on_bash_output(
                text::opt_text(id),
                delta@,
            ),
            RpcEvent::AgentStart => PumpView { in_agent_loop: true, ..self },
            RpcEvent::AgentEnd { .. } => PumpView { in_agent_loop: false, ..self },
            RpcEvent::AgentSettled => self.on_agent_settled(),
            RpcEvent::ExtensionUiRequest { inner } => self.act(ActionView::AskUser(inner)),
            RpcEvent::AutoRetryStart { attempt, max_attempts, delay_ms, .. } => self.say(
                retry_text(attempt, max_attempts, delay_ms),
            ),
            RpcEvent::AutoRetryEnd { .. } => self.say("Retry finished, resuming."@),
            RpcEvent::CompactionStart { reason } => if automatic(reason) {
                self.say("Context nearing limit, running automatic compaction..."@)
            } else {
                self
            },
            RpcEvent::CompactionEnd { reason, aborted, .. } => if automatic(reason) && !aborted {
                self.say(
                    "Automatic compaction finished; context was summarized to continue the session."@,
                )
            } else {
                self
            },
            RpcEvent::SessionInfoChanged { name } => self.on_rename(text::opt_text(name), now),
            RpcEvent::ThinkingLevelChanged { level } => self.on_level(level, echo),
            RpcEvent::Unknown { raw } => match failure::unknown_error(raw@) {
                Some(t) => self.on_error(t),
                None => self,
            },
            _ => self,
        }
    }

    /// An event that arrived before the clock on a recovery ran out. A settle
    /// is noted; turns run again only when everything was taken in.
    pub open spec fn on_drained_event(
        self,
        ev: RpcEvent,
        now: Seq<char>,
        echo: bool,
        file: Option<Seq<char>>,
    ) -> PumpView {
        if ev is AgentSettled {
            PumpView { stale_settled: true, ..self }
        } else {
            self.on_event(ev, now, echo, file)
        }
    }
}

// ---------------------------------------------------------------------------
// What pi reports
// ---------------------------------------------------------------------------

/// The arguments of a complete tool call, given the JSON in its string
/// `partialArgs`.
pub fn raw_input_from(tool_call: &Json, parsed: Option<Json>) -> (r: Option<Json>)
    ensures
        json::opt_view(r) == raw_input_with(tool_call@, json::opt_view(parsed)),
{
    broadcast use crate::json::json_view;

    if let Some(a) = tool_call.get("arguments") {
        if a.is_object() {
            return Some(a.clone());
        }
    }
    match tool_call.get_str("partialArgs") {
        None => None,
        Some(s) => if s.is_empty() {
            None
        } else if parsed.is_some() {
            parsed
        } else {
            Some(Json::Object(JsonMap::new().with("partialArgs", Json::text(s))))
        },
    }
}

/// The arguments of a complete tool call.
pub fn raw_input_of_tool_call(tool_call: &Json) -> (r: Option<Json>)
    ensures
        json::opt_view(r) == raw_input_of(tool_call@),
{
    let parsed = match tool_call.get_str("partialArgs") {
        Some(s) => json::parse(s),
        None => None,
    };
    raw_input_from(tool_call, parsed)
}

/// What is said before a failed request is tried again.
pub fn format_auto_retry_message(attempt: u32, max_attempts: u32, delay_ms: u64) -> (r: String)
    ensures
        r@ == retry_text(attempt, max_attempts, delay_ms),
{
    if attempt == 0 || max_attempts == 0 {
        return "Retrying...".to_owned();
    }
    let secs: u64 = if delay_ms > 0 && delay_ms < 1000 {
        1
    } else {
        delay_ms / 1000
    };
    let a = text::decimal_text(attempt as u64);
    let m = text::decimal_text(max_attempts as u64);
    let s = text::decimal_text(secs);
    let head = text::cat4("Retrying (attempt ", a.as_str(), "/", m.as_str());
    text::cat4(head.as_str(), ", waiting ", s.as_str(), "s)...")
}

/// How long after our own change a change of the thinking level counts as its
/// echo, in milliseconds.
pub const THINKING_SET_ECHO_WINDOW_MS: u64 = 2000;

/// Whether a change of the thinking level seen at `now` answers our own change
/// at `last_set`; both are milliseconds on one clock.
pub fn thinking_event_is_echo(last_set: Option<u64>, now: u64) -> (r: bool)
    ensures
        r == (match last_set {
            Some(t) => now <= t + THINKING_SET_ECHO_WINDOW_MS,
            None => false,
        }),
{
    match last_set {
        Some(t) => now <= t || now - t <= THINKING_SET_ECHO_WINDOW_MS,
        None => false,
    }
}

/// The mark of our own change after that change failed: gone if it is still
/// ours, kept if a later change left its own.
pub fn clear_thinking_stamp(slot: Option<u64>, stamp: u64) -> (r: Option<u64>)
    ensures
        r == (if slot == Some(stamp) {
            None::<u64>
        } else {
            slot
        }),
{
    match slot {
        Some(t) => if t == stamp {
            None
        } else {
            slot
        },
        None => None,
    }
}

fn is_automatic(reason: CompactionReason) -> (r: bool)
    ensures
        r == automatic(reason),
{
    match reason {
        CompactionReason::Manual => false,
        _ => true,
    }
}

fn saturating_sum(a: u64, b: u64) -> (r: u64)
    ensures
        r == (if a + b <= u64::MAX {
            a + b
        } else {
            u64::MAX as int
        }),
{
    if a <= u64::MAX - b {
        a + b
    } else {
        u64::MAX
    }
}

fn find_edit_line(content: &str, needles: &Vec<String>) -> (r: Option<u32>)
    ensures
        r == edit_line(content@, text::texts(needles@)),
{
    let ghost all = text::texts(needles@);
    let mut i: usize = 0;
    assert(all.skip(0) =~= all);
    while i < needles.len()
        invariant
            i <= needles@.len(),
            all == text::texts(needles@),
            edit_line(content@, all) == edit_line(content@, all.skip(i as int)),
        decreases needles.len() - i,
    {
        proof {
            assert(all.skip(i as int)[0] == needles@[i as int]@);
            assert(all.skip(i as int).skip(1) =~= all.skip(i + 1));
        }
        if let Some(n) = tools::find_unique_line_number(content, needles[i].as_str()) {
            return Some(n);
        }
        i += 1;
    }
    assert(all.skip(i as int) =~= Seq::empty());
    None
}

fn find_start_line(name: &str, args: &Json, file: &Option<String>) -> (r: Option<u32>)
    ensures
        r == start_line(name@, args@, text::opt_text(*file)),
{
    match file {
        Some(content) => {
            if text::same(name, "edit") && tools::tool_path(args).is_some() {
                let needles = tools::edit_old_texts(args);
                find_edit_line(content.as_str(), &needles)
            } else {
                None
            }
        },
        None => None,
    }
}

impl Pump {
    fn tool_entry(&self, id: &str) -> (r: ToolEntry)
        ensures
            r@ == self@.tool(id@),
    {
        match self.tools.get(id) {
            Some(t) => t.clone(),
            None => ToolEntry {
                status: TrackedStatus::Pending,
                mutates: false,
                snapshot: None,
                bash: false,
                output: String::new(),
                command: String::new(),
            },
        }
    }

    fn tracks(&self, id: &str) -> (r: bool)
        ensures
            r == self@.tracks(id@),
    {
        self.tools.get(id).is_some()
    }

    fn track(&mut self, id: &str, t: ToolEntry)
        ensures
            final(self)@ == old(self)@.track(id@, t@),
    {
        self.tools.set(id, t);
    }

    fn cleanup_tool_call(&mut self, id: &str)
        ensures
            final(self)@ == old(self)@.forget(id@),
    {
        self.tools.remove(id);
    }

    fn emit_message_error(&mut self, s: &str)
        requires
            old(self)@.has_room(),
        ensures
            final(self)@ == old(self)@.on_error(s@),
    {
        let t = match failure::non_empty_text(s) {
            Some(t) => t,
            None => failure::GENERIC_PI_ERROR.to_owned(),
        };
        if let Some(last) = &self.last_error {
            if text::same(last.as_str(), t.as_str()) {
                return;
            }
        }
        let line = text::cat2("Error: ", t.as_str());
        self.last_error = Some(t);
        self.emit_text(line.as_str());
    }

    fn emit_usage_update(&mut self, u: &Usage)
        ensures
            final(self)@ == old(self)@.on_usage(report_of(*u)),
    {
        if let Some(size) = self.context_window {
            let used = if u.total_tokens > 0 {
                u.total_tokens
            } else {
                saturating_sum(
                    saturating_sum(saturating_sum(u.input, u.output), u.cache_read),
                    u.cache_write,
                )
            };
            let cost = match &u.cost {
                Some(c) => if rpc::is_positive(&c.total) {
                    Some(CostFact { amount: c.total.to_real(), currency: "USD".to_owned() })
                } else {
                    None
                },
                None => None,
            };
            if used == 0 && cost.is_none() {
                return;
            }
            let fact = UsageFact { session_id: self.session_id.clone(), used, size, cost };
            self.act(Action::Emit(OutboundMessage::Usage(fact)));
        }
    }

    /// Tell the client the empty context.
    pub fn emit_initial_usage_update(&mut self)
        ensures
            final(self)@ == old(self)@.on_initial_usage(),
    {
        if let Some(size) = self.context_window {
            let fact = UsageFact {
                session_id: self.session_id.clone(),
                used: 0,
                size,
                cost: None,
            };
            self.act(Action::Emit(OutboundMessage::Usage(fact)));
        }
    }

    /// Another model was chosen; its context window, when known, is the size
    /// from now on.
    pub fn set_context_window(&mut self, window: Option<u64>)
        ensures
            final(self)@ == (PumpView {
                context_window: if window is Some {
                    window
                } else {
                    old(self)@.context_window
                },
                ..old(self)@
            }),
    {
        if window.is_some() {
            self.context_window = window;
        }
    }

    fn tool_fact(&self, id: &str, first: bool, status: ToolStatusFact) -> (r: ToolCallFact)
        ensures
            r@ == self@.frame(id@, first, status),
    {
        let r = ToolCallFact {
            session_id: self.session_id.clone(),
            tool_call_id: id.to_owned(),
            first,
            title: None,
            kind: None,
            status: Some(status),
            content: None,
            locations: Vec::new(),
            raw_input: None,
            raw_output: None,
            meta: None,
        };
        assert(r@.locations =~= Seq::empty());
        r
    }

    fn emit_bash(
        &mut self,
        id: &str,
        status: BashToolStatus,
        delta: &str,
        exit_code: Option<i32>,
        first: bool,
    )
        ensures
            final(self)@ == old(self)@.bash_frame(id@, status, delta@, exit_code, first),
    {
        let t = self.tool_entry(id);
        let call = BashToolCall {
            session_id: self.session_id.clone(),
            tool_call_id: id.to_owned(),
            command: t.command,
            cwd: Some(self.cwd.clone()),
            status,
            output: t.output,
            output_delta: delta.to_owned(),
            exit_code,
            first,
        };
        self.act(Action::Emit(OutboundMessage::BashToolCall(call)));
    }

    fn emit_bash_tool_call(
        &mut self,
        id: &str,
        name: &str,
        args: Option<&Json>,
        status: TrackedStatus,
        first: bool,
    )
        ensures
            final(self)@ == old(self)@.announce_bash(id@, name@, json::opt_ref(args), status, first),
    {
        let command = match args {
            Some(a) => match bash::bash_command(a) {
                Some(c) => c,
                None => name.to_owned(),
            },
            None => name.to_owned(),
        };
        let mut t = self.tool_entry(id);
        t.status = status;
        t.bash = true;
        t.command = command;
        self.track(id, t);
        let shown = match status {
            TrackedStatus::Pending => BashToolStatus::Pending,
            TrackedStatus::InProgress => BashToolStatus::InProgress,
        };
        proof {
            reveal_strlit("");
            assert(""@ =~= Seq::<char>::empty());
        }
        self.emit_bash(id, shown, "", None, first);
    }

    fn surface_tool_call(&mut self, id: &str, name: &str, raw_input: Option<Json>)
        ensures
            final(self)@ == old(self)@.surface(id@, name@, json::opt_view(raw_input)),
    {
        if id.is_empty() {
            return;
        }
        let entry = self.tool_entry(id);
        let known = self.tracks(id);
        let status = entry.status;
        if bash::is_bash_tool(name) {
            self.emit_bash_tool_call(id, name, raw_input.as_ref(), status, !known);
            return;
        }
        let locations = match &raw_input {
            Some(r) => tools::to_tool_call_locations(r, self.cwd.as_str(), None, self.windows),
            None => {
                let v: Vec<facts::ToolLocationFact> = Vec::new();
                assert(facts::location_views(v@) =~= Seq::empty());
                v
            },
        };
        let shown = match status {
            TrackedStatus::Pending => ToolStatusFact::Pending,
            TrackedStatus::InProgress => ToolStatusFact::InProgress,
        };
        let mut fact = self.tool_fact(id, !known, shown);
        fact.locations = locations;
        fact.raw_input = raw_input;
        if !known {
            self.track(id, entry);
            fact.title = Some(name.to_owned());
            fact.kind = Some(tools::to_tool_kind(name));
        }
        self.act(Action::Emit(OutboundMessage::ToolCall(fact)));
    }

    fn on_tool_execution_start(&mut self, id: &str, name: &str, args: Json, file: Option<String>)
        ensures
            final(self)@ == old(self)@.on_tool_start(id@, name@, args@, text::opt_text(file)),
    {
        let known = self.tracks(id);
        if bash::is_bash_tool(name) {
            self.emit_bash_tool_call(
                id,
                name,
                Some(&args),
                TrackedStatus::InProgress,
                !known,
            );
            return;
        }
        let line = find_start_line(name, &args, &file);
        let locations = tools::to_tool_call_locations(&args, self.cwd.as_str(), line, self.windows);
        let mut t = self.tool_entry(id);
        t.status = TrackedStatus::InProgress;
        if text::same(name, "edit") || text::same(name, "write") {
            t.mutates = true;
            if let Some(path) = tools::tool_path(&args) {
                t.snapshot = Some(FileSnapshot { path, old_text: file });
            }
        }
        let mut fact = self.tool_fact(id, !known, ToolStatusFact::InProgress);
        if !known {
            fact.title = Some(name.to_owned());
        }
        fact.locations = locations;
        fact.raw_input = Some(args);
        self.track(id, t);
        self.act(Action::Emit(OutboundMessage::ToolCall(fact)));
    }

    fn emit_bash_output_update(
        &mut self,
        id: &str,
        status: BashToolStatus,
        result: &Json,
        exit_code: Option<i32>,
    )
        ensures
            final(self)@ == old(self)@.show_bash(id@, status, result@, exit_code),
    {
        let next = bash::bash_result_text(result);
        let mut t = self.tool_entry(id);
        let delta = bash::bash_output_delta(t.output.as_str(), next.as_str());
        t.output = next;
        self.track(id, t);
        self.emit_bash(id, status, delta.as_str(), exit_code, false);
    }

    fn on_tool_execution_update(&mut self, id: &str, partial: Json)
        ensures
            final(self)@ == old(self)@.on_tool_update(id@, partial@),
    {
        if id.is_empty() {
            return;
        }
        let t = self.tool_entry(id);
        if t.bash {
            self.emit_bash_output_update(id, BashToolStatus::InProgress, &partial, None);
            return;
        }
        let mut fact = self.tool_fact(id, false, ToolStatusFact::InProgress);
        if !t.mutates {
            let shown = tools::tool_result_to_text(&partial);
            if !shown.as_str().is_empty() {
                fact.content = Some(one_text(shown));
            }
            fact.raw_output = Some(partial);
        }
        self.act(Action::Emit(OutboundMessage::ToolCall(fact)));
    }

    fn find_diff(&self, id: &str, is_error: bool, file: &Option<String>) -> (r: Option<
        ToolContentFact,
    >)
        ensures
            (match r {
                Some(c) => Some(c@),
                None => None,
            }) == self@.diff(id@, is_error, text::opt_text(*file)),
    {
        if is_error {
            return None;
        }
        let t = self.tool_entry(id);
        match (t.snapshot, file) {
            (Some(s), Some(new_text)) => {
                let changed = match &s.old_text {
                    Some(o) => !text::same(o.as_str(), new_text.as_str()),
                    None => true,
                };
                if changed {
                    Some(
                        ToolContentFact::Diff {
                            path: s.path,
                            new_text: new_text.clone(),
                            old_text: s.old_text,
                        },
                    )
                } else {
                    None
                }
            },
            _ => None,
        }
    }

    fn on_tool_execution_end(
        &mut self,
        id: &str,
        result: Json,
        is_error: bool,
        file: Option<String>,
    )
        ensures
            final(self)@ == old(self)@.on_tool_end(id@, result@, is_error, text::opt_text(file)),
    {
        if id.is_empty() {
            return;
        }
        let t = self.tool_entry(id);
        if t.bash {
            let status = if is_error {
                BashToolStatus::Failed
            } else {
                BashToolStatus::Completed
            };
            let code = bash::bash_exit_code(&result, is_error);
            self.emit_bash_output_update(id, status, &result, Some(code));
            self.cleanup_tool_call(id);
            return;
        }
        let status = if is_error {
            ToolStatusFact::Failed
        } else {
            ToolStatusFact::Completed
        };
        let mut fact = self.tool_fact(id, false, status);
        match self.find_diff(id, is_error, &file) {
            Some(diff) => {
                let mut content: Vec<ToolContentFact> = Vec::new();
                content.push(diff);
                assert(facts::content_views(content@) =~= seq![diff@]);
                fact.content = Some(content);
            },
            None => {
                let shown = tools::tool_result_to_text(&result);
                if !shown.as_str().is_empty() {
                    fact.content = Some(one_text(shown));
                }
                fact.raw_output = Some(result);
            },
        }
        self.act(Action::Emit(OutboundMessage::ToolCall(fact)));
        self.cleanup_tool_call(id);
    }

    fn on_bash_execution_update(&mut self, id: &Option<String>, delta: &str)
        ensures
            final(self)@ == old(self)@.on_bash_output(text::opt_text(*id), delta@),
    {
        if let Some(i) = id {
            let mut t = self.tool_entry(i.as_str());
            if !t.bash || delta.is_empty() {
                return;
            }
            t.output = text::cat2(t.output.as_str(), delta);
            self.track(i.as_str(), t);
            self.emit_bash(i.as_str(), BashToolStatus::InProgress, delta, None, false);
        }
    }

    fn on_message_update(&mut self, e: AssistantMessageEvent)
        requires
            old(self)@.has_room(),
        ensures
            final(self)@ == old(self)@.on_part(e),
    {
        match e {
            AssistantMessageEvent::TextDelta { delta, .. } => self.emit_text(delta.as_str()),
            AssistantMessageEvent::ThinkingDelta { delta, .. } => self.emit_chunk(
                TextChunkKind::Thought,
                delta.as_str(),
            ),
            AssistantMessageEvent::Error { reason, error } => {
                let t = failure::assistant_error_text(reason.as_str(), &error);
                self.emit_message_error(t.as_str());
            },
            AssistantMessageEvent::ToolcallStart { id, tool_name, .. } => self.surface_tool_call(
                id.as_str(),
                tool_name.as_str(),
                None,
            ),
            AssistantMessageEvent::ToolcallEnd { tool_call, .. } => {
                proof {
                    reveal_strlit("");
                    assert(""@ =~= Seq::<char>::empty());
                }
                let id = match tool_call.get_str("id") {
                    Some(s) => s,
                    None => "",
                };
                let name = match tool_call.get_str("name") {
                    Some(s) => s,
                    None => "tool",
                };
                let raw_input = raw_input_of_tool_call(&tool_call);
                self.surface_tool_call(id, name, raw_input);
            },
            _ => {},
        }
    }

    fn on_message_end(&mut self, message: &Json)
        requires
            old(self)@.has_room(),
        ensures
            final(self)@ == old(self)@.on_message_end(message@),
    {
        if failure::is_from_assistant(message) {
            if let Some(u) = message.get("usage") {
                if let Some(usage) = Usage::from_json(u) {
                    self.emit_usage_update(&usage);
                }
            }
        }
        if let Some(t) = failure::assistant_message_error_text(message) {
            self.emit_message_error(t.as_str());
        }
        if let Some(id) = &self.message_id {
            let whole = failure::assistant_message_text(message);
            if !whole.as_str().is_empty() {
                let patch = MessagePatch {
                    session_id: self.session_id.clone(),
                    message_id: id.clone(),
                    text: whole,
                };
                self.act(Action::Emit(OutboundMessage::MessagePatch(patch)));
            }
        }
    }

    fn on_thinking_level_changed(&mut self, level: ThinkingLevel, echo: bool)
        ensures
            final(self)@ == old(self)@.on_level(level, echo),
    {
        let fact = ModeFact {
            session_id: self.session_id.clone(),
            mode_id: level.id().to_owned(),
        };
        self.act(Action::Emit(OutboundMessage::Mode(fact)));
        if !echo {
            self.act(Action::RefreshThinking { level });
        }
    }

    /// The file whose content [`Pump::on_event`] needs for an event: the one
    /// that a tool is about to change, or that it changed.
    pub open spec fn wanted_file(p: PumpView, ev: RpcEvent) -> Option<Seq<char>> {
        match ev {
            RpcEvent::ToolExecutionStart { tool_name, args, .. } => if changes_files(tool_name@) {
                match tools::path_of(args@) {
                    Some(f) => Some(path::resolved(p.cwd, f, p.windows)),
                    None => None,
                }
            } else {
                None
            },
            RpcEvent::ToolExecutionEnd { tool_call_id, is_error, .. } => match p.tool(
                tool_call_id@,
            ).snapshot {
                Some(s) => if !is_error && tool_call_id@.len() > 0 && !p.tool(
                    tool_call_id@,
                ).bash {
                    Some(path::resolved(p.cwd, s.0, p.windows))
                } else {
                    None
                },
                None => None,
            },
            _ => None,
        }
    }

    /// The file to be read before an event is taken in.
    pub fn file_to_read(&self, ev: &RpcEvent) -> (r: Option<String>)
        ensures
            text::opt_text(r) == Pump::wanted_file(self@, *ev),
    {
        match ev {
            RpcEvent::ToolExecutionStart { tool_name, args, .. } => {
                let name = tool_name.as_str();
                if text::same(name, "edit") || text::same(name, "write") {
                    match tools::tool_path(args) {
                        Some(f) => Some(path::resolve_path(self.cwd.as_str(), f.as_str(), self.windows)),
                        None => None,
                    }
                } else {
                    None
                }
            },
            RpcEvent::ToolExecutionEnd { tool_call_id, is_error, .. } => {
                let t = self.tool_entry(tool_call_id.as_str());
                match &t.snapshot {
                    Some(s) => if !*is_error && !tool_call_id.as_str().is_empty() && !t.bash {
                        Some(path::resolve_path(self.cwd.as_str(), s.path.as_str(), self.windows))
                    } else {
                        None
                    },
                    None => None,
                }
            },
            _ => None,
        }
    }

    /// pi reports something.
    pub fn on_event(&mut self, ev: RpcEvent, now: &str, echo: bool, file: Option<String>)
        requires
            old(self)@.has_room(),
        ensures
            final(self)@ == old(self)@.on_event(ev, now@, echo, text::opt_text(file)),
    {
        match ev {
            RpcEvent::MessageUpdate { usage, assistant_message_event } => {
                self.emit_usage_update(&usage);
                self.on_message_update(assistant_message_event);
            },
            RpcEvent::MessageStart { .. } => self.mint_message_id(),
            RpcEvent::MessageEnd { message } => self.on_message_end(&message),
            RpcEvent::ToolExecutionStart { tool_call_id, tool_name, args } =>
                self.on_tool_execution_start(
                    tool_call_id.as_str(),
                    tool_name.as_str(),
                    args,
                    file,
                ),
            RpcEvent::ToolExecutionUpdate { tool_call_id, partial_result, .. } =>
                self.on_tool_execution_update(tool_call_id.as_str(), partial_result),
            RpcEvent::ToolExecutionEnd { tool_call_id, result, is_error, .. } =>
                self.on_tool_execution_end(tool_call_id.as_str(), result, is_error, file),
            RpcEvent::BashExecutionUpdate { id, delta } => self.on_bash_execution_update(
                &id,
                delta.as_str(),
            ),
            RpcEvent::AgentStart => {
                self.in_agent_loop = true;
            },
            RpcEvent::AgentEnd { .. } => {
                self.in_agent_loop = false;
            },
            RpcEvent::AgentSettled => self.on_agent_settled(),
            RpcEvent::ExtensionUiRequest { inner } => self.act(Action::AskUser(inner)),
            RpcEvent::AutoRetryStart { attempt, max_attempts, delay_ms, .. } => {
                let t = format_auto_retry_message(attempt, max_attempts, delay_ms);
                self.emit_text(t.as_str());
            },
            RpcEvent::AutoRetryEnd { .. } => self.emit_text("Retry finished, resuming."),
            RpcEvent::CompactionStart { reason } => {
                if is_automatic(reason) {
                    self.emit_text("Context nearing limit, running automatic compaction...");
                }
            },
            RpcEvent::CompactionEnd { reason, aborted, .. } => {
                if is_automatic(reason) && !aborted {
                    self.emit_text(
                        "Automatic compaction finished; context was summarized to continue the session.",
                    );
                }
            },
            RpcEvent::SessionInfoChanged { name } => {
                if let Some(n) = name {
                    let fact = SessionInfoFact {
                        session_id: self.session_id.clone(),
                        title: Some(n),
                        updated_at: Some(now.to_owned()),
                        meta: None,
                    };
                    self.act(Action::Emit(OutboundMessage::SessionInfo(fact)));
                }
            },
            RpcEvent::ThinkingLevelChanged { level } => self.on_thinking_level_changed(level, echo),
            RpcEvent::Unknown { raw } => {
                if let Some(t) = failure::unknown_message_error_text(&raw) {
                    self.emit_message_error(t.as_str());
                }
            },
            _ => {},
        }
    }

    /// Take in an event that arrived before the clock on a recovery ran out.
    pub fn on_drained_event(&mut self, ev: RpcEvent, now: &str, echo: bool, file: Option<String>)
        requires
            old(self)@.has_room(),
        ensures
            final(self)@ == old(self)@.on_drained_event(ev, now@, echo, text::opt_text(file)),
    {
        match ev {
            RpcEvent::AgentSettled => {
                self.stale_settled = true;
            },
            other => self.on_event(other, now, echo, file),
        }
    }
}

fn one_text(t: String) -> (r: Vec<ToolContentFact>)
    ensures
        facts::content_views(r@) == seq![ToolContentView::Text(t@)],
{
    let mut r: Vec<ToolContentFact> = Vec::new();
    r.push(ToolContentFact::Text(t));
    assert(facts::content_views(r@) =~= seq![ToolContentView::Text(t@)]);
    r
}

} // verus!
