//! Sessions from their start to their end, and prompts on their way in.

use pi_acp::agent::builtin::Step;
use pi_acp::agent::dispatch::{
    conclude, conclude_v2, is_cancel, request_of, runs_apart, Move, Request,
};
use pi_acp::agent::prompting::{plan_prompt, prompt_response, NewTurn, Plan};
use pi_acp::agent::titles::FirstPrompt;
use pi_acp::commands::FileSlashCommand;
use pi_acp::error::{AcpxError, ACP_AUTH_REQUIRED, ACP_INTERNAL_ERROR};
use pi_acp::json::parse;
use pi_acp::pi::events::RpcEvent;
use pi_acp::pi::process::state_of;
use pi_acp::pi::rpc::{RpcCommand, RpcSessionState};
use pi_acp::session::drive::{open_session, Arrival, Ending};
use pi_acp::session::facts::{OutboundMessage, StopReason};
use pi_acp::session::pump::{Action, Pump, QueuedTurn};
use pi_acp::translate::prompt::{PiImage, PiPrompt};
use pi_acp::v2::{route, Route};

fn state() -> RpcSessionState {
    let data = parse(
        r#"{"model":{"id":"m","name":"M","provider":"p","reasoning":false,"contextWindow":1000},
            "thinkingLevel":"medium","isStreaming":false,"isCompacting":false,
            "steeringMode":"all","followUpMode":"all","sessionId":"s1",
            "autoCompactionEnabled":false,"messageCount":0,"pendingMessageCount":0}"#,
    )
    .expect("JSON");
    state_of(&data, "").expect("a state")
}

fn opened() -> Pump {
    open_session(None, "/work", false, 600, &state()).expect("a session")
}

fn queued(ticket: u64) -> QueuedTurn {
    QueuedTurn {
        message: "hello".to_string(),
        images: Vec::new(),
        extension_command: false,
        ticket,
    }
}

fn answers(actions: &Vec<Action>) -> Vec<(u64, Result<StopReason, String>)> {
    actions
        .iter()
        .filter_map(|a| match a {
            Action::Resolve { ticket, outcome } => Some((
                *ticket,
                match outcome {
                    Ok(reason) => Ok(*reason),
                    Err(e) => Err(e.message()),
                },
            )),
            _ => None,
        })
        .collect()
}

fn settled() -> Arrival {
    let event = parse(r#"{"type":"agent_settled"}"#).expect("JSON");
    Arrival::Event {
        event: RpcEvent::from_json(&event).expect("an event"),
        now: "2026-08-01T10:00:00.000Z".to_string(),
        echo: false,
        file: None,
    }
}

#[test]
fn a_session_starts_only_under_its_own_id() {
    assert!(open_session(None, "/work", false, 600, &state()).is_ok());
    assert!(open_session(Some("s1"), "/work", false, 600, &state()).is_ok());
    match open_session(Some("other"), "/work", false, 600, &state()) {
        Err(AcpxError::SessionIdMismatch { expected, actual }) => {
            assert_eq!(expected, "other");
            assert_eq!(actual, "s1");
        }
        _ => panic!("another session was opened"),
    }
}

#[test]
fn a_session_takes_in_a_whole_turn() {
    let mut p = opened();
    assert_eq!(p.take_in(Arrival::InitialUsage), None);
    assert!(p.take_actions().iter().any(|a| matches!(
        a,
        Action::Emit(OutboundMessage::Usage(u)) if u.used == 0 && u.size == 1000
    )));
    assert_eq!(p.take_in(Arrival::ContextWindow(Some(2000))), None);
    assert_eq!(p.take_in(Arrival::InitialUsage), None);
    assert!(p.take_actions().iter().any(|a| matches!(
        a,
        Action::Emit(OutboundMessage::Usage(u)) if u.size == 2000
    )));
    assert_eq!(p.take_in(Arrival::Prompt(queued(1))), None);
    let sent = p.take_actions().iter().find_map(|a| match a {
        Action::SendPrompt {
            turn_id, message, ..
        } => {
            assert_eq!(message, "hello");
            Some(*turn_id)
        }
        _ => None,
    });
    let turn_id = sent.expect("a prompt is sent");
    let taken = p.take_in(Arrival::PromptResult {
        turn_id,
        failure: None,
    });
    assert_eq!(taken, None);
    assert_eq!(p.take_in(settled()), None);
    assert_eq!(answers(&p.take_actions()), vec![(1, Ok(StopReason::EndTurn))]);
}

#[test]
fn a_cancelled_turn_is_over_once_pi_settles() {
    let mut p = opened();
    p.take_in(Arrival::Prompt(queued(1)));
    p.take_in(Arrival::Prompt(queued(2)));
    p.take_actions();
    assert_eq!(p.take_in(Arrival::Cancel { ticket: 9 }), None);
    assert_eq!(
        answers(&p.take_actions()),
        vec![(2, Ok(StopReason::Cancelled))]
    );
    let aborted = p.take_in(Arrival::CancelAborted {
        ticket: 9,
        failure: None,
    });
    assert_eq!(aborted, None);
    assert!(p.take_actions().iter().any(|a| matches!(
        a,
        Action::Answer {
            ticket: 9,
            result: Ok(())
        }
    )));
}

#[test]
fn a_session_that_ends_answers_its_turns() {
    let mut p = opened();
    p.take_in(Arrival::Prompt(queued(1)));
    p.take_in(Arrival::Prompt(queued(2)));
    p.take_actions();
    let died = p.take_in(Arrival::StreamEnd {
        code: Some(3),
        signal: None,
    });
    assert_eq!(died, Some(Ending::PiDied));
    let exit: AcpxError = AcpxError::PiExited {
        code: Some(3),
        signal: None,
    };
    assert_eq!(
        answers(&p.take_actions()),
        vec![(1, Err(exit.message())), (2, Err(exit.message()))]
    );

    let mut q = opened();
    q.take_in(Arrival::Prompt(queued(4)));
    q.take_actions();
    assert_eq!(q.take_in(Arrival::Shutdown), Some(Ending::Closed));
    let exit: AcpxError = AcpxError::PiExited {
        code: None,
        signal: None,
    };
    assert_eq!(answers(&q.take_actions()), vec![(4, Err(exit.message()))]);
}

#[test]
fn a_recovery_is_over_when_pi_confirms_it() {
    let mut p = opened();
    p.take_in(Arrival::Prompt(queued(1)));
    p.take_in(Arrival::PromptResult {
        turn_id: 0,
        failure: None,
    });
    p.take_actions();
    assert!(p.is_settle_armed());
    assert_eq!(p.take_in(Arrival::SettleTimeout), None);
    assert!(p.is_recovering());
    let actions = p.take_actions();
    assert!(actions.iter().any(|a| matches!(a, Action::AbortStale)));
    assert_eq!(p.take_in(Arrival::RecoveryAbort { confirmed: true }), None);
    assert!(p.is_recovering());
    let event = parse(r#"{"type":"agent_settled"}"#).expect("JSON");
    p.take_in(Arrival::Drained {
        event: RpcEvent::from_json(&event).expect("an event"),
        now: "2026-08-01T10:00:00.000Z".to_string(),
        echo: false,
        file: None,
    });
    assert_eq!(p.take_in(Arrival::RecoverTimeout), None);
    assert!(!p.is_recovering());
    p.take_actions();
    p.take_in(Arrival::Prompt(queued(2)));
    assert!(p
        .take_actions()
        .iter()
        .any(|a| matches!(a, Action::SendPrompt { .. })));
}

fn prompt(message: &str) -> PiPrompt {
    PiPrompt {
        message: message.to_string(),
        images: Vec::new(),
    }
}

fn new_turn(plan: Plan) -> NewTurn {
    match plan {
        Plan::Turn(t) => t,
        Plan::Own(_) => panic!("a turn was planned as a command"),
    }
}

#[test]
fn own_commands_need_no_turn() {
    let mut first = FirstPrompt::new();
    match plan_prompt(&mut first, "s1", prompt("/session"), "now") {
        Plan::Own(Step::Ask { command, .. }) => {
            assert!(matches!(command, RpcCommand::GetSessionStats))
        }
        _ => panic!("a command was not carried out"),
    }
    // The command has not used up the first prompt.
    let turn = new_turn(plan_prompt(&mut first, "s1", prompt("fix it"), "now"));
    assert!(matches!(
        &turn.title,
        Some(OutboundMessage::SessionInfo(i)) if i.title.as_deref() == Some("fix it")
    ));
    assert!(!turn.names_command());
    let again = new_turn(plan_prompt(&mut first, "s1", prompt("and this"), "now"));
    assert!(again.title.is_none());
    // With images a message is never one of the own commands.
    let mut given = prompt("/session");
    given.images.push(PiImage {
        mime_type: "image/png".to_string(),
        data: "AA==".to_string(),
    });
    let turn = new_turn(plan_prompt(&mut first, "s1", given, "now"));
    assert!(turn.names_command());
    let queued = turn.queued(None, &Vec::new(), 5);
    assert_eq!(queued.images.len(), 1);
    assert_eq!(queued.ticket, 5);
}

#[test]
fn extension_commands_win_over_prompt_files() {
    let files = vec![FileSlashCommand {
        name: "deploy".to_string(),
        description: String::new(),
        content: "Deploy $1 now".to_string(),
        source: "(user)".to_string(),
    }];
    let mut first = FirstPrompt::new();
    let turn = new_turn(plan_prompt(&mut first, "s1", prompt("/deploy api"), "now"));
    assert!(turn.title.is_none());
    let queued = turn.queued(None, &files, 1);
    assert_eq!(queued.message, "Deploy api now");
    assert!(!queued.extension_command);
    let turn = new_turn(plan_prompt(&mut first, "s1", prompt("/deploy api"), "now"));
    let names = vec!["deploy".to_string()];
    let queued = turn.queued(Some(&names), &files, 2);
    assert_eq!(queued.message, "/deploy api");
    assert!(queued.extension_command);
}

#[test]
fn a_turn_is_answered_with_its_outcome() {
    let argv = vec!["pi-acp".to_string()];
    let ended = prompt_response(Ok(StopReason::EndTurn), &argv).expect("a response");
    assert_eq!(ended.get_str("stopReason"), Some("end_turn"));
    let cancelled = prompt_response(Ok(StopReason::Cancelled), &argv).expect("a response");
    assert_eq!(cancelled.get_str("stopReason"), Some("cancelled"));
    let failed = AcpxError::RpcFailed {
        command: "prompt".to_string(),
        message: "No API key found".to_string(),
    };
    let e = prompt_response(Err(failed), &argv).expect_err("an error");
    assert_eq!(e.code, ACP_AUTH_REQUIRED);
    let failed = AcpxError::SettleTimeout { secs: 600 };
    let e = prompt_response(Err(failed), &argv).expect_err("an error");
    assert_eq!(e.code, ACP_INTERNAL_ERROR);
}

#[test]
fn requests_are_told_apart_by_their_methods() {
    assert_eq!(request_of("initialize"), Request::Initialize);
    assert_eq!(request_of("authenticate"), Request::Authenticate);
    assert_eq!(request_of("session/new"), Request::NewSession);
    assert_eq!(request_of("session/load"), Request::LoadSession);
    assert_eq!(request_of("session/prompt"), Request::Prompt);
    assert_eq!(request_of("session/list"), Request::List);
    assert_eq!(request_of("session/delete"), Request::Delete);
    assert_eq!(request_of("session/set_mode"), Request::SetMode);
    assert_eq!(
        request_of("session/set_config_option"),
        Request::SetConfigOption
    );
    assert_eq!(request_of("session/set_model"), Request::SetModel);
    assert_eq!(request_of("session/fork"), Request::Unknown);
    assert!(is_cancel("session/cancel"));
    assert!(!is_cancel("session/prompt"));
    assert!(runs_apart(Request::Prompt));
    assert!(!runs_apart(Request::NewSession));
}

#[test]
fn updates_follow_the_response() {
    assert_eq!(
        conclude(Request::NewSession, true, false),
        vec![Move::Respond, Move::PublishUsage, Move::TellLater]
    );
    assert_eq!(
        conclude(Request::LoadSession, true, false),
        vec![Move::Respond, Move::TellLater]
    );
    assert_eq!(
        conclude(Request::Prompt, true, true),
        vec![Move::Respond, Move::Persist]
    );
    // A command of the adapter's own is no turn.
    assert_eq!(conclude(Request::Prompt, true, false), vec![Move::Respond]);
    assert_eq!(conclude(Request::NewSession, false, false), vec![Move::Refuse]);
    assert!(conclude(Request::Unknown, true, false).is_empty());
}

#[test]
fn the_draft_version_has_an_order_of_its_own() {
    assert_eq!(
        conclude_v2(Route::NewSession, true, false),
        vec![Move::PublishUsage, Move::Respond, Move::TellLater]
    );
    assert_eq!(
        conclude_v2(Route::Resume, true, false),
        vec![Move::TellNow, Move::Respond]
    );
    assert_eq!(conclude_v2(Route::Resume, false, false), vec![Move::Refuse]);
    assert_eq!(
        conclude_v2(Route::Prompt, true, true),
        vec![Move::Respond, Move::Persist]
    );
    // It has no modes.
    assert_eq!(
        conclude_v2(route("session/set_mode"), true, false),
        vec![Move::Refuse]
    );
    assert!(conclude_v2(route("session/fork"), true, false).is_empty());
}
