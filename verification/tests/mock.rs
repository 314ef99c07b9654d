//! The stand-in for pi.

use pi_acp::json::{to_value, Json};
use pi_acp::mock::{
    default_prompt_response, exits_at_once, is_extension_response, mock_data, mock_options,
    replay_scenario, run_mode, settled_event, startup_lines, MockEnv, MockOptions, MockState,
    MockStep, RunMode, ScenarioStep,
};
use pi_acp::v2::{method_not_found, plan_resume, route, Route, ACP_METHOD_NOT_FOUND};

fn texts(v: Vec<&str>) -> Vec<String> {
    v.iter().map(|s| s.to_string()).collect()
}

fn env() -> MockEnv {
    MockEnv {
        scenario: None,
        command_log: None,
        prompt_error: None,
        models_error: None,
        exit_after: None,
    }
}

fn options(args: Vec<&str>) -> MockOptions {
    mock_options(&texts(args), &env())
}

#[test]
fn the_program_runs_in_one_of_its_modes() {
    assert_eq!(run_mode(&texts(vec![]), false), RunMode::Agent);
    assert_eq!(run_mode(&texts(vec!["--version"]), false), RunMode::Version);
    assert_eq!(
        run_mode(&texts(vec!["--terminal-login"]), false),
        RunMode::TerminalLogin
    );
    assert_eq!(run_mode(&texts(vec![]), true), RunMode::Agent);
    assert_eq!(
        run_mode(&texts(vec!["--mode", "rpc"]), true),
        RunMode::Mock
    );
    assert_eq!(run_mode(&texts(vec!["--mock-rpc"]), false), RunMode::Mock);
}

#[test]
fn the_environment_and_the_arguments_shape_the_mock() {
    let o = options(vec!["--mock-prelude", "2", "--mock-no-settle"]);
    assert!(!exits_at_once(&o));
    let mut e = env();
    e.exit_after = Some("0".to_string());
    let o = mock_options(&texts(vec![]), &e);
    assert_eq!(o.exit_after, Some(0));
    assert!(exits_at_once(&o));
    assert!(startup_lines(&options(vec![])).is_empty());
}

#[test]
fn a_level_that_was_set_is_reported() {
    let o = options(vec![]);
    let mut s = MockState::new();
    assert!(s.has_room());
    match s.on_line(&o, r#"{"id":"1","type":"set_thinking_level","level":"high"}"#) {
        MockStep::Answer { command, .. } => assert_eq!(command, "set_thinking_level"),
        other => panic!("unexpected step: {other:?}"),
    }
    match s.on_line(&o, r#"{"id":"2","type":"get_state"}"#) {
        MockStep::Answer { records, .. } => {
            let v = to_value(&records[0]);
            assert_eq!(v["id"], "2");
            assert_eq!(v["data"]["thinkingLevel"], "high");
        }
        other => panic!("unexpected step: {other:?}"),
    }
    let data = mock_data(&s, "get_state", Json::Null).expect("data");
    assert_eq!(to_value(&data)["thinkingLevel"], "high");
}

#[test]
fn what_is_no_record_is_skipped_or_told() {
    let o = options(vec![]);
    let mut s = MockState::new();
    assert!(matches!(s.on_line(&o, "   "), MockStep::Skip));
    assert!(matches!(s.on_line(&o, "{ not json"), MockStep::Unreadable));
    assert!(is_extension_response(
        r#"{"type":"extension_ui_response","id":"ui-1","value":"a"}"#
    ));
    assert!(!is_extension_response(r#"{"type":"get_state"}"#));
}

#[test]
fn a_prompt_is_answered_and_settles() {
    let events = default_prompt_response();
    let last = to_value(events.last().expect("events"));
    assert_eq!(last["type"], "agent_settled");
    assert_eq!(to_value(&settled_event())["type"], "agent_settled");
    let o = options(vec![]);
    let mut s = MockState::new();
    match s.on_line(&o, r#"{"id":"1","type":"prompt","message":"hi"}"#) {
        MockStep::Answer { prompt, .. } => assert!(prompt.is_some()),
        other => panic!("unexpected step: {other:?}"),
    }
}

#[test]
fn a_scenario_is_told_step_by_step_and_settles() {
    let steps = replay_scenario(
        "{\"type\":\"agent_start\"}\n\n{\"mock_wait_ms\":5}\n{\"type\":\"turn_start\"}\n",
        false,
    );
    let settles = steps
        .iter()
        .filter(|s| matches!(s, ScenarioStep::Emit { settles: true, .. }))
        .count();
    assert_eq!(settles, 1);
    let bare = replay_scenario("{\"type\":\"agent_start\"}\n", true);
    assert_eq!(bare.len(), 1);
}

#[test]
fn requests_of_the_second_version_are_routed() {
    assert_eq!(route("session/new"), Route::NewSession);
    assert_eq!(route("session/prompt"), Route::Prompt);
    assert_eq!(route("session/set_mode"), Route::Refuse);
    assert_eq!(route("something/else"), Route::Pass);
    let e = method_not_found("session/set_mode", "v2");
    assert_eq!(e.code, ACP_METHOD_NOT_FOUND);
    assert!(plan_resume(None).is_ok());
}
