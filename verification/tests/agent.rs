//! What the agent answers.

use agent_client_protocol::schema::v1;
use pi_acp::agent::builtin::{
    compaction_message, export_file_name, handle_builtin_command, on_answer, on_changelog,
    on_session_file, queue_mode_str, session_stats_text, stats_message, Changelog, Step, Waiting,
};
use pi_acp::agent::changelog::{
    changelog_candidates, changelog_executable, installed_changelog, is_bare_pi_command,
};
use pi_acp::agent::configure::{
    available_thinking_levels, get_session_configuration, mode_state_from_levels,
    mode_state_to_acp, model_state_from_parts, needs_models, refreshed_options, resolve_model,
    supported_thinking_levels, Configuration,
};
use pi_acp::agent::lifecycle::{
    build_startup_prelude, check_cwd, death_error, delete_session, file_to_record,
    find_stored_session, list_sessions, models_error, models_refusal, registered_id,
    resolve_session_file_path, restore_session, session_file_matches_id, Located, VersionCheck,
    LIST_PAGE_SIZE,
};
use pi_acp::agent::opening::{begin_load_session, begin_new_session, Listing};
use pi_acp::agent::replay::replay_history;
use pi_acp::agent::requests::{
    advertise_commands, configuration_messages, handle_initialize, load_messages,
    load_session_response, new_session_response, requested_change, requested_mode,
    set_config_option_response, set_model_params, ConfigChange,
};
use pi_acp::agent::titles::{prompt_for_pi, provisional_title_from_prompt, FirstPrompt};
use pi_acp::commands::FileSlashCommand;
use pi_acp::error::{AcpxError, ACP_AUTH_REQUIRED, ACP_INTERNAL_ERROR, ACP_INVALID_PARAMS};
use pi_acp::json::{parse, to_value, Json};
use pi_acp::pi::resolve::ResolvedPi;
use pi_acp::pi::rpc::{Model, QueueMode, RpcCommand, RpcSessionState, ThinkingLevel};
use pi_acp::pi::sessions::PiSessionListItem;
use pi_acp::protocol::Protocol;
use pi_acp::render::outbound_frames;
use pi_acp::session::facts::OutboundMessage;
use pi_acp::session_store::StoredSession;
use serde_json::Value;

fn json(s: &str) -> Json {
    parse(s).expect("JSON")
}

fn argv() -> Vec<String> {
    vec!["pi-acp".to_string()]
}

// --- titles ---

#[test]
fn provisional_title_plain_message() {
    assert_eq!(
        provisional_title_from_prompt("fix the login bug"),
        Some("fix the login bug".to_string())
    );
}

#[test]
fn provisional_title_collapses_whitespace() {
    assert_eq!(
        provisional_title_from_prompt("  fix  the\nlogin\tbug  "),
        Some("fix the login bug".to_string())
    );
}

#[test]
fn provisional_title_truncates_at_80_chars() {
    let long = "x".repeat(200);
    let title = provisional_title_from_prompt(&long).unwrap();
    assert_eq!(title.chars().count(), 80);
    assert!(title.chars().all(|c| c == 'x'));
}

#[test]
fn provisional_title_empty_and_whitespace_only() {
    assert_eq!(provisional_title_from_prompt(""), None);
    assert_eq!(provisional_title_from_prompt("   \n\t "), None);
}

#[test]
fn only_the_first_prompt_names_the_session() {
    let mut first = FirstPrompt::new();
    match first.title_update("s1", " fix it ", "now") {
        Some(OutboundMessage::SessionInfo(i)) => {
            assert_eq!(i.title.as_deref(), Some("fix it"));
            assert_eq!(i.session_id, "s1");
        }
        other => panic!("unexpected update: {other:?}"),
    }
    assert!(first.title_update("s1", "again", "now").is_none());
    let mut other = FirstPrompt::default();
    assert!(other.mark_first_prompt());
    assert!(!other.mark_first_prompt());
}

#[test]
fn file_commands_are_expanded_and_extension_commands_are_not() {
    let files = vec![FileSlashCommand {
        name: "greet".to_string(),
        description: "Greet".to_string(),
        content: "Hello, $1!".to_string(),
        source: "(user)".to_string(),
    }];
    let ext = vec!["ext".to_string()];
    assert_eq!(
        prompt_for_pi("/greet World", Some(&ext), &files),
        ("Hello, World!".to_string(), false)
    );
    assert_eq!(
        prompt_for_pi("/ext go", Some(&ext), &files),
        ("/ext go".to_string(), true)
    );
}

// --- changelog ---

#[test]
fn changelog_lookup_walks_up_from_resolved_executable() {
    let candidates = changelog_candidates("/t/node_modules/pi-coding-agent/bin/pi", false);
    let nearest = candidates
        .iter()
        .find(|c| c.as_str() == "/t/node_modules/pi-coding-agent/CHANGELOG.md");
    assert!(nearest.is_some(), "{candidates:?}");
}

#[test]
fn explicit_pi_paths_do_not_use_global_fallback() {
    assert!(!is_bare_pi_command("/opt/pi/bin/pi", false));
    assert!(!is_bare_pi_command("C:\\tools\\pi.cmd", false));
    assert!(is_bare_pi_command("pi", false));
}

#[test]
fn the_program_behind_a_batch_file_is_looked_for() {
    let plain = ResolvedPi {
        program: "/usr/bin/pi".to_string(),
        cmd_args: Vec::new(),
    };
    assert_eq!(changelog_executable(&plain, false), "/usr/bin/pi");
    let found = installed_changelog("/usr/lib/node_modules\n", false).expect("a path");
    assert!(found.starts_with("/usr/lib/node_modules/"), "{found}");
    assert!(found.ends_with("CHANGELOG.md"), "{found}");
    assert!(installed_changelog("  \n", false).is_none());
}

// --- configuration ---

fn model(provider: &str, id: &str, reasoning: bool) -> Model {
    Model {
        id: id.to_string(),
        name: id.to_string(),
        provider: provider.to_string(),
        reasoning,
        base_url: None,
        context_window: Some(1000),
        max_tokens: None,
        input: None,
    }
}

fn state(level: ThinkingLevel) -> RpcSessionState {
    RpcSessionState {
        model: Some(model("p", "m", true)),
        thinking_level: level,
        is_streaming: false,
        is_compacting: false,
        steering_mode: QueueMode::All,
        follow_up_mode: QueueMode::OneAtATime,
        session_file: Some("/s.jsonl".to_string()),
        session_id: "s1".to_string(),
        session_name: None,
        auto_compaction_enabled: true,
        message_count: 0,
        pending_message_count: 0,
    }
}

fn configuration() -> Configuration {
    let levels = available_thinking_levels(None, Some(&state(ThinkingLevel::Low)));
    get_session_configuration(
        &vec![model("p", "m", true), model("q", "n", false)],
        &Some(state(ThinkingLevel::Low)),
        levels,
    )
}

#[test]
fn the_configuration_offers_models_and_levels() {
    let c = configuration();
    assert_eq!(c.options.len(), 2);
    assert_eq!(c.modes.current_mode_id, "low");
    let models = model_state_from_parts(&vec![model("p", "m", true)], None).expect("models");
    assert_eq!(models.current_model_id, "p/m");
    assert!(model_state_from_parts(&Vec::new(), None).is_none());
    let modes = mode_state_from_levels("low", ThinkingLevel::all());
    let told: v1::SessionModeState =
        serde_json::from_value(to_value(&mode_state_to_acp(&modes))).unwrap();
    assert_eq!(told.current_mode_id.0.as_ref(), "low");
    assert_eq!(told.available_modes.len(), ThinkingLevel::all().len());
}

#[test]
fn a_plain_model_does_not_think() {
    assert_eq!(
        supported_thinking_levels(Some(&model("p", "m", false))),
        vec![ThinkingLevel::Off]
    );
    assert!(supported_thinking_levels(Some(&model("p", "m", true))).len() > 1);
    let listed = json(r#"{"levels":["off","high"]}"#);
    assert_eq!(
        available_thinking_levels(Some(&listed), None),
        vec![ThinkingLevel::Off, ThinkingLevel::High]
    );
}

#[test]
fn an_offered_model_is_found_again() {
    let models = vec![model("p", "m", true), model("q", "n/x", false)];
    assert_eq!(
        resolve_model("q/n/x", &models).unwrap(),
        ("q".to_string(), "n/x".to_string())
    );
    assert_eq!(
        resolve_model("m", &models).unwrap(),
        ("p".to_string(), "m".to_string())
    );
    assert!(resolve_model("unheard", &models).is_err());
    assert!(!needs_models("p/m"));
    assert!(needs_models("m"));
}

#[test]
fn a_changed_level_is_told_with_the_options() {
    let models = json(
        r#"{"models":[{"id":"m","name":"M","provider":"p","reasoning":true}]}"#,
    );
    let state = json(
        r#"{"thinkingLevel":"medium","isStreaming":false,"isCompacting":false,"steeringMode":"all","followUpMode":"all","sessionId":"s1","autoCompactionEnabled":false,"messageCount":0,"pendingMessageCount":0}"#,
    );
    assert!(refreshed_options(ThinkingLevel::High, None, Some(&models), None).is_none());
    let options = refreshed_options(ThinkingLevel::High, Some(&state), Some(&models), None)
        .expect("options");
    assert!(options.iter().any(|o| o.current_value == "high"));
    let told: v1::SetSessionConfigOptionResponse =
        serde_json::from_value(to_value(&set_config_option_response(&options))).unwrap();
    assert_eq!(told.config_options.len(), options.len());
}

#[test]
fn changes_are_asked_for_by_name() {
    assert_eq!(requested_mode("high").unwrap(), ThinkingLevel::High);
    assert_eq!(requested_mode("extreme").unwrap_err().code, ACP_INVALID_PARAMS);
    assert!(matches!(
        requested_change("model", Some("p/m")),
        Ok(ConfigChange::Model(_))
    ));
    assert!(matches!(
        requested_change("thought_level", Some("low")),
        Ok(ConfigChange::Level(ThinkingLevel::Low))
    ));
    assert!(requested_change("colour", Some("red")).is_err());
    assert!(requested_change("model", None).is_err());
    assert_eq!(
        set_model_params(&json(r#"{"sessionId":"s1","modelId":"p/m"}"#)).unwrap(),
        ("s1".to_string(), "p/m".to_string())
    );
    assert!(set_model_params(&json(r#"{"sessionId":"s1"}"#)).is_err());
}

// --- responses ---

#[test]
fn initialize_tells_what_the_agent_can_do() {
    let params = json(r#"{"protocolVersion":1,"clientCapabilities":{}}"#);
    let r: v1::InitializeResponse = serde_json::from_value(to_value(&handle_initialize(
        &params,
        true,
        (true, false),
        "1.2.3",
        &argv(),
    )))
    .unwrap();
    assert!(r.agent_capabilities.load_session);
    assert!(r.agent_capabilities.prompt_capabilities.image);
    assert!(r.agent_capabilities.prompt_capabilities.embedded_context);
    assert!(r.agent_capabilities.mcp_capabilities.http);
    assert!(!r.agent_capabilities.mcp_capabilities.sse);
    assert_eq!(r.auth_methods.len(), 1);
    assert_eq!(r.agent_info.expect("info").version, "1.2.3");
}

#[test]
fn new_and_loaded_sessions_are_answered_alike() {
    let c = configuration();
    let r: v1::NewSessionResponse =
        serde_json::from_value(to_value(&new_session_response("s1", &c, "hello"))).unwrap();
    assert_eq!(r.session_id.0.as_ref(), "s1");
    assert_eq!(r.config_options.expect("options").len(), 2);
    assert_eq!(r.modes.expect("modes").current_mode_id.0.as_ref(), "low");
    let r: v1::LoadSessionResponse =
        serde_json::from_value(to_value(&load_session_response(&c))).unwrap();
    assert!(r.modes.is_some());
    let told = configuration_messages("s1", c);
    assert!(told
        .iter()
        .any(|m| matches!(m, OutboundMessage::ConfigOptions(_))));
    assert!(told.iter().any(|m| matches!(m, OutboundMessage::Mode(_))));
}

#[test]
fn commands_of_pi_come_before_the_own_ones() {
    let data = json(r#"{"commands":[{"name":"review","description":"R","source":"prompt"}]}"#);
    let OutboundMessage::AvailableCommands(c) = advertise_commands("s1", Some(&data), true, &Vec::new())
    else {
        panic!("a list of commands");
    };
    let names: Vec<&str> = c.commands.iter().map(|c| c.name.as_str()).collect();
    assert_eq!(names[0], "review");
    assert!(names.contains(&"compact"));
}

fn listing(file: Option<&str>) -> Listing {
    let starting = begin_new_session("/w", &VersionCheck::new(), true, false, false).unwrap();
    assert_eq!(starting.cwd(), "/w");
    assert!(starting.looks_for_update());
    assert!(starting.asks_version());
    let mut s = state(ThinkingLevel::Low);
    s.session_file = file.map(|f| f.to_string());
    starting.started(Ok(s), &argv()).unwrap()
}

#[test]
fn a_session_without_models_is_refused() {
    let d = listing(Some("s.jsonl"))
        .listed(Ok(Vec::new()), &None, &argv())
        .unwrap_err();
    assert_eq!(d.error.code, ACP_AUTH_REQUIRED);
    assert_eq!(d.session_id, "s1");
    assert_eq!(d.remove.as_deref(), Some("s.jsonl"));

    let keyless = AcpxError::RpcFailed {
        command: "get_available_models".to_string(),
        message: "No API KEY".to_string(),
    };
    let d = listing(None)
        .listed(Err(keyless), &Some(stored("s1")), &argv())
        .unwrap_err();
    assert_eq!(d.error.code, ACP_AUTH_REQUIRED);
    assert_eq!(d.remove.as_deref(), Some("/stored/s.jsonl"));

    let late = AcpxError::RpcTimeout {
        cmd: "get_available_models".to_string(),
        secs: 30,
    };
    assert_eq!(models_error(&late, &argv()).code, ACP_INTERNAL_ERROR);
    assert_eq!(models_refusal(&late, true, &argv()).code, ACP_AUTH_REQUIRED);
}

#[test]
fn a_session_is_opened_step_by_step() {
    let levelling = listing(Some("s.jsonl"))
        .listed(Ok(vec![model("p", "m", true)]), &None, &argv())
        .unwrap();
    let checking = levelling.levelled(None);
    assert_eq!(checking.path(), Some("/w/s.jsonl"));
    let greeting = checking.checked(Some(r#"{"type":"session","id":"s1","cwd":"/w"}"#));
    let opened = greeting.greeted("hello".to_string(), None);
    assert_eq!(opened.session_id, "s1");
    assert_eq!(opened.cwd, "/w");
    assert_eq!(opened.record.as_deref(), Some("s.jsonl"));
    let r: v1::NewSessionResponse = serde_json::from_value(to_value(&opened.response)).unwrap();
    assert_eq!(r.session_id.0.as_ref(), "s1");
    assert_eq!(r.meta.expect("meta")["piAcp"]["startupInfo"], "hello");
    assert!(matches!(
        opened.prelude,
        Some(OutboundMessage::TextChunk(c)) if c.text == "hello"
    ));

    // A file that pi has not written yet is not taken up.
    let early = listing(Some("s.jsonl"))
        .listed(Ok(vec![model("p", "m", true)]), &None, &argv())
        .unwrap()
        .levelled(None)
        .checked(None)
        .greeted(String::new(), None);
    assert!(early.record.is_none());
    assert!(early.prelude.is_none());
}

#[test]
fn a_session_that_cannot_be_started_is_refused() {
    assert_eq!(
        begin_new_session("w", &VersionCheck::new(), false, true, false)
            .unwrap_err()
            .code,
        ACP_INVALID_PARAMS
    );
    let starting = begin_new_session("/w", &VersionCheck::new(), false, true, false).unwrap();
    assert!(!starting.looks_for_update());
    assert!(!starting.asks_version());
    let e = starting
        .started(Err(AcpxError::PiSpawn("pi".to_string())), &argv())
        .unwrap_err();
    assert_eq!(e.code, ACP_INTERNAL_ERROR);
}

#[test]
fn a_session_is_loaded_step_by_step() {
    let loading = begin_load_session("s1", "/w", false).unwrap();
    let place = find_stored_session(Some(stored("s1")), None);
    let restoring = loading.located(place).unwrap();
    assert_eq!(restoring.cwd(), "/w");
    assert_eq!(restoring.session_file(), "/stored/s.jsonl");
    let retelling = restoring.restored(None, &argv()).unwrap();
    assert_eq!(retelling.stored_cwd(), "/stored");
    let loaded = retelling
        .retold(Ok(history()), Some("T"), &configuration(), "now", &argv())
        .unwrap();
    assert_eq!(loaded.messages.len(), 7);
    let r: v1::LoadSessionResponse = serde_json::from_value(to_value(&loaded.response)).unwrap();
    assert!(r.modes.is_some());

    let unknown = begin_load_session("s2", "/w", false).unwrap().located(None);
    assert_eq!(unknown.unwrap_err().code, ACP_INVALID_PARAMS);
    assert!(begin_load_session("s1", "w", false).is_err());
}

#[test]
fn directories_have_to_be_absolute() {
    assert!(check_cwd("/work", false).is_ok());
    assert_eq!(check_cwd("work", false).unwrap_err().code, ACP_INVALID_PARAMS);
    assert_eq!(resolve_session_file_path("/w", "s.jsonl", false), "/w/s.jsonl");
}

#[test]
fn a_file_is_recorded_for_its_own_session() {
    let s = state(ThinkingLevel::Low);
    assert_eq!(file_to_record(&s, "s1").as_deref(), Some("/s.jsonl"));
    assert_eq!(file_to_record(&s, "s2"), None);
    let head = r#"{"type":"session","id":"s1","cwd":"/w"}"#;
    assert!(session_file_matches_id(Some(head), "s1"));
    assert!(!session_file_matches_id(Some(head), "s2"));
}

#[test]
fn the_version_is_looked_for_once() {
    let mut v = VersionCheck::new();
    assert!(!v.is_due(false));
    assert!(v.is_due(true));
    v.finish(Some("New version available".to_string()));
    assert!(!v.is_due(true));
    assert_eq!(v.notice(), Some("New version available"));
    assert_eq!(
        build_startup_prelude(false, "greeting".to_string(), v.notice()),
        "greeting"
    );
    let quiet = build_startup_prelude(true, "greeting".to_string(), v.notice());
    assert!(quiet.contains("New version available"), "{quiet}");
    assert!(!quiet.contains("greeting"), "{quiet}");
}

fn item(id: &str, cwd: &str) -> PiSessionListItem {
    PiSessionListItem {
        session_id: id.to_string(),
        cwd: cwd.to_string(),
        title: Some(format!("Session {id}")),
        updated_at: None,
        session_file: format!("/s/{id}.jsonl"),
    }
}

fn stored(id: &str) -> StoredSession {
    StoredSession {
        session_id: id.to_string(),
        cwd: "/stored".to_string(),
        session_file: "/stored/s.jsonl".to_string(),
        additional_directories: Vec::new(),
        updated_at: "2026-08-01T10:00:00.000Z".to_string(),
    }
}

#[test]
fn a_session_is_found_in_the_map_or_on_disk() {
    let located: Located = find_stored_session(Some(stored("a")), Some(item("a", "/w"))).unwrap();
    assert_eq!(located.cwd, "/stored");
    let found = find_stored_session(None, Some(item("a", "/w"))).unwrap();
    assert_eq!(found.session_file, "/s/a.jsonl");
    let restored = restore_session("a", Some("/w"), Some(found)).unwrap();
    assert_eq!(restored.session_file, "/s/a.jsonl");
    assert_eq!(
        restore_session("a", Some("/w"), None).unwrap_err().code,
        ACP_INVALID_PARAMS
    );
    assert!(delete_session(&None, &None).is_none());
    assert_eq!(
        delete_session(&None, &Some(item("a", "/w")))
            .unwrap()
            .session_file,
        "/s/a.jsonl"
    );
}

#[test]
fn ids_have_to_agree() {
    assert_eq!(registered_id(Some("a"), "a").unwrap(), "a");
    assert_eq!(registered_id(None, "b").unwrap(), "b");
    assert!(matches!(
        registered_id(Some("a"), "b"),
        Err(AcpxError::SessionIdMismatch { .. })
    ));
    assert!(matches!(
        death_error("s1", Some((Some(2), None))),
        AcpxError::PiExited { code: Some(2), .. }
    ));
}

#[test]
fn pages_lead_on_to_the_end() {
    let items: Vec<PiSessionListItem> = (0..LIST_PAGE_SIZE + 7)
        .map(|i| item(&format!("{i}"), "/w"))
        .collect();
    let mut seen = 0;
    let mut cursor: Option<String> = None;
    let mut pages = 0;
    loop {
        let page = to_value(&list_sessions(&items, Some("/w"), None, cursor.as_deref()));
        let r: v1::ListSessionsResponse = serde_json::from_value(page).unwrap();
        seen += r.sessions.len();
        pages += 1;
        assert!(r.sessions.len() <= LIST_PAGE_SIZE);
        match r.next_cursor {
            Some(c) => cursor = Some(c.to_string()),
            None => break,
        }
    }
    assert_eq!(pages, 2);
    assert_eq!(seen, items.len());
}

#[test]
fn a_directory_lists_its_sessions_only() {
    let items = vec![item("a", "/w"), item("b", "/x")];
    let v = to_value(&list_sessions(&items, Some("/x"), None, None));
    assert_eq!(v["sessions"].as_array().unwrap().len(), 1);
    assert_eq!(v["sessions"][0]["sessionId"], "b");
    let v = to_value(&list_sessions(&items, None, Some("/w"), None));
    assert_eq!(v["sessions"][0]["sessionId"], "a");
}

// --- commands of the agent's own ---

fn said(step: Step) -> String {
    match step {
        Step::Say(messages) => messages
            .iter()
            .map(|m| match m {
                OutboundMessage::TextChunk(c) => c.text.clone(),
                _ => String::new(),
            })
            .collect(),
        other => panic!("expected words, got {other:?}"),
    }
}

#[test]
fn other_prompts_are_no_commands() {
    assert!(handle_builtin_command("s1", "hello", false).is_none());
    assert!(handle_builtin_command("s1", "/review", false).is_none());
    assert!(handle_builtin_command("s1", "/compact", true).is_none());
}

#[test]
fn compacting_asks_pi_and_tells_the_outcome() {
    match handle_builtin_command("s1", "/compact keep names", false) {
        Some(Step::Ask { command, waiting }) => {
            assert!(matches!(
                command,
                RpcCommand::Compact {
                    custom_instructions: Some(_)
                }
            ));
            let step = on_answer(
                "s1",
                waiting,
                Ok(json(r#"{"tokensBefore":100,"summary":"short"}"#)),
                "now",
                "",
            );
            let text = said(step);
            assert!(text.contains("100"), "{text}");
        }
        other => panic!("unexpected step: {other:?}"),
    }
    let text = compaction_message(&json("{}"), false);
    assert!(!text.is_empty());
}

#[test]
fn a_failed_command_fails() {
    let e = AcpxError::RpcFailed {
        command: "compact".to_string(),
        message: "boom".to_string(),
    };
    match on_answer("s1", Waiting::Compact { custom: false }, Err(e), "now", "") {
        Step::Fail(AcpxError::RpcFailed { message, .. }) => assert_eq!(message, "boom"),
        other => panic!("unexpected step: {other:?}"),
    }
}

#[test]
fn queue_modes_are_shown_and_set() {
    match handle_builtin_command("s1", "/steering", false) {
        Some(Step::Ask { command, waiting }) => {
            assert!(matches!(command, RpcCommand::GetState));
            let state = json(
                r#"{"thinkingLevel":"medium","isStreaming":false,"isCompacting":false,"steeringMode":"all","followUpMode":"one-at-a-time","sessionId":"s1","autoCompactionEnabled":false,"messageCount":0,"pendingMessageCount":0}"#,
            );
            let text = said(on_answer("s1", waiting, Ok(state), "now", ""));
            assert!(text.contains("all"), "{text}");
        }
        other => panic!("unexpected step: {other:?}"),
    }
    assert_eq!(queue_mode_str(QueueMode::OneAtATime), "one-at-a-time");
    assert_eq!(queue_mode_str(QueueMode::Other), "unknown");
}

#[test]
fn an_answer_that_is_no_state_fails_with_the_readers_words() {
    let step = on_answer(
        "s1",
        Waiting::AutoState,
        Ok(json("{}")),
        "now",
        "missing field `thinkingLevel`",
    );
    match step {
        Step::Fail(AcpxError::Json(why)) => assert_eq!(why, "missing field `thinkingLevel`"),
        other => panic!("unexpected step: {other:?}"),
    }
}

#[test]
fn statistics_are_written_out() {
    let stats = json(
        r#"{"sessionId":"s1","sessionFile":"/s.jsonl","totalMessages":4,"userMessages":1,"assistantMessages":2,"toolCalls":1,"toolResults":1,"tokens":{"input":5,"output":3,"cacheRead":0,"cacheWrite":0,"total":8},"cost":0.25}"#,
    );
    let text = session_stats_text(&stats);
    assert!(text.contains("s1"), "{text}");
    assert!(text.contains("0.25"), "{text}");
    let other = stats_message(&stats, Some("9.99"), "");
    assert!(other.contains("9.99"), "{other}");
    // A record without anything that is known is shown as it is.
    let unknown = json(r#"{"x":1}"#);
    assert_eq!(session_stats_text(&unknown), "Session stats:\n{\n  \"x\": 1\n}");
    assert_eq!(stats_message(&unknown, None, "..."), "Session stats:\n...");
}

#[test]
fn an_export_is_a_link_to_its_file() {
    assert!(!export_file_name("a/b").contains('/'));
    match on_session_file("s1", "/w", Some(r#"{"type":"session","id":"s1"}"#), false) {
        Step::Ask { command, .. } => match command {
            RpcCommand::ExportHtml { output_path } => {
                assert!(output_path.expect("a path").starts_with("/w/"));
            }
            other => panic!("unexpected command: {other:?}"),
        },
        other => panic!("unexpected step: {other:?}"),
    }
    match on_answer(
        "s1",
        Waiting::Export,
        Ok(json(r#"{"path":"/w/x.html"}"#)),
        "now",
        "",
    ) {
        Step::Say(messages) => assert!(messages.iter().any(|m| matches!(
            m,
            OutboundMessage::LinkChunk(l) if l.uri.contains("/w/x.html")
        ))),
        other => panic!("unexpected step: {other:?}"),
    }
}

#[test]
fn the_changelog_is_shown() {
    assert!(matches!(
        handle_builtin_command("s1", "/changelog", false),
        Some(Step::ReadChangelog)
    ));
    let text = said(on_changelog("s1", Changelog::Content("# 1.0\nnew".to_string())));
    assert!(text.contains("# 1.0"), "{text}");
    assert!(!said(on_changelog("s1", Changelog::Missing)).is_empty());
    let text = said(on_changelog("s1", Changelog::Unreadable("denied".to_string())));
    assert!(text.contains("denied"), "{text}");
}

// --- replay ---

fn history() -> Json {
    json(
        r#"{"messages":[
            {"role":"user","content":"hi"},
            {"role":"assistant","content":[{"type":"text","text":"hello"}]},
            {"role":"toolResult","toolName":"bash","toolCallId":"t1","isError":false,"content":[{"type":"text","text":"out"}],"details":{"command":"ls","exitCode":0}},
            {"role":"toolResult","toolName":"read","content":[{"type":"text","text":"file"}]}
        ]}"#,
    )
}

#[test]
fn a_history_is_told_in_its_order() {
    let told = replay_history("s1", "/w", &history());
    assert_eq!(told.len(), 6);
    let frames: Vec<Value> = told
        .iter()
        .flat_map(|m| outbound_frames(m, Protocol::V1, "x"))
        .map(|f| to_value(&f))
        .collect();
    let kinds: Vec<&str> = frames
        .iter()
        .map(|f| f["update"]["sessionUpdate"].as_str().unwrap())
        .collect();
    assert_eq!(
        kinds,
        vec![
            "user_message_chunk",
            "agent_message_chunk",
            "tool_call",
            "tool_call_update",
            "tool_call",
            "tool_call_update"
        ]
    );
    assert_eq!(frames[0]["update"]["content"]["text"], "hi");
    assert_eq!(frames[2]["update"]["toolCallId"], "t1");
    assert_ne!(
        frames[2]["update"]["toolCallId"],
        frames[4]["update"]["toolCallId"]
    );
    for f in frames {
        let read: Result<v1::SessionNotification, _> = serde_json::from_value(f.clone());
        assert!(read.is_ok(), "{f}");
    }
}

#[test]
fn a_loaded_session_is_named_before_it_is_told() {
    let told = load_messages("s1", "/w", Some("T"), &history(), "now");
    assert!(told.len() > 6);
    assert!(told
        .iter()
        .any(|m| matches!(m, OutboundMessage::SessionInfo(i) if i.title.as_deref() == Some("T"))));
}
