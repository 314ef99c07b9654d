//! The sessions that pi has on disk.

use pi_acp::json::{parse, Json};
use pi_acp::pi::sessions::{
    find_pi_session, is_session_file_name, list_pi_sessions, list_pi_sessions_from,
    parse_session_header, pi_sessions_dir, pick_fallback_title_from_head, pick_title_from_tail,
    pick_updated_at_from_tail, read_first_line, sessions_dir_from, title_from_session_file,
    SessionFile,
};

fn json(s: &str) -> Json {
    parse(s).expect("JSON")
}

fn header(id: &str, cwd: &str) -> String {
    format!(r#"{{"type":"session","id":"{id}","cwd":"{cwd}"}}"#)
}

fn message_line(role: &str, ts: &str) -> String {
    format!(
        r#"{{"type":"message","timestamp":"{ts}","message":{{"role":"{role}","content":"hi"}}}}"#
    )
}

fn session_info_line(name: &str, ts: &str) -> String {
    format!(r#"{{"type":"session_info","name":"{name}","timestamp":"{ts}"}}"#)
}

/// A small session file: its head and its tail are the whole of it.
fn session_file(path: &str, content: &str) -> SessionFile {
    SessionFile {
        path: path.to_string(),
        head: Some(content.to_string()),
        tail: Some(content.to_string()),
        raw: Some(content.to_string()),
        modified: None,
    }
}

#[test]
fn parses_header_and_ignores_non_session_files() {
    assert_eq!(
        parse_session_header(&header("s1", "/work")),
        Some(("s1".to_string(), "/work".to_string()))
    );
    assert_eq!(
        parse_session_header(r#"{"type":"message","id":"s1"}"#),
        None
    );
    assert_eq!(parse_session_header("not json"), None);
    assert_eq!(
        parse_session_header(r#"{"type":"session","id":"","cwd":"/x"}"#),
        None
    );
}

#[test]
fn picks_title_and_updated_at_from_tail() {
    let tail = format!(
        "{}\n{}\n{}",
        message_line("user", "2026-08-01T10:00:00.000Z"),
        session_info_line("My Session", "2026-08-02T11:00:00.000Z"),
        message_line("assistant", "2026-08-03T12:00:00.000Z")
    );
    assert_eq!(pick_title_from_tail(&tail), Some("My Session".to_string()));
    assert_eq!(
        pick_updated_at_from_tail(&tail),
        Some("2026-08-03T12:00:00.000Z".to_string())
    );
}

#[test]
fn updated_at_falls_back_to_any_timestamp() {
    let tail = session_info_line("T", "2026-08-02T11:00:00+00:00");
    assert_eq!(
        pick_updated_at_from_tail(&tail),
        Some("2026-08-02T11:00:00.000Z".to_string())
    );
    assert_eq!(pick_updated_at_from_tail("no timestamps here"), None);
}

#[test]
fn fallback_title_from_first_user_message() {
    let content = format!(
        "{}\n{}\n{}",
        header("s1", "/work"),
        message_line("assistant", "2026-08-01T10:00:00.000Z"),
        message_line("user", "2026-08-01T10:00:01.000Z")
    );
    assert_eq!(
        pick_fallback_title_from_head(&content),
        Some("hi".to_string())
    );
}

#[test]
fn lists_sessions_sorted_by_activity() {
    let files = vec![
        session_file(
            "/s/a.jsonl",
            &format!(
                "{}\n{}\n{}",
                header("old", "/work"),
                message_line("user", "2026-08-01T10:00:00.000Z"),
                message_line("assistant", "2026-08-01T10:00:05.000Z")
            ),
        ),
        session_file(
            "/s/b.jsonl",
            &format!(
                "{}\n{}\n{}",
                header("recent", "/other"),
                session_info_line("Recent Session", "2026-08-05T09:00:00.000Z"),
                message_line("user", "2026-08-05T09:00:10.000Z")
            ),
        ),
        // not a session file (wrong header)
        session_file(
            "/s/c.jsonl",
            &message_line("user", "2026-08-05T09:00:10.000Z"),
        ),
    ];

    let items = list_pi_sessions_from(&files);
    assert_eq!(items.len(), 2);
    assert_eq!(items[0].session_id, "recent");
    assert_eq!(items[0].title.as_deref(), Some("Recent Session"));
    assert_eq!(items[1].session_id, "old");
    assert!(items[0].updated_at.as_deref().unwrap() > items[1].updated_at.as_deref().unwrap());

    assert_eq!(list_pi_sessions(&files).len(), 2);
    let found = find_pi_session("old", &files).expect("a session");
    assert_eq!(found.session_file, "/s/a.jsonl");
    assert!(find_pi_session("gone", &files).is_none());
}

#[test]
fn title_from_file_uses_chain() {
    // session_info.name wins.
    let named = format!(
        "{}\n{}",
        header("s1", "/work"),
        session_info_line("Named Session", "2026-08-02T11:00:00.000Z")
    );
    assert_eq!(
        title_from_session_file(Some(&named), Some(&named)),
        Some("Named Session".to_string())
    );

    // No session_info: falls back to the first user message.
    let headless = format!(
        "{}\n{}",
        header("s2", "/work"),
        message_line("user", "2026-08-01T10:00:00.000Z")
    );
    assert_eq!(
        title_from_session_file(Some(&headless), Some(&headless)),
        Some("hi".to_string())
    );

    // Missing file: None.
    assert_eq!(title_from_session_file(None, None), None);
}

#[test]
fn a_name_before_the_tail_is_found_in_the_whole_file() {
    let whole = format!(
        "{}\n{}\n{}",
        header("s1", "/work"),
        session_info_line("Early", "2026-08-02T11:00:00.000Z"),
        message_line("user", "2026-08-03T11:00:00.000Z")
    );
    let tail = message_line("user", "2026-08-03T11:00:00.000Z");
    assert_eq!(
        title_from_session_file(Some(&tail), Some(&whole)),
        Some("Early".to_string())
    );
}

#[test]
fn honors_session_dir_setting_override() {
    assert_eq!(
        pi_sessions_dir("/h/agent", Some(r#"{"sessionDir": "/h/custom-sessions"}"#), false),
        "/h/custom-sessions"
    );
    let files = vec![session_file(
        "/h/custom-sessions/x.jsonl",
        &format!(
            "{}\n{}",
            header("sx", "/work"),
            message_line("user", "2026-08-01T10:00:00.000Z")
        ),
    )];
    assert_eq!(list_pi_sessions_from(&files).len(), 1);
}

#[test]
fn sessions_are_under_the_agent_directory_by_default() {
    assert_eq!(pi_sessions_dir("/h/agent", None, false), "/h/agent/sessions");
    assert_eq!(
        sessions_dir_from("/h/agent", Some(&json(r#"{"sessionDir": 3}"#)), false),
        "/h/agent/sessions"
    );
    assert!(is_session_file_name("x.jsonl"));
    assert!(!is_session_file_name("x.json"));
    assert_eq!(read_first_line("one\ntwo"), Some("one".to_string()));
}
