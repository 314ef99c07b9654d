//! Paths of Windows and of other systems.

use pi_acp::agent::changelog::{changelog_candidates, is_bare_pi_command};
use pi_acp::agent::lifecycle::{check_cwd, resolve_session_file_path, VersionCheck};
use pi_acp::agent::opening::{begin_load_session, begin_new_session};
use pi_acp::json::parse;
use pi_acp::path::{is_absolute, parent, prefix_length, resolve_path};
use pi_acp::pi::resolve::{resolve_pi_command, DirListing};
use pi_acp::settings::agent_dir;
use pi_acp::translate::tools::to_tool_call_locations;

#[test]
fn absolute_paths_have_a_prefix_and_a_root_on_windows() {
    for p in [
        r"C:\work",
        "c:/work",
        r"\\server\share",
        "//server/share/x",
        r"\\?\C:\work",
        r"\\?\UNC\server\share\x",
        r"\\.\pipe\x",
    ] {
        assert!(is_absolute(p, true), "{p}");
    }
    for p in ["C:work", "C:", r"\work", "/work", "work", r"\\server", r"\\\share", "", "1:/x"] {
        assert!(!is_absolute(p, true), "{p}");
    }
    assert!(is_absolute("/work", false));
    assert!(!is_absolute(r"C:\work", false));
}

#[test]
fn prefixes_end_before_the_root() {
    assert_eq!(prefix_length(r"C:\x", true), 2);
    assert_eq!(prefix_length(r"\\server\share\x", true), 14);
    assert_eq!(prefix_length(r"\\?\C:\x", true), 6);
    assert_eq!(prefix_length(r"\\?\UNC\s\h\x", true), 11);
    assert_eq!(prefix_length(r"\\?\name\x", true), 8);
    assert_eq!(prefix_length(r"\\.\COM1\x", true), 8);
    assert_eq!(prefix_length(r"\x", true), 0);
    assert_eq!(prefix_length("C:/x", false), 0);
}

#[test]
fn paths_are_joined_as_windows_does() {
    let join = |base: &str, p: &str| resolve_path(base, p, true);
    assert_eq!(join(r"C:\work", "a.txt"), r"C:\work\a.txt");
    assert_eq!(join(r"C:\work", "a/b.txt"), r"C:\work\a/b.txt");
    assert_eq!(join("C:/work/", "a.txt"), "C:/work/a.txt");
    assert_eq!(join(r"C:\work", r"D:\x"), r"D:\x");
    assert_eq!(join(r"C:\work", "D:x"), "D:x");
    assert_eq!(join(r"C:\work", r"\x"), r"C:\x");
    assert_eq!(join(r"\\server\share\a", "/x"), r"\\server\share/x");
    assert_eq!(join("C:", "pi.exe"), "C:pi.exe");
    assert_eq!(join("", "x"), "x");
    assert_eq!(join(r"C:\work", ""), r"C:\work\");
    assert_eq!(join(r"\\?\C:\work", "a/./b"), r"\\?\C:\work\a\b");
    assert_eq!(join(r"\\?\C:\work", r"..\x"), r"\\?\C:\x");
    assert_eq!(join(r"\\?\C:\", r"..\..\x"), r"\\?\C:\x");
    assert_eq!(join(r"\\?\C:\work", r"\x"), r"\\?\C:\x");
    assert_eq!(join(r"\\?\C:", "x"), r"\\?\C:\x");
    assert_eq!(resolve_path("/work", r"a\b", false), r"/work/a\b");
    assert_eq!(resolve_path("/work/", "b", false), "/work/b");
}

#[test]
fn directories_above_go_up_to_the_root() {
    let up = |p: &str, windows: bool| parent(p, windows);
    assert_eq!(up("/a/b", false).as_deref(), Some("/a"));
    assert_eq!(up("/a", false).as_deref(), Some("/"));
    assert_eq!(up("/", false), None);
    assert_eq!(up("a", false).as_deref(), Some(""));
    assert_eq!(up(r"C:\a\b", true).as_deref(), Some(r"C:\a"));
    assert_eq!(up(r"C:\a", true).as_deref(), Some(r"C:\"));
    assert_eq!(up(r"C:\", true), None);
    assert_eq!(up(r"\\?\C:\a", true).as_deref(), Some(r"\\?\C:\"));
    assert_eq!(up(r"\\server\share\", true), None);
    assert_eq!(
        changelog_candidates(r"\\?\C:\npm\pi.cmd", true),
        vec![
            r"\\?\C:\npm\pi.cmd\CHANGELOG.md",
            r"\\?\C:\npm\CHANGELOG.md",
            r"\\?\C:\CHANGELOG.md",
        ]
    );
    assert_eq!(
        changelog_candidates("/usr/pi", false),
        vec!["/usr/pi/CHANGELOG.md", "/usr/CHANGELOG.md", "/CHANGELOG.md"]
    );
}

#[test]
fn sessions_open_in_directories_of_windows() {
    assert!(check_cwd(r"C:\work", true).is_ok());
    assert!(check_cwd(r"C:\work", false).is_err());
    assert!(check_cwd("/work", true).is_err());
    assert!(begin_new_session(r"C:\work", &VersionCheck::new(), false, true, true).is_ok());
    assert!(begin_load_session("s1", r"C:\work", true).is_ok());
    assert_eq!(
        resolve_session_file_path(r"C:\work", r"D:\s.jsonl", true),
        r"D:\s.jsonl"
    );
    assert_eq!(
        agent_dir(Some(r"C:\pi"), Some(r"D:\w"), Some(r"C:\Users\u"), true),
        r"C:\pi"
    );
    assert_eq!(
        agent_dir(None, Some(r"D:\w"), Some(r"C:\Users\u"), true),
        r"C:\Users\u\.pi\agent"
    );
    let args = parse(r#"{"path":"src\\lib.rs"}"#).expect("JSON");
    let places = to_tool_call_locations(&args, r"C:\work", None, true);
    assert_eq!(places[0].path, r"C:\work\src\lib.rs");
}

#[test]
fn commands_with_a_drive_may_be_bare() {
    assert!(is_bare_pi_command("pi", true));
    assert!(is_bare_pi_command("C:.pi", true));
    assert!(!is_bare_pi_command("C:.pi", false));
    assert!(!is_bare_pi_command("C:pi.exe", true));
}

#[test]
fn an_entry_that_is_only_a_drive_gets_no_separator() {
    let listing = DirListing {
        dir: "C:".to_string(),
        files: vec!["pi.exe".to_string()],
        names: vec!["pi.exe".to_string()],
    };
    let found = resolve_pi_command("pi", "windows", Some("C:"), Some(".EXE"), &vec![listing]);
    assert_eq!(found.program, "C:pi.exe");
}

#[test]
fn what_is_seen_from_an_absolute_directory_is_absolute() {
    for base in [r"C:\w", "C:/", r"\\server\share", r"\\?\C:\w", r"\\.\dev"] {
        for p in ["a", r"..\a", r"\a", "/a", r"D:\a", r"\\s\h\a", ""] {
            let r = resolve_path(base, p, true);
            assert!(is_absolute(&r, true), "{base} {p} {r}");
        }
    }
    assert!(!is_absolute(&resolve_path(r"C:\w", "D:a", true), true));
}
