//! Finding the pi command.

use pi_acp::pi::resolve::{resolve_pi_command, DirListing};

fn unix() -> &'static str {
    "unix"
}

fn win() -> &'static str {
    "windows"
}

fn listing(dir: &str, files: Vec<&str>) -> DirListing {
    let names: Vec<String> = files.iter().map(|f| f.to_string()).collect();
    DirListing {
        dir: dir.to_string(),
        files: names.clone(),
        names,
    }
}

#[test]
fn bare_name_unix_resolves_in_path() {
    let none = Vec::new();
    let r = resolve_pi_command("pi", unix(), Some("/usr/bin:/opt/bin"), None, &none);
    // No files exist at those paths, so it falls back to the bare name (the
    // OS resolves it at spawn).
    assert_eq!(r.program, "pi");
    assert!(r.cmd_args.is_empty());
}

#[test]
fn bare_name_unix_picks_existing_path_entry() {
    let dirs = vec![listing("/tmp/bin", vec!["pi"])];
    let r = resolve_pi_command("pi", unix(), Some("/tmp/bin"), None, &dirs);
    assert_eq!(r.program, "/tmp/bin/pi");
    assert!(r.cmd_args.is_empty());
}

#[test]
fn absolute_path_used_verbatim_on_unix() {
    let r = resolve_pi_command(
        "/home/u/.local/bin/pi",
        unix(),
        Some("/usr/bin"),
        None,
        &Vec::new(),
    );
    assert_eq!(r.program, "/home/u/.local/bin/pi");
    assert!(r.cmd_args.is_empty());
}

#[test]
fn windows_bare_name_prefers_exe_over_cmd() {
    let r = resolve_pi_command(
        "pi",
        win(),
        Some("C:\\npm"),
        Some(".CMD;.EXE"),
        &Vec::new(),
    );
    // Neither file exists; fall back to the bare name.
    assert_eq!(r.program, "pi");
    assert!(r.cmd_args.is_empty());
}

#[test]
fn windows_bare_name_wraps_existing_cmd() {
    let dirs = vec![listing("C:\\npm", vec!["pi.cmd"])];
    let r = resolve_pi_command("pi", win(), Some("C:\\npm"), Some(".CMD"), &dirs);
    assert_eq!(r.program, "cmd.exe");
    let joined = r.cmd_args.join(" ");
    assert!(joined.starts_with("/d /s /c "), "cmd_args: {joined}");
    assert!(
        joined.to_ascii_lowercase().ends_with("pi.cmd"),
        "cmd_args: {joined}"
    );
}

#[test]
fn windows_bare_name_prefers_native_exe_when_present() {
    let dirs = vec![listing("C:\\npm", vec!["pi.exe", "pi.cmd"])];
    // PATHEXT order: .CMD first would pick the wrapper; with .EXE first the
    // native binary wins (no shell needed).
    let r = resolve_pi_command("pi", win(), Some("C:\\npm"), Some(".EXE;.CMD"), &dirs);
    assert!(r.cmd_args.is_empty(), "should not shell-wrap: {r:?}");
    assert!(
        r.program.to_ascii_lowercase().ends_with("pi.exe"),
        "program: {}",
        r.program
    );
}

#[test]
fn windows_explicit_cmd_path_wraps_via_cmd() {
    let r = resolve_pi_command(
        "C:\\npm\\pi.cmd",
        win(),
        Some("C:\\npm"),
        None,
        &Vec::new(),
    );
    assert_eq!(r.program, "cmd.exe");
    let joined = r.cmd_args.join(" ");
    assert!(joined.starts_with("/d /s /c "), "cmd_args: {joined}");
    assert!(joined.contains("pi.cmd"), "cmd_args: {joined}");
}

#[test]
fn windows_explicit_exe_path_used_verbatim() {
    let r = resolve_pi_command("C:\\npm\\pi.exe", win(), None, None, &Vec::new());
    assert_eq!(r.program, "C:\\npm\\pi.exe");
    assert!(r.cmd_args.is_empty());
}

#[test]
fn windows_cmd_with_spaces_is_quoted() {
    let dir = "C:\\My Npm Dir";
    let dirs = vec![listing(dir, vec!["pi.cmd"])];
    let r = resolve_pi_command("pi", win(), Some(dir), Some(".CMD"), &dirs);
    // The wrapper path contains a space, so the /c target must be quoted.
    assert_eq!(r.program, "cmd.exe");
    let last = r.cmd_args.last().unwrap();
    assert!(
        last.starts_with('"') && last.ends_with('"'),
        "target: {last}"
    );
    assert!(last.contains("My Npm Dir"), "target: {last}");
}
