//! The greeting at the start of a session.

use pi_acp::startup::{
    build_startup_info, compare_semver, is_semver, pi_version_from, skills_dirs, update_notice,
    SkillsRoot, StartupFiles, TreeEntry,
};

fn files(agent: &str, cwd: &str) -> StartupFiles {
    StartupFiles {
        agent_dir: agent.to_string(),
        cwd: cwd.to_string(),
        windows: false,
        has_context: false,
        skills: Vec::new(),
        prompts: Vec::new(),
        extensions: Vec::new(),
        global_settings: None,
        project_settings: None,
    }
}

fn file(name: &str) -> TreeEntry {
    TreeEntry::File {
        name: name.to_string(),
    }
}

#[test]
fn semver_validation_and_comparison() {
    assert!(is_semver("1.2.3"));
    assert!(is_semver("1.2.3-beta.1"));
    assert!(is_semver("1.2.3+build"));
    assert!(!is_semver("v1.2.3"));
    assert!(!is_semver("1.2"));
    assert!(!is_semver("1.2.x"));
    assert!(!is_semver(""));

    assert_eq!(compare_semver("1.2.3", "1.2.3"), 0);
    assert_eq!(compare_semver("1.2.4", "1.2.3"), 1);
    assert_eq!(compare_semver("1.2.3", "1.10.0"), -1);
    assert_eq!(compare_semver("2.0.0-beta", "1.9.9"), 1);
}

#[test]
fn startup_info_lists_context_skills_prompts_extensions() {
    let mut f = files("/t/agent", "/t/project");
    f.has_context = true;
    // Project skills: direct md + nested SKILL.md
    f.skills = vec![SkillsRoot {
        path: "/t/project/.pi/skills".to_string(),
        entries: vec![
            file("notes.md"),
            TreeEntry::Dir {
                name: "deep".to_string(),
                entries: vec![file("SKILL.md")],
            },
        ],
    }];
    // Prompts + extensions in the agent dir
    f.prompts = vec!["fix.md".to_string()];
    f.extensions = vec!["tool.ts".to_string()];

    let out = build_startup_info(&f, Some("1.2.3"), None);

    assert!(out.starts_with("pi v1.2.3\n---"), "header first: {out}");
    assert!(out.contains("## Context\n- "), "{out}");
    assert!(out.contains("notes.md"), "{out}");
    assert!(out.contains("SKILL.md"), "{out}");
    assert!(out.contains("## Prompts\n- /fix"), "{out}");
    assert!(out.contains("## Extensions\n- "), "{out}");
    assert!(out.contains("tool.ts"), "{out}");
    assert!(!out.contains("New version available"), "{out}");
}

#[test]
fn startup_info_appends_update_notice_and_trims_empty_sections() {
    let f = files("/t/agent", "/t");
    let out = build_startup_info(&f, None, Some("New version available: v9.9.9"));
    // No sections, no header — only the notice.
    assert_eq!(out, "---\nNew version available: v9.9.9\n");
}

#[test]
fn startup_info_handles_npm_packages_in_extensions() {
    let mut f = files("/t/agent", "/t/project");
    f.project_settings =
        Some(r#"{"packages": ["npm:@earendil-works/pi-codex", "local-ext"]}"#.to_string());

    let out = build_startup_info(&f, None, None);

    assert!(out.contains("## Extensions"), "{out}");
    assert!(
        out.contains("@earendil-works/pi-codex\n  - index.ts"),
        "{out}"
    );
    assert!(out.contains("local-ext"), "{out}");
}

#[test]
fn a_skill_at_the_root_is_listed_once() {
    let mut f = files("/t/agent", "/t/project");
    f.skills = vec![SkillsRoot {
        path: "/k".to_string(),
        entries: vec![file("SKILL.md")],
    }];
    let out = build_startup_info(&f, None, None);
    assert_eq!(out.matches("/k/SKILL.md").count(), 1, "{out}");
}

#[test]
fn comparing_the_other_way_round_gives_the_opposite() {
    let versions = vec!["1.2.3", "1.10.0", "2.0.0-beta", "0.0.1"];
    for a in versions.iter() {
        for b in versions.iter() {
            assert_eq!(compare_semver(a, b), -compare_semver(b, a));
        }
    }
}

#[test]
fn a_newer_version_is_announced() {
    let notice = update_notice("1.2.3", "1.3.0\n").expect("a notice");
    assert!(notice.contains("1.3.0"), "{notice}");
    assert!(update_notice("1.3.0", "1.3.0").is_none());
    assert!(update_notice("1.4.0", "1.3.0").is_none());
    assert_eq!(
        pi_version_from("1.2.3\n", ""),
        Some("1.2.3".to_string())
    );
    assert_eq!(pi_version_from("", ""), None);
    let dirs = skills_dirs("/h/.pi/agent", Some("/h"), "/w", false);
    assert!(dirs.contains(&"/w/.pi/skills".to_string()), "{dirs:?}");
}
