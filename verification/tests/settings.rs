//! pi's settings.

use pi_acp::glob::char_class_match;
use pi_acp::json::{parse, to_value, Json};
use pi_acp::settings::{
    agent_dir, deep_merge, enable_skill_commands, enabled_models, get_enable_skill_commands,
    get_enabled_models, get_merged_settings, get_quiet_startup, global_settings_path,
    is_model_enabled, load_merged_settings, model_matches_enabled_pattern, pattern_stands_for,
    project_settings_path, quiet_startup, read_json_file, strip_thinking_suffix,
};

fn json(s: &str) -> Json {
    parse(s).expect("JSON")
}

#[test]
fn overlay_wins_on_scalars_and_arrays() {
    let merged = to_value(&deep_merge(
        &json(r#"{ "a": 1, "b": "global", "arr": [1, 2], "nested": { "keep": true, "over": 1 } }"#),
        &json(r#"{ "a": 2, "arr": [3], "nested": { "over": 2, "add": "x" } }"#),
    ));
    assert_eq!(merged["a"], 2);
    assert_eq!(merged["b"], "global");
    // arrays replaced wholesale (not merged)
    assert_eq!(merged["arr"].as_array().unwrap().len(), 1);
    assert_eq!(merged["arr"][0], 3);
    assert_eq!(merged["nested"]["keep"], true);
    assert_eq!(merged["nested"]["over"], 2);
    assert_eq!(merged["nested"]["add"], "x");
}

#[test]
fn deep_merge_null_base_behaves_like_empty() {
    let merged = deep_merge(&Json::Null, &json(r#"{ "a": 1 }"#));
    assert_eq!(merged, json(r#"{ "a": 1 }"#));
}

#[test]
fn global_settings_survive_missing_project_file() {
    let merged = load_merged_settings(
        Some(r#"{ "quietStartup": true, "enabledModels": ["anthropic/*"] }"#),
        None,
    );
    let v = to_value(&merged);
    assert_eq!(v["quietStartup"], true);
    assert_eq!(v["enabledModels"].as_array().unwrap().len(), 1);
    assert_eq!(v["enabledModels"][0], "anthropic/*");
}

#[test]
fn read_json_file_tolerates_missing_and_bad_json() {
    // Missing/malformed/non-object files read as `{}`, not `null`: a `null`
    // overlay would wipe the base during `deep_merge` (a project without
    // `.pi/settings.json` would lose all global settings).
    assert_eq!(read_json_file(None), json("{}"));
    assert_eq!(read_json_file(Some("{ not json")), json("{}"));
    assert_eq!(read_json_file(Some("42")), json("{}"));
}

#[test]
fn project_overrides_global_and_keys_merge() {
    let merged = to_value(&load_merged_settings(
        Some(r#"{ "quietStartup": true, "keep": "global" }"#),
        Some(r#"{ "quietStartup": false, "newKey": "project" }"#),
    ));
    assert_eq!(merged["quietStartup"], false);
    assert_eq!(merged["keep"], "global");
    assert_eq!(merged["newKey"], "project");
}

#[test]
fn missing_settings_files_yield_defaults() {
    let merged = load_merged_settings(None, None);
    assert!(!quiet_startup(&merged));
    assert!(enable_skill_commands(&merged));
}

#[test]
fn quiet_startup_direct_and_legacy() {
    assert!(quiet_startup(&json(r#"{ "quietStartup": true }"#)));
    assert!(!quiet_startup(&json(r#"{ "quietStartup": false }"#)));
    // legacy alias
    assert!(quiet_startup(&json(r#"{ "quietStart": true }"#)));
    // direct wins over legacy
    assert!(!quiet_startup(&json(
        r#"{ "quietStartup": false, "quietStart": true }"#
    )));
    assert!(!quiet_startup(&json(r#"{ "quietStartup": "yes" }"#)));
    assert!(!quiet_startup(&Json::Null));
}

#[test]
fn enable_skill_commands_direct_nested_and_default() {
    assert!(enable_skill_commands(&json(
        r#"{ "enableSkillCommands": true }"#
    )));
    assert!(!enable_skill_commands(&json(
        r#"{ "enableSkillCommands": false }"#
    )));
    // nested legacy shape
    assert!(enable_skill_commands(&json(
        r#"{ "skills": { "enableSkillCommands": true } }"#
    )));
    assert!(!enable_skill_commands(&json(
        r#"{ "skills": { "enableSkillCommands": false } }"#
    )));
    // direct wins over nested
    assert!(enable_skill_commands(&json(
        r#"{ "enableSkillCommands": true, "skills": { "enableSkillCommands": false } }"#
    )));
    // default true
    assert!(enable_skill_commands(&json(r#"{ "other": 1 }"#)));
    assert!(enable_skill_commands(&Json::Null));
}

#[test]
fn enabled_models_reads_non_empty_string_patterns() {
    assert_eq!(
        enabled_models(&json(
            r#"{ "enabledModels": [" anthropic/* ", 42, "", "acme-*"] }"#
        )),
        Some(vec!["anthropic/*".to_string(), "acme-*".to_string()])
    );
    assert_eq!(enabled_models(&json(r#"{ "enabledModels": [] }"#)), None);
    assert_eq!(
        enabled_models(&json(r#"{ "enabledModels": "acme-*" }"#)),
        None
    );
    assert_eq!(enabled_models(&Json::Null), None);
}

#[test]
fn enabled_model_patterns_match_pi_cli_forms() {
    // Canonical provider/id and bare id are both exact matches.
    assert!(model_matches_enabled_pattern(
        "Anthropic",
        "acme-sonnet-4",
        "anthropic/acme-sonnet-4"
    ));
    assert!(model_matches_enabled_pattern(
        "anthropic",
        "acme-sonnet-4",
        "acme-sonnet-4"
    ));

    // Prefix and provider globs use the same case-insensitive matcher.
    assert!(model_matches_enabled_pattern(
        "anthropic",
        "acme-sonnet-4",
        "ACME-*"
    ));
    assert!(model_matches_enabled_pattern(
        "anthropic",
        "acme-sonnet-4",
        "anthropic/*"
    ));
    assert!(!model_matches_enabled_pattern(
        "openai",
        "gpt-5",
        "anthropic/*"
    ));

    // Thinking is a selector suffix, not part of the model identity.
    assert!(model_matches_enabled_pattern(
        "anthropic",
        "acme-sonnet-4",
        "anthropic/acme-sonnet-4:thinking"
    ));
    assert!(model_matches_enabled_pattern(
        "anthropic",
        "acme-sonnet-4:high",
        "acme-sonnet-4"
    ));
}

#[test]
fn missing_or_empty_enabled_models_leave_models_unrestricted() {
    assert!(is_model_enabled("openai", "gpt-5", None));
    assert!(is_model_enabled("openai", "gpt-5", Some(&Vec::new())));
    let patterns = vec!["anthropic/*".to_string()];
    assert!(!is_model_enabled("openai", "gpt-5", Some(&patterns)));
    assert!(is_model_enabled(
        "anthropic",
        "acme-sonnet-4",
        Some(&patterns)
    ));
}

#[test]
fn texts_are_settled_before_they_are_compared() {
    assert_eq!(strip_thinking_suffix("acme:high"), "acme");
    assert_eq!(strip_thinking_suffix("acme:other"), "acme:other");
    assert!(pattern_stands_for("a/b", "b", "a/*"));
    assert!(!pattern_stands_for("A/b", "b", "a/*"));
}

#[test]
fn settings_are_read_in_one_step() {
    let global = r#"{ "quietStartup": true, "enableSkillCommands": false, "enabledModels": ["a/*"] }"#;
    assert!(get_quiet_startup(Some(global), None));
    assert!(!get_quiet_startup(
        Some(global),
        Some(r#"{ "quietStartup": false }"#)
    ));
    assert!(!get_enable_skill_commands(Some(global), None));
    assert_eq!(
        get_enabled_models(Some(global), None),
        Some(vec!["a/*".to_string()])
    );
    assert_eq!(
        to_value(&get_merged_settings(Some(global), None))["quietStartup"],
        true
    );
}

#[test]
fn settings_have_places() {
    assert_eq!(agent_dir(Some("/x"), Some("/w"), Some("/h"), false), "/x");
    assert_eq!(agent_dir(None, Some("/w"), Some("/h"), false), "/h/.pi/agent");
    assert_eq!(global_settings_path("/h/agent", false), "/h/agent/settings.json");
    assert_eq!(project_settings_path("/w", false), "/w/.pi/settings.json");
}

fn class(pattern: &str, c: char) -> Option<(usize, bool)> {
    char_class_match(&pattern.chars().collect(), 0, c)
}

#[test]
fn a_class_with_a_sign_holds_the_others() {
    for body in ["abc", "a-z", "a\\-z", "-", "a!", "x^"] {
        for c in ['a', 'b', 'z', '-', '!', '^', '\\', 'é'] {
            let (end, inside) = class(&format!("[{body}]"), c).expect("a class");
            assert_eq!(end, body.len() + 2);
            assert_eq!(class(&format!("[!{body}]"), c), Some((end + 1, !inside)));
            assert_eq!(class(&format!("[^{body}]"), c), Some((end + 1, !inside)));
        }
    }
    assert_eq!(class("[abc]", 'b'), Some((5, true)));
    assert_eq!(class("[abc", 'b'), None);
    assert_eq!(class("[]", 'b'), None);
    assert_eq!(class("[!]", 'b'), None);
    assert_eq!(class("[^]", 'b'), None);
}

#[test]
fn levels_and_case_do_not_matter() {
    let cases = [
        ("openai", "gpt-5", "openai/*"),
        ("openai", "gpt-5", "gpt-[4-6]"),
        ("openai", "gpt-5", "o3"),
    ];
    for (p, m, pattern) in cases {
        let plain = model_matches_enabled_pattern(p, m, pattern);
        for level in ["off", "Minimal", "LOW", "medium", "high", "xHigh", "max", "thinking"] {
            let leveled = format!("{m}:{level}");
            assert_eq!(model_matches_enabled_pattern(p, &leveled, pattern), plain);
            let leveled = format!("{pattern}:{level}");
            assert_eq!(model_matches_enabled_pattern(p, m, &leveled), plain);
        }
        assert_eq!(
            model_matches_enabled_pattern(
                &p.to_ascii_uppercase(),
                &m.to_ascii_uppercase(),
                &pattern.to_ascii_uppercase()
            ),
            plain
        );
    }
    assert!(model_matches_enabled_pattern("openai", "gpt-5", "gpt-[4-6]"));
    assert!(!model_matches_enabled_pattern("openai", "gpt-5:extreme", "gpt-5"));
}
