//! Slash commands: prompt files, arguments, pi's list and the agent's own.

use pi_acp::commands::{
    builtin_available_commands, expand_slash_command, extension_command_names,
    is_extension_command, load_commands_from_dir, load_slash_commands_at, merge_commands,
    parse_command_args, parse_frontmatter, project_prompts_dir, slash_command_name,
    substitute_args, to_available_commands, to_available_commands_from_pi_get_commands,
    user_prompts_dir, AvailableCommand, AvailableCommandInput, CommandSource, FileSlashCommand,
    PromptEntry,
};
use pi_acp::json::{parse, Json};

fn json(text: &str) -> Json {
    parse(text).expect("JSON")
}

fn file(name: &str, content: &str) -> PromptEntry {
    PromptEntry::File {
        name: name.to_string(),
        content: Some(content.to_string()),
    }
}

#[test]
fn frontmatter_parses_key_values() {
    let (fm, body) = parse_frontmatter("---\ndescription: Do a thing\n---\nbody line");
    assert_eq!(
        fm.get("description").map(String::as_str),
        Some("Do a thing")
    );
    assert_eq!(body, "body line");
}

#[test]
fn frontmatter_missing_is_whole_body() {
    let (fm, body) = parse_frontmatter("just a body");
    assert!(fm.is_empty());
    assert_eq!(body, "just a body");
}

#[test]
fn frontmatter_unterminated_is_whole_body() {
    let (fm, body) = parse_frontmatter("---\ndescription: x\nno closing");
    assert!(fm.is_empty());
    assert_eq!(body, "---\ndescription: x\nno closing");
}

#[test]
fn frontmatter_ignores_non_key_value_lines() {
    let (fm, body) = parse_frontmatter("---\n# comment\ndescription:  hi  \nweird line\n---\nbody");
    assert_eq!(fm.get("description").map(String::as_str), Some("hi"));
    assert_eq!(body, "body");
}

#[test]
fn frontmatter_requires_dash_prefix_of_first_line() {
    let (fm, _) = parse_frontmatter("x---\ndescription: y\n---\nbody");
    assert!(fm.is_empty());
}

#[test]
fn frontmatter_may_be_empty() {
    let (fm, body) = parse_frontmatter("---\n---\nbody");
    assert!(fm.is_empty());
    assert_eq!(body, "body");
}

#[test]
fn args_split_on_whitespace() {
    assert_eq!(parse_command_args("a b  c"), vec!["a", "b", "c"]);
    assert_eq!(parse_command_args(""), Vec::<String>::new());
    assert_eq!(parse_command_args("   "), Vec::<String>::new());
    assert_eq!(parse_command_args("tab\tsep"), vec!["tab", "sep"]);
}

#[test]
fn args_respect_quotes() {
    assert_eq!(
        parse_command_args("say \"hello world\" now"),
        vec!["say", "hello world", "now"]
    );
    assert_eq!(
        parse_command_args("'single' \"double\""),
        vec!["single", "double"]
    );
    assert_eq!(parse_command_args("a\"b c\"d"), vec!["ab cd"]);
    // unterminated quote consumes the rest
    assert_eq!(
        parse_command_args("open \"unterminated"),
        vec!["open", "unterminated"]
    );
}

#[test]
fn substitute_positional_and_all() {
    let args = vec!["one".to_string(), "two three".to_string()];
    assert_eq!(
        substitute_args("see $1 and $2", &args),
        "see one and two three"
    );
    assert_eq!(substitute_args("all: $@", &args), "all: one two three");
    assert_eq!(substitute_args("missing $3", &args), "missing ");
    assert_eq!(substitute_args("no args $1", &Vec::new()), "no args ");
}

#[test]
fn substitute_handles_adjacent_and_large_indices() {
    let args = vec!["a".to_string(), "b".to_string()];
    assert_eq!(substitute_args("$1$2", &args), "ab");
    // `$10` must not partially match `$1`
    assert_eq!(substitute_args("x$10y", &args), "xy");
    // bare `$` without digits stays
    assert_eq!(substitute_args("cost is $", &args), "cost is $");
}

#[test]
fn substitute_leaves_nothing_for_impossible_indices() {
    let args = vec!["a".to_string()];
    assert_eq!(substitute_args("x$0y", &args), "xy");
    assert_eq!(
        substitute_args("x$99999999999999999999999999y", &args),
        "xy"
    );
}

fn cmds() -> Vec<FileSlashCommand> {
    vec![
        FileSlashCommand {
            name: "greet".into(),
            description: "Greet".into(),
            content: "Hello, $1! You said: $@".into(),
            source: "(user)".into(),
        },
        FileSlashCommand {
            name: "plain".into(),
            description: "Plain".into(),
            content: "static body".into(),
            source: "(project)".into(),
        },
    ]
}

#[test]
fn expand_known_command() {
    let expanded = expand_slash_command("/greet World hi there", &cmds());
    assert_eq!(expanded, "Hello, World! You said: World hi there");
    assert_eq!(expand_slash_command("/plain", &cmds()), "static body");
}

#[test]
fn expand_unknown_or_non_slash_returns_original() {
    assert_eq!(expand_slash_command("/nope x", &cmds()), "/nope x");
    assert_eq!(expand_slash_command("plain text", &cmds()), "plain text");
    assert_eq!(expand_slash_command("", &cmds()), "");
    assert_eq!(expand_slash_command("/", &cmds()), "/");
}

#[test]
fn load_commands_from_dir_recurses_and_skips_non_md() {
    let entries = vec![
        file("build.md", "---\ndescription: Build it\n---\nRun the build"),
        file("notes.txt", "not a command"),
        PromptEntry::Dir {
            name: "frontend".to_string(),
            entries: vec![file("deploy.md", "Deploy steps here")],
        },
    ];

    let cmds = load_commands_from_dir(&entries, CommandSource::Project, "");
    let names: Vec<&str> = cmds.iter().map(|c| c.name.as_str()).collect();
    assert!(names.contains(&"build"));
    assert!(names.contains(&"deploy"));
    assert!(!names.contains(&"notes"));

    let build = cmds.iter().find(|c| c.name == "build").unwrap();
    assert_eq!(build.description, "Build it (project)");
    assert_eq!(build.content, "Run the build");
    assert_eq!(build.source, "(project)");

    let deploy = cmds.iter().find(|c| c.name == "deploy").unwrap();
    // first-line fallback
    assert_eq!(deploy.description, "Deploy steps here (project:frontend)");
    assert_eq!(deploy.source, "(project:frontend)");
}

#[test]
fn description_fallback_truncates_at_60_chars() {
    let long_line = "x".repeat(80);
    let entries = vec![file("long.md", &long_line)];
    let cmds = load_commands_from_dir(&entries, CommandSource::User, "");
    assert_eq!(cmds.len(), 1);
    let desc = &cmds[0].description;
    assert_eq!(desc, &format!("{}... (user)", "x".repeat(60)));
}

#[test]
fn load_slash_commands_at_user_first_then_project() {
    let user_dir = vec![file("a.md", "user a"), file("b.md", "user b")];
    let project_dir = vec![file("b.md", "project b"), file("c.md", "project c")];

    let cmds = load_slash_commands_at(&user_dir, &project_dir);
    let sources: Vec<(&str, &str)> = cmds
        .iter()
        .map(|c| (c.name.as_str(), c.source.as_str()))
        .collect();
    let split = sources
        .iter()
        .position(|(_, s)| s.starts_with("(project)"))
        .unwrap_or(sources.len());
    let (user, project_cmds) = sources.split_at(split);
    let mut user = user.to_vec();
    let mut project_cmds = project_cmds.to_vec();
    user.sort();
    project_cmds.sort();
    assert_eq!(user, vec![("a", "(user)"), ("b", "(user)")]);
    assert_eq!(project_cmds, vec![("b", "(project)"), ("c", "(project)")]);
}

#[test]
fn missing_dirs_load_nothing() {
    assert!(load_commands_from_dir(&Vec::new(), CommandSource::User, "").is_empty());
}

#[test]
fn unreadable_files_and_directories_have_places() {
    let entries = vec![PromptEntry::File {
        name: "gone.md".to_string(),
        content: None,
    }];
    assert!(load_commands_from_dir(&entries, CommandSource::User, "").is_empty());
    assert_eq!(user_prompts_dir("/h/.pi/agent", false), "/h/.pi/agent/prompts");
    assert_eq!(project_prompts_dir("/w", false), "/w/.pi/prompts");
}

#[test]
fn to_available_commands_dedupes_first_wins() {
    let dup = vec![
        FileSlashCommand {
            name: "same".into(),
            description: "first".into(),
            content: "".into(),
            source: "(user)".into(),
        },
        FileSlashCommand {
            name: "same".into(),
            description: "second".into(),
            content: "".into(),
            source: "(project)".into(),
        },
        FileSlashCommand {
            name: "other".into(),
            description: "other".into(),
            content: "".into(),
            source: "(user)".into(),
        },
    ];
    let available = to_available_commands(&dup);
    assert_eq!(available.len(), 2);
    assert_eq!(available[0].name, "same");
    assert_eq!(available[0].description, "first");
    assert_eq!(available[1].name, "other");
}

#[test]
fn builtin_commands_cover_the_six_headless_commands() {
    let builtins = builtin_available_commands();
    let names: Vec<&str> = builtins.iter().map(|c| c.name.as_str()).collect();
    assert_eq!(
        names,
        vec![
            "compact",
            "autocompact",
            "export",
            "session",
            "name",
            "steering",
            "follow-up",
            "changelog"
        ]
    );
    // input hints where a command takes an input
    let compact = builtins.iter().find(|c| c.name == "compact").unwrap();
    assert!(matches!(
        compact.input,
        Some(AvailableCommandInput::Unstructured(_))
    ));
    let export = builtins.iter().find(|c| c.name == "export").unwrap();
    assert!(export.input.is_none());
}

#[test]
fn merge_commands_preserves_order_and_dedupes_first_wins() {
    let a = vec![
        AvailableCommand::new("one", "1"),
        AvailableCommand::new("two", "2"),
    ];
    let b = vec![
        AvailableCommand::new("two", "2b"),
        AvailableCommand::new("three", "3"),
    ];
    let merged = merge_commands(&a, &b);
    let names: Vec<&str> = merged.iter().map(|c| c.name.as_str()).collect();
    assert_eq!(names, vec!["one", "two", "three"]);
    // first wins: "two" keeps description "2"
    assert_eq!(merged[1].description, "2");
}

#[test]
fn pi_get_commands_conversion_filters_and_falls_back() {
    let data = json(
        r#"{
            "commands": [
                {"name": "review", "description": "Review code", "source": "prompt"},
                {"name": "skill:deploy", "description": "Deploy it", "source": "skill"},
                {"name": "ext-tool", "description": "Ext", "source": "extension"},
                {"name": "bare", "source": "prompt", "location": "/abs/path.md"},
                {"name": "no-desc", "source": ""},
                {"name": "", "description": "ignored"}
            ]
        }"#,
    );

    let cmds = to_available_commands_from_pi_get_commands(&data, true, false);
    let names: Vec<&str> = cmds.iter().map(|c| c.name.as_str()).collect();
    assert_eq!(names, vec!["review", "skill:deploy", "bare", "no-desc"]);
    assert_eq!(cmds[2].description, "(prompt:/abs/path.md)");
    assert_eq!(cmds[3].description, "(command)");

    // skill commands disabled -> skill: entries dropped
    let cmds = to_available_commands_from_pi_get_commands(&data, false, false);
    let names: Vec<&str> = cmds.iter().map(|c| c.name.as_str()).collect();
    assert_eq!(names, vec!["review", "bare", "no-desc"]);

    // extension commands included when asked
    let cmds = to_available_commands_from_pi_get_commands(&data, true, true);
    assert!(cmds.iter().any(|c| c.name == "ext-tool"));

    // nested `data.commands` shape
    let nested = json(r#"{"data": {"commands": [{"name": "n", "source": "prompt"}]}}"#);
    let cmds = to_available_commands_from_pi_get_commands(&nested, true, false);
    assert_eq!(cmds.len(), 1);
    assert_eq!(cmds[0].name, "n");

    // no commands at all
    assert!(to_available_commands_from_pi_get_commands(&json("{}"), true, false).is_empty());
}

#[test]
fn extension_commands_are_known_by_name() {
    let data = json(
        r#"{"commands": [{"name": "ext", "source": "extension"}, {"name": "p", "source": "prompt"}]}"#,
    );
    let names = extension_command_names(&data);
    assert_eq!(names, vec!["ext"]);
    assert_eq!(slash_command_name("/ext now"), Some("ext"));
    assert_eq!(slash_command_name("ext"), None);
    assert!(is_extension_command("/ext now", Some(&names)));
    assert!(!is_extension_command("/p", Some(&names)));
    assert!(!is_extension_command("/ext", None));
}
