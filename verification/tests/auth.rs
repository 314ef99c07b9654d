//! The login method and the recognition of credential problems.

use pi_acp::auth::{get_auth_methods, maybe_auth_required_error, PI_SETUP_METHOD_ID};
use pi_acp::auth::{lowercase_text_names_credentials, terminal_auth_launch_spec};
use pi_acp::json::{to_value, Json};

fn argv() -> Vec<String> {
    vec!["pi-acp".to_string()]
}

#[test]
fn auth_methods_carry_terminal_shape() {
    let methods = get_auth_methods(false, &argv());
    assert_eq!(methods.len(), 1);
    let t = &methods[0];
    assert_eq!(t.id, PI_SETUP_METHOD_ID);
    assert_eq!(t.args, vec!["--terminal-login".to_string()]);
    assert!(t.meta.is_none());
    let shown = to_value(&t.to_json());
    assert_eq!(shown["type"], "terminal");
    assert!(shown.get("env").is_none());
}

#[test]
fn auth_methods_include_terminal_auth_meta_when_supported() {
    let methods = get_auth_methods(true, &argv());
    let meta = methods[0].meta.as_ref().expect("terminal-auth meta");
    let spec = to_value(meta.get("terminal-auth").expect("terminal-auth key"));
    let command = spec["command"].as_str().unwrap();
    assert!(!command.is_empty());
    let args = spec["args"].as_array().unwrap();
    assert_eq!(args.len(), 1);
    assert_eq!(
        args[0].as_str().unwrap(),
        "--terminal-login",
        "the launch spec must end with --terminal-login"
    );
}

#[test]
fn auth_error_detection_matches_common_patterns() {
    assert!(maybe_auth_required_error("Missing API key for anthropic").is_some());
    assert!(maybe_auth_required_error("unauthorized: 401").is_some());
    assert!(maybe_auth_required_error("no key configured for provider").is_some());
    assert!(maybe_auth_required_error("403 Forbidden").is_some());
    assert!(maybe_auth_required_error("something else entirely").is_none());
    assert!(maybe_auth_required_error("").is_none());
}

#[test]
fn capitals_do_not_hide_a_credential_problem() {
    assert!(!lowercase_text_names_credentials("API KEY"));
    assert_eq!(
        maybe_auth_required_error("API KEY"),
        Some("API KEY".to_string())
    );
}

#[test]
fn a_script_is_launched_again_through_node() {
    let script = vec!["/usr/bin/node".to_string(), "/opt/pi-acp.js".to_string()];
    let (command, args) = terminal_auth_launch_spec(&script);
    assert_eq!(command, "/usr/bin/node");
    assert_eq!(args, vec!["/opt/pi-acp.js", "--terminal-login"]);
    let (command, args) = terminal_auth_launch_spec(&argv());
    assert_eq!(command, "pi-acp");
    assert_eq!(args, vec!["--terminal-login"]);
}

#[test]
fn the_method_without_terminals_has_no_meta() {
    let shown = get_auth_methods(false, &argv())[0].to_json();
    assert!(shown.get("_meta").is_none());
    assert!(matches!(shown.get("args"), Some(Json::Array(_))));
}
