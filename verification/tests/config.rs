//! What the environment configures.

use pi_acp::config::{
    parse_pi_extra_args, Config, ConfigEnv, DEFAULT_RPC_TIMEOUT_SECS, DEFAULT_SETTLE_TIMEOUT_SECS,
};

fn empty_env() -> ConfigEnv {
    ConfigEnv {
        pi_command: None,
        embedded_context: None,
        version_check: None,
        rpc_timeout: None,
        settle_timeout: None,
        extra_args: None,
        mcp: None,
    }
}

#[test]
fn defaults_are_safe() {
    let cfg = Config::default();
    assert_eq!(cfg.pi_command, "pi");
    assert!(!cfg.enable_embedded_context);
    // The version check is off by default.
    assert!(!cfg.enable_version_check);
    // MCP is off by default.
    assert!(!cfg.enable_mcp);
    assert!(cfg.pi_extra_args.is_empty());
    assert_eq!(cfg.rpc_timeout_secs, DEFAULT_RPC_TIMEOUT_SECS);
    // The settle fallback is on by default with a generous bound (0 = off).
    assert_eq!(cfg.settle_timeout_secs, DEFAULT_SETTLE_TIMEOUT_SECS);
}

#[test]
fn pi_extra_args_split_plain_and_quoted() {
    assert!(parse_pi_extra_args("").is_empty());
    assert!(parse_pi_extra_args("   ").is_empty());
    assert_eq!(
        parse_pi_extra_args("--tools read,bash --model x"),
        vec!["--tools", "read,bash", "--model", "x"],
    );
    // A quoted segment with a space stays one argument.
    assert_eq!(
        parse_pi_extra_args("--label \"hello world\" --tools read,bash"),
        vec!["--label", "hello world", "--tools", "read,bash"],
    );
    assert_eq!(
        parse_pi_extra_args("--prompt 'say hi now'"),
        vec!["--prompt", "say hi now"],
    );
}

#[test]
fn from_env_reads_pi_extra_args_and_defaults_empty() {
    let mut env = empty_env();
    assert!(Config::from_env(&env).pi_extra_args.is_empty());
    env.extra_args = Some("   ".to_string());
    assert!(Config::from_env(&env).pi_extra_args.is_empty());
    env.extra_args = Some("--tools read,bash --label \"hi there\"".to_string());
    assert_eq!(
        Config::from_env(&env).pi_extra_args,
        vec!["--tools", "read,bash", "--label", "hi there"],
    );
}

#[test]
fn an_empty_environment_gives_the_defaults() {
    let cfg = Config::from_env(&empty_env());
    let default = Config::default();
    assert_eq!(cfg.pi_command, default.pi_command);
    assert_eq!(cfg.rpc_timeout_secs, default.rpc_timeout_secs);
    assert_eq!(cfg.settle_timeout_secs, default.settle_timeout_secs);
    assert_eq!(cfg.enable_mcp, default.enable_mcp);
}

#[test]
fn the_environment_is_followed() {
    let mut env = empty_env();
    env.pi_command = Some("/opt/pi".to_string());
    env.embedded_context = Some("true".to_string());
    env.version_check = Some("true".to_string());
    env.settle_timeout = Some("0".to_string());
    env.mcp = Some(" TRUE ".to_string());
    let cfg = Config::from_env(&env);
    assert_eq!(cfg.pi_command, "/opt/pi");
    assert!(cfg.enable_embedded_context);
    assert!(cfg.enable_version_check);
    assert_eq!(cfg.settle_timeout_secs, 0);
    assert!(cfg.enable_mcp);
}
