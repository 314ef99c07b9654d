//! What a client is told of a failure.

use pi_acp::error::{
    acp_error, acp_error_from_pi, auth_required, invalid_params, AcpxError, ACP_AUTH_REQUIRED,
    ACP_INTERNAL_ERROR, ACP_INVALID_PARAMS,
};
use pi_acp::json::to_value;
use serde_json::Value;

fn argv() -> Vec<String> {
    vec!["pi-acp".to_string()]
}

fn data_of(e: AcpxError) -> Value {
    to_value(acp_error(&e, &argv()).data.as_ref().expect("error data"))
}

#[test]
fn pi_exited_display_carries_no_respawn_hint() {
    let e: AcpxError = AcpxError::PiExited {
        code: Some(42),
        signal: None,
    };
    let msg = e.message();
    assert!(msg.contains("code=Some(42)"), "{msg}");
    assert!(msg.contains("does not restart pi"), "{msg}");
    assert!(msg.contains("session/new"), "{msg}");
}

#[test]
fn pi_spawn_display_carries_install_hint() {
    let msg = AcpxError::PiSpawn("pi: No such file".to_string()).message();
    assert!(
        msg.contains("npm i -g @earendil-works/pi-coding-agent"),
        "{msg}"
    );
    assert!(msg.contains("PI_ACP_PI_COMMAND"), "{msg}");
}

#[test]
fn rpc_timeout_detail_is_structured() {
    let err = acp_error(
        &AcpxError::RpcTimeout {
            cmd: "prompt".to_string(),
            secs: 30,
        },
        &argv(),
    );
    assert_eq!(err.code, ACP_INTERNAL_ERROR);
    let data = to_value(err.data.as_ref().expect("error data"));
    assert_eq!(data["errorType"], "rpcTimeout");
    assert_eq!(data["command"], "prompt");
    assert_eq!(data["secs"], 30);
}

#[test]
fn pi_exited_detail_carries_code_signal_and_hint() {
    let data = data_of(AcpxError::PiExited {
        code: Some(42),
        signal: None,
    });
    assert_eq!(data["errorType"], "piExited");
    assert_eq!(data["code"], 42);
    assert_eq!(data["signal"], Value::Null);
    assert!(
        data["hint"]
            .as_str()
            .unwrap()
            .contains("does not restart pi"),
        "hint: {data}"
    );
}

#[test]
fn rpc_failed_detail_carries_command_and_message() {
    let data = data_of(AcpxError::RpcFailed {
        command: "prompt".to_string(),
        message: "boom".to_string(),
    });
    assert_eq!(data["errorType"], "rpcFailed");
    assert_eq!(data["command"], "prompt");
    assert_eq!(data["message"], "boom");
}

#[test]
fn auth_required_maps_to_auth_required_code_with_auth_methods() {
    let err = acp_error(&AcpxError::AuthRequired("no key".to_string()), &argv());
    assert_eq!(err.code, ACP_AUTH_REQUIRED);
    assert!(err.message.contains("Configure an API key"));
    let data = to_value(err.data.as_ref().expect("authRequired data"));
    let methods = data["authMethods"].as_array().expect("authMethods array");
    assert_eq!(methods.len(), 1);
    assert_eq!(methods[0]["id"], "pi_terminal_login");
    assert_eq!(methods[0]["type"], "terminal");
}

#[test]
fn session_closed_detail_carries_session_id() {
    let data = data_of(AcpxError::SessionClosed("s1".to_string()));
    assert_eq!(data["errorType"], "sessionClosed");
    assert_eq!(data["sessionId"], "s1");
}

#[test]
fn every_error_has_its_type() {
    let cases: Vec<(AcpxError, &str)> = vec![
        (AcpxError::PiSpawn("x".to_string()), "piSpawn"),
        (
            AcpxError::UnknownSession("s".to_string()),
            "unknownSession",
        ),
        (AcpxError::SettleTimeout { secs: 7 }, "settleTimeout"),
        (
            AcpxError::SessionIdMismatch {
                expected: "a".to_string(),
                actual: "b".to_string(),
            },
            "sessionIdMismatch",
        ),
        (
            AcpxError::Io {
                kind: "NotFound".to_string(),
                message: "gone".to_string(),
            },
            "io",
        ),
        (AcpxError::Json("bad".to_string()), "json"),
    ];
    for (e, name) in cases {
        assert_eq!(e.error_type(), name);
        assert_eq!(data_of(e)["errorType"], name);
    }
}

#[test]
fn acp_error_from_pi_promotes_auth_looking_rpc_failures() {
    let err = acp_error_from_pi(
        &AcpxError::RpcFailed {
            command: "prompt".to_string(),
            message: "unauthorized: 401 missing api key".to_string(),
        },
        &argv(),
    );
    assert_eq!(err.code, ACP_AUTH_REQUIRED);
    let data = to_value(err.data.as_ref().expect("authRequired data"));
    let methods = data["authMethods"].as_array().expect("authMethods");
    assert_eq!(methods.len(), 1);
    assert_eq!(methods[0]["id"], "pi_terminal_login");
}

#[test]
fn acp_error_from_pi_does_not_promote_spawn_or_exit_errors() {
    // EACCES renders as "Permission denied" — must stay internal, never
    // misclassified as an auth problem.
    let spawn = acp_error_from_pi(
        &AcpxError::PiSpawn("pi: Permission denied (os error 13)".to_string()),
        &argv(),
    );
    assert_eq!(spawn.code, ACP_INTERNAL_ERROR);
    assert!(
        !spawn.message.contains("Configure an API key"),
        "{}",
        spawn.message
    );

    let exited = acp_error_from_pi(
        &AcpxError::PiExited {
            code: Some(42),
            signal: None,
        },
        &argv(),
    );
    assert_eq!(exited.code, ACP_INTERNAL_ERROR);
    let data = to_value(exited.data.as_ref().expect("error data"));
    assert_eq!(data["errorType"], "piExited");
    assert_eq!(data["code"], 42);
}

#[test]
fn acp_error_from_pi_leaves_non_auth_failures_internal() {
    let err = acp_error_from_pi(
        &AcpxError::RpcFailed {
            command: "get_state".to_string(),
            message: "something else entirely".to_string(),
        },
        &argv(),
    );
    assert_eq!(err.code, ACP_INTERNAL_ERROR);
    assert!(
        err.message.contains("something else entirely"),
        "{}",
        err.message
    );
}

#[test]
fn refusals_have_their_codes() {
    let e = invalid_params("cwd must be an absolute path: x");
    assert_eq!(e.code, ACP_INVALID_PARAMS);
    assert_eq!(e.message, "cwd must be an absolute path: x");
    assert_eq!(auth_required(&argv()).code, ACP_AUTH_REQUIRED);
}
