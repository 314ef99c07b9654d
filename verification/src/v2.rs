//! The requests of the draft protocol version that this agent answers.

use crate::error::{AcpError, ACP_INVALID_PARAMS};
use crate::text;
use vstd::prelude::*;
use vstd::string::*;

verus! {

/// The JSON-RPC code for a method that does not exist.
pub const ACP_METHOD_NOT_FOUND: i32 = -32601;

/// What is to be done with a request.
#[derive(Debug, Clone, Copy, PartialEq, Eq, Structural)]
pub enum Route {
    /// Start a session.
    NewSession,
    /// Run a turn.
    Prompt,
    /// Take up a session.
    Resume,
    /// Close a session.
    Close,
    /// List the sessions.
    List,
    /// Forget a session.
    Delete,
    /// Change a config option.
    SetConfigOption,
    /// Change the model.
    SetModel,
    /// Log in.
    Login,
    /// Refuse a method that this version does not have.
    Refuse,
    /// Leave it to the connection.
    Pass,
}

/// What is to be done with a request of the given method.
pub open spec fn route_of(method: Seq<char>) -> Route {
    if method == "session/new"@ {
        Route::NewSession
    } else if method == "session/prompt"@ {
        Route::Prompt
    } else if method == "session/resume"@ {
        Route::Resume
    } else if method == "session/close"@ {
        Route::Close
    } else if method == "session/list"@ {
        Route::List
    } else if method == "session/delete"@ {
        Route::Delete
    } else if method == "session/set_config_option"@ {
        Route::SetConfigOption
    } else if method == "session/set_model"@ {
        Route::SetModel
    } else if method == "auth/login"@ {
        Route::Login
    } else if method == "session/set_mode"@ {
        Route::Refuse
    } else {
        Route::Pass
    }
}

/// What is to be done with a request of the given method.
pub fn route(method: &str) -> (r: Route)
    ensures
        r == route_of(method@),
{
    if text::same(method, "session/new") {
        Route::NewSession
    } else if text::same(method, "session/prompt") {
        Route::Prompt
    } else if text::same(method, "session/resume") {
        Route::Resume
    } else if text::same(method, "session/close") {
        Route::Close
    } else if text::same(method, "session/list") {
        Route::List
    } else if text::same(method, "session/delete") {
        Route::Delete
    } else if text::same(method, "session/set_config_option") {
        Route::SetConfigOption
    } else if text::same(method, "session/set_model") {
        Route::SetModel
    } else if text::same(method, "auth/login") {
        Route::Login
    } else if text::same(method, "session/set_mode") {
        Route::Refuse
    } else {
        Route::Pass
    }
}

/// The complaint that a protocol version does not have a method.
pub fn method_not_found(method: &str, protocol: &str) -> (r: AcpError)
    ensures
        r.holds(
            ACP_METHOD_NOT_FOUND,
            "`"@ + method@ + "` is not an ACP "@ + protocol@ + " method"@,
            None,
        ),
{
    AcpError {
        code: ACP_METHOD_NOT_FOUND,
        message: text::cat5("`", method, "` is not an ACP ", protocol, " method"),
        data: None,
    }
}

/// Whether the conversation is to be told again when a session is taken up:
/// from its start when asked to, not at all without a cursor. The cursor is
/// given by its type; any other one is refused.
pub fn plan_resume(cursor: Option<&str>) -> (r: Result<bool, AcpError>)
    ensures
        match r {
            Ok(replay) => {
                ||| replay && text::opt_str(cursor) == Some("start"@)
                ||| !replay && cursor is None
            },
            Err(e) => {
                &&& cursor is Some
                &&& cursor->0@ != "start"@
                &&& e.holds(
                    ACP_INVALID_PARAMS,
                    "session/resume: unknown replayFrom cursor `"@ + cursor->0@
                        + "`; this agent supports only `{\"type\":\"start\"}` or no replayFrom at all"@,
                    None,
                )
            },
        },
{
    match cursor {
        None => Ok(false),
        Some(kind) => {
            if text::same(kind, "start") {
                Ok(true)
            } else {
                Err(
                    AcpError {
                        code: ACP_INVALID_PARAMS,
                        message: text::cat3(
                            "session/resume: unknown replayFrom cursor `",
                            kind,
                            "`; this agent supports only `{\"type\":\"start\"}` or no replayFrom at all",
                        ),
                        data: None,
                    },
                )
            }
        },
    }
}

/// Every method has its own route and no other method has it; what is no method
/// of the sessions or of the login is left to the connection.
pub proof fn methods_have_their_routes(m: Seq<char>)
    ensures
        route_of(m) == Route::NewSession <==> m == "session/new"@,
        route_of(m) == Route::Prompt <==> m == "session/prompt"@,
        route_of(m) == Route::Resume <==> m == "session/resume"@,
        route_of(m) == Route::Close <==> m == "session/close"@,
        route_of(m) == Route::List <==> m == "session/list"@,
        route_of(m) == Route::Delete <==> m == "session/delete"@,
        route_of(m) == Route::SetConfigOption <==> m == "session/set_config_option"@,
        route_of(m) == Route::SetModel <==> m == "session/set_model"@,
        route_of(m) == Route::Login <==> m == "auth/login"@,
        route_of(m) == Route::Refuse <==> m == "session/set_mode"@,
{
    reveal_strlit("session/new");
    reveal_strlit("session/prompt");
    reveal_strlit("session/resume");
    reveal_strlit("session/close");
    reveal_strlit("session/list");
    reveal_strlit("session/delete");
    reveal_strlit("session/set_config_option");
    reveal_strlit("session/set_model");
    reveal_strlit("auth/login");
    reveal_strlit("session/set_mode");
    assert("session/new"@.len() == 11 && "session/prompt"@.len() == 14 && "session/resume"@.len() == 14);
    assert("session/close"@.len() == 13 && "session/list"@.len() == 12 && "session/delete"@.len() == 14);
    assert("session/set_config_option"@.len() == 25 && "session/set_model"@.len() == 17 && "auth/login"@.len() == 10);
    assert("session/set_mode"@.len() == 16);
    assert("session/prompt"@[8] != "session/resume"@[8]);
    assert("session/prompt"@[8] != "session/delete"@[8]);
    assert("session/resume"@[8] != "session/delete"@[8]);
}

} // verus!
