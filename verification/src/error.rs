//! The adapter's error type and what the client is told of each error.

use crate::auth;
use crate::json;
use crate::json::{Json, JsonMap, JsonView, NumberView};
use crate::text;
use vstd::prelude::*;
use vstd::string::*;

verus! {

/// Why an operation of the adapter failed. `T` is the type of its texts: the
/// model of an error is the same error over character sequences.
#[derive(Debug, PartialEq)]
pub enum AcpxError<T = String> {
    /// The pi process could not be started.
    PiSpawn(T),
    /// A request to pi was not answered in time.
    RpcTimeout {
        /// The command's wire name.
        cmd: T,
        /// The deadline in seconds.
        secs: u64,
    },
    /// pi exited while something was expected of it.
    PiExited {
        /// The exit code, when it exited by itself.
        code: Option<i32>,
        /// The signal that ended it.
        signal: Option<i32>,
    },
    /// pi answered a command with a failure.
    RpcFailed {
        /// The command's wire name.
        command: T,
        /// pi's message.
        message: T,
    },
    /// Credentials are missing or were refused.
    AuthRequired(T),
    /// No session has this id.
    UnknownSession(T),
    /// The session takes no further commands.
    SessionClosed(T),
    /// pi accepted a prompt and did not settle it in time.
    SettleTimeout {
        /// The deadline in seconds.
        secs: u64,
    },
    /// A restored session reported another id than the one asked for.
    SessionIdMismatch {
        /// The id asked for.
        expected: T,
        /// The id pi reported.
        actual: T,
    },
    /// An input or output operation failed.
    Io {
        /// The class of the failure.
        kind: T,
        /// The system's message.
        message: T,
    },
    /// A text was no JSON, or not the JSON expected.
    Json(T),
}

impl View for AcpxError {
    type V = AcpxError<Seq<char>>;

    open spec fn view(&self) -> AcpxError<Seq<char>> {
        match self {
            AcpxError::PiSpawn(s) => AcpxError::PiSpawn(s@),
            AcpxError::RpcTimeout { cmd, secs } => AcpxError::RpcTimeout { cmd: cmd@, secs: *secs },
            AcpxError::PiExited { code, signal } => AcpxError::PiExited {
                code: *code,
                signal: *signal,
            },
            AcpxError::RpcFailed { command, message } => AcpxError::RpcFailed {
                command: command@,
                message: message@,
            },
            AcpxError::AuthRequired(s) => AcpxError::AuthRequired(s@),
            AcpxError::UnknownSession(s) => AcpxError::UnknownSession(s@),
            AcpxError::SessionClosed(s) => AcpxError::SessionClosed(s@),
            AcpxError::SettleTimeout { secs } => AcpxError::SettleTimeout { secs: *secs },
            AcpxError::SessionIdMismatch { expected, actual } => AcpxError::SessionIdMismatch {
                expected: expected@,
                actual: actual@,
            },
            AcpxError::Io { kind, message } => AcpxError::Io { kind: kind@, message: message@ },
            AcpxError::Json(s) => AcpxError::Json(s@),
        }
    }
}

impl Clone for AcpxError {
    fn clone(&self) -> (r: AcpxError)
        ensures
            r@ == self@,
    {
        match self {
            AcpxError::PiSpawn(s) => AcpxError::PiSpawn(s.clone()),
            AcpxError::RpcTimeout { cmd, secs } => AcpxError::RpcTimeout {
                cmd: cmd.clone(),
                secs: *secs,
            },
            AcpxError::PiExited { code, signal } => AcpxError::PiExited {
                code: *code,
                signal: *signal,
            },
            AcpxError::RpcFailed { command, message } => AcpxError::RpcFailed {
                command: command.clone(),
                message: message.clone(),
            },
            AcpxError::AuthRequired(s) => AcpxError::AuthRequired(s.clone()),
            AcpxError::UnknownSession(s) => AcpxError::UnknownSession(s.clone()),
            AcpxError::SessionClosed(s) => AcpxError::SessionClosed(s.clone()),
            AcpxError::SettleTimeout { secs } => AcpxError::SettleTimeout { secs: *secs },
            AcpxError::SessionIdMismatch { expected, actual } => AcpxError::SessionIdMismatch {
                expected: expected.clone(),
                actual: actual.clone(),
            },
            AcpxError::Io { kind, message } => AcpxError::Io {
                kind: kind.clone(),
                message: message.clone(),
            },
            AcpxError::Json(s) => AcpxError::Json(s.clone()),
        }
    }
}

/// An optional number as it is printed in a diagnostic.
pub open spec fn shown(n: Option<i32>) -> Seq<char> {
    match n {
        Some(x) => "Some("@ + text::integer(x as int) + ")"@,
        None => "None"@,
    }
}

fn show(n: Option<i32>) -> (r: String)
    ensures
        r@ == shown(n),
{
    match n {
        Some(x) => {
            let d = text::integer_text(x as i64);
            text::cat3("Some(", d.as_str(), ")")
        },
        None => "None".to_owned(),
    }
}

impl AcpxError<Seq<char>> {
    /// The diagnostic shown to the user.
    pub open spec fn message(self) -> Seq<char> {
        match self {
            AcpxError::PiSpawn(s) => "failed to spawn pi: "@ + s
                + ". Install pi with `npm i -g @earendil-works/pi-coding-agent` (on Windows the entry point is the npm global `pi.cmd`), or set PI_ACP_PI_COMMAND to the full path."@,
            AcpxError::RpcTimeout { cmd, secs } => "pi RPC request '"@ + cmd + "' timed out after "@
                + text::decimal(secs as nat) + "s"@,
            AcpxError::PiExited { code, signal } => "pi process exited (code="@ + shown(code)
                + ", signal="@ + shown(signal)
                + ") — pi-acp does not restart pi automatically; start a new session (session/new) or restart pi-acp to recover"@,
            AcpxError::RpcFailed { command, message } => "pi RPC command '"@ + command
                + "' failed: "@ + message,
            AcpxError::AuthRequired(s) => "authentication required: "@ + s,
            AcpxError::UnknownSession(s) => "unknown session: "@ + s,
            AcpxError::SessionClosed(s) => "session "@ + s + " is closed"@,
            AcpxError::SettleTimeout { secs } => "pi did not settle the turn within "@
                + text::decimal(secs as nat) + "s"@,
            AcpxError::SessionIdMismatch { expected, actual } => "session id mismatch: expected "@
                + expected + ", pi reported "@ + actual,
            AcpxError::Io { kind, message } => "io error: "@ + message,
            AcpxError::Json(s) => "json error: "@ + s,
        }
    }

    /// The stable name of the error's class.
    pub open spec fn class_name(self) -> Seq<char> {
        match self {
            AcpxError::PiSpawn(_) => "piSpawn"@,
            AcpxError::RpcTimeout { .. } => "rpcTimeout"@,
            AcpxError::PiExited { .. } => "piExited"@,
            AcpxError::RpcFailed { .. } => "rpcFailed"@,
            AcpxError::AuthRequired(_) => "authRequired"@,
            AcpxError::UnknownSession(_) => "unknownSession"@,
            AcpxError::SessionClosed(_) => "sessionClosed"@,
            AcpxError::SettleTimeout { .. } => "settleTimeout"@,
            AcpxError::SessionIdMismatch { .. } => "sessionIdMismatch"@,
            AcpxError::Io { .. } => "io"@,
            AcpxError::Json(_) => "json"@,
        }
    }

    /// The structured data sent along with the error: the class, then what is
    /// particular to it.
    pub open spec fn data(self) -> Seq<(Seq<char>, JsonView)> {
        let base = json::put(Seq::empty(), "errorType"@, JsonView::Str(self.class_name()));
        match self {
            AcpxError::PiSpawn(s) => json::put(base, "message"@, JsonView::Str(s)),
            AcpxError::RpcTimeout { cmd, secs } => json::put(
                json::put(base, "command"@, JsonView::Str(cmd)),
                "secs"@,
                JsonView::Number(NumberView::Int(secs as int)),
            ),
            AcpxError::PiExited { code, signal } => json::put(
                json::put(
                    json::put(base, "code"@, optional_number(code)),
                    "signal"@,
                    optional_number(signal),
                ),
                "hint"@,
                JsonView::Str(
                    "pi-acp does not restart pi automatically; start a new session (session/new) or restart pi-acp to recover"@,
                ),
            ),
            AcpxError::RpcFailed { command, message } => json::put(
                json::put(base, "command"@, JsonView::Str(command)),
                "message"@,
                JsonView::Str(message),
            ),
            AcpxError::AuthRequired(s) => json::put(base, "message"@, JsonView::Str(s)),
            AcpxError::UnknownSession(s) => json::put(base, "sessionId"@, JsonView::Str(s)),
            AcpxError::SessionClosed(s) => json::put(base, "sessionId"@, JsonView::Str(s)),
            AcpxError::SettleTimeout { secs } => json::put(
                base,
                "secs"@,
                JsonView::Number(NumberView::Int(secs as int)),
            ),
            AcpxError::SessionIdMismatch { expected, actual } => json::put(
                json::put(base, "expected"@, JsonView::Str(expected)),
                "actual"@,
                JsonView::Str(actual),
            ),
            AcpxError::Io { kind, message } => json::put(base, "kind"@, JsonView::Str(kind)),
            AcpxError::Json(s) => json::put(base, "message"@, JsonView::Str(s)),
        }
    }
}

/// A number, or `null` when there is none.
pub open spec fn optional_number(n: Option<i32>) -> JsonView {
    match n {
        Some(x) => JsonView::Number(NumberView::Int(x as int)),
        None => JsonView::Null,
    }
}

fn optional_number_json(n: Option<i32>) -> (r: Json)
    ensures
        r@ == optional_number(n),
{
    broadcast use crate::json::json_view;

    match n {
        Some(x) => Json::signed(x as i64),
        None => Json::Null,
    }
}

impl AcpxError {
    /// The diagnostic shown to the user.
    pub fn message(&self) -> (r: String)
        ensures
            r@ == self@.message(),
    {
        match self {
            AcpxError::PiSpawn(s) => text::cat3(
                "failed to spawn pi: ",
                s.as_str(),
                ". Install pi with `npm i -g @earendil-works/pi-coding-agent` (on Windows the entry point is the npm global `pi.cmd`), or set PI_ACP_PI_COMMAND to the full path.",
            ),
            AcpxError::RpcTimeout { cmd, secs } => {
                let d = text::decimal_text(*secs);
                text::cat5(
                    "pi RPC request '",
                    cmd.as_str(),
                    "' timed out after ",
                    d.as_str(),
                    "s",
                )
            },
            AcpxError::PiExited { code, signal } => {
                let c = show(*code);
                let s = show(*signal);
                text::cat5(
                    "pi process exited (code=",
                    c.as_str(),
                    ", signal=",
                    s.as_str(),
                    ") — pi-acp does not restart pi automatically; start a new session (session/new) or restart pi-acp to recover",
                )
            },
            AcpxError::RpcFailed { command, message } => text::cat4(
                "pi RPC command '",
                command.as_str(),
                "' failed: ",
                message.as_str(),
            ),
            AcpxError::AuthRequired(s) => text::cat2("authentication required: ", s.as_str()),
            AcpxError::UnknownSession(s) => text::cat2("unknown session: ", s.as_str()),
            AcpxError::SessionClosed(s) => text::cat3("session ", s.as_str(), " is closed"),
            AcpxError::SettleTimeout { secs } => {
                let d = text::decimal_text(*secs);
                text::cat3("pi did not settle the turn within ", d.as_str(), "s")
            },
            AcpxError::SessionIdMismatch { expected, actual } => text::cat4(
                "session id mismatch: expected ",
                expected.as_str(),
                ", pi reported ",
                actual.as_str(),
            ),
            AcpxError::Io { message, .. } => text::cat2("io error: ", message.as_str()),
            AcpxError::Json(s) => text::cat2("json error: ", s.as_str()),
        }
    }

    /// The stable name of the error's class.
    pub fn error_type(&self) -> (r: &'static str)
        ensures
            r@ == self@.class_name(),
    {
        match self {
            AcpxError::PiSpawn(_) => "piSpawn",
            AcpxError::RpcTimeout { .. } => "rpcTimeout",
            AcpxError::PiExited { .. } => "piExited",
            AcpxError::RpcFailed { .. } => "rpcFailed",
            AcpxError::AuthRequired(_) => "authRequired",
            AcpxError::UnknownSession(_) => "unknownSession",
            AcpxError::SessionClosed(_) => "sessionClosed",
            AcpxError::SettleTimeout { .. } => "settleTimeout",
            AcpxError::SessionIdMismatch { .. } => "sessionIdMismatch",
            AcpxError::Io { .. } => "io",
            AcpxError::Json(_) => "json",
        }
    }

    /// The structured data sent along with the error.
    pub fn detail(&self) -> (r: Json)
        ensures
            r@ == JsonView::Object(self@.data()),
    {
        broadcast use crate::json::json_view;

        let base = JsonMap::new().with("errorType", Json::text(self.error_type()));
        let full = match self {
            AcpxError::PiSpawn(s) => base.with("message", Json::text(s.as_str())),
            AcpxError::RpcTimeout { cmd, secs } => base.with(
                "command",
                Json::text(cmd.as_str()),
            ).with("secs", Json::unsigned(*secs)),
            AcpxError::PiExited { code, signal } => base.with(
                "code",
                optional_number_json(*code),
            ).with("signal", optional_number_json(*signal)).with(
                "hint",
                Json::text(
                    "pi-acp does not restart pi automatically; start a new session (session/new) or restart pi-acp to recover",
                ),
            ),
            AcpxError::RpcFailed { command, message } => base.with(
                "command",
                Json::text(command.as_str()),
            ).with("message", Json::text(message.as_str())),
            AcpxError::AuthRequired(s) => base.with("message", Json::text(s.as_str())),
            AcpxError::UnknownSession(s) => base.with("sessionId", Json::text(s.as_str())),
            AcpxError::SessionClosed(s) => base.with("sessionId", Json::text(s.as_str())),
            AcpxError::SettleTimeout { secs } => base.with("secs", Json::unsigned(*secs)),
            AcpxError::SessionIdMismatch { expected, actual } => base.with(
                "expected",
                Json::text(expected.as_str()),
            ).with("actual", Json::text(actual.as_str())),
            AcpxError::Io { kind, .. } => base.with("kind", Json::text(kind.as_str())),
            AcpxError::Json(s) => base.with("message", Json::text(s.as_str())),
        };
        Json::Object(full)
    }
}

// ---------------------------------------------------------------------------
// What the client receives
// ---------------------------------------------------------------------------

/// The JSON-RPC code of an internal error.
pub const ACP_INTERNAL_ERROR: i32 = -32603;

/// The JSON-RPC code of invalid parameters.
pub const ACP_INVALID_PARAMS: i32 = -32602;

/// The code of an authentication demand.
pub const ACP_AUTH_REQUIRED: i32 = -32000;

/// An error response to the client.
#[derive(Debug)]
pub struct AcpError {
    /// The JSON-RPC error code.
    pub code: i32,
    /// The message for the user.
    pub message: String,
    /// Structured data.
    pub data: Option<Json>,
}

/// The data of an authentication demand: the methods the client can offer.
pub open spec fn auth_data(argv: Seq<Seq<char>>) -> JsonView {
    let spec = auth::launch_spec(argv);
    JsonView::Object(
        json::put(
            Seq::empty(),
            "authMethods"@,
            JsonView::Array(seq![auth_method_json(auth::launch_meta(spec.0, spec.1))]),
        ),
    )
}

/// The terminal login method, as the client reads it.
pub open spec fn auth_method_json(meta: Seq<(Seq<char>, JsonView)>) -> JsonView {
    let base = json::put(
        json::put(
            json::put(
                json::put(
                    json::put(Seq::empty(), "type"@, JsonView::Str("terminal"@)),
                    "id"@,
                    JsonView::Str(auth::PI_SETUP_METHOD_ID@),
                ),
                "name"@,
                JsonView::Str("Launch pi in the terminal"@),
            ),
            "description"@,
            JsonView::Str(
                "Start pi in an interactive terminal to configure API keys or login"@,
            ),
        ),
        "args"@,
        JsonView::Array(seq![JsonView::Str("--terminal-login"@)]),
    );
    JsonView::Object(json::put(base, "_meta"@, JsonView::Object(meta)))
}

/// The data of an authentication demand, given this process's command line.
pub fn auth_required_data(argv: &Vec<String>) -> (r: Json)
    ensures
        r@ == auth_data(text::texts(argv@)),
{
    broadcast use crate::json::json_view;

    let methods = auth::get_auth_methods(true, argv);
    let method = methods[0].to_json();
    proof {
        let m = methods@[0];
        assert(text::texts(m.args@).map_values(|a: Seq<char>| JsonView::Str(a)) =~= seq![
            JsonView::Str("--terminal-login"@),
        ]);
    }
    let mut list: Vec<Json> = Vec::new();
    list.push(method);
    proof {
        assert(json::items_view(list@) =~= seq![method@]);
    }
    Json::Object(JsonMap::new().with("authMethods", Json::Array(list)))
}

impl AcpError {
    /// The error has this code, message and data.
    pub open spec fn holds(self, code: i32, message: Seq<char>, data: Option<JsonView>) -> bool {
        &&& self.code == code
        &&& self.message@ == message
        &&& json::opt_view(self.data) == data
    }

    /// The error demands authentication, with the methods attached.
    pub open spec fn demands_auth(self, argv: Seq<Seq<char>>) -> bool {
        self.holds(
            ACP_AUTH_REQUIRED,
            "Configure an API key or log in with an OAuth provider."@,
            Some(auth_data(argv)),
        )
    }

    /// The error reports `e`: an authentication demand for missing
    /// credentials, an internal error with its data for everything else.
    pub open spec fn reports(self, e: AcpxError<Seq<char>>, argv: Seq<Seq<char>>) -> bool {
        match e {
            AcpxError::AuthRequired(_) => self.demands_auth(argv),
            _ => self.holds(ACP_INTERNAL_ERROR, e.message(), Some(JsonView::Object(e.data()))),
        }
    }
}

/// The demand to authenticate.
pub fn auth_required(argv: &Vec<String>) -> (r: AcpError)
    ensures
        r.demands_auth(text::texts(argv@)),
{
    AcpError {
        code: ACP_AUTH_REQUIRED,
        message: "Configure an API key or log in with an OAuth provider.".to_owned(),
        data: Some(auth_required_data(argv)),
    }
}

/// A complaint about a request's parameters.
pub fn invalid_params(message: &str) -> (r: AcpError)
    ensures
        r.holds(ACP_INVALID_PARAMS, message@, None),
{
    AcpError { code: ACP_INVALID_PARAMS, message: message.to_owned(), data: None }
}

/// The response that reports an error of the adapter.
pub fn acp_error(e: &AcpxError, argv: &Vec<String>) -> (r: AcpError)
    ensures
        r.reports(e@, text::texts(argv@)),
{
    match e {
        AcpxError::AuthRequired(_) => auth_required(argv),
        _ => AcpError {
            code: ACP_INTERNAL_ERROR,
            message: e.message(),
            data: Some(e.detail()),
        },
    }
}

/// Whether an error is a pi failure whose text names a credential problem.
/// Failures to start pi and process exits never are, whatever they say.
pub open spec fn is_auth_failure(e: AcpxError<Seq<char>>) -> bool {
    match e {
        AcpxError::RpcFailed { message, .. } => auth::names_credentials(text::lowercased(message)),
        _ => false,
    }
}

/// The response that reports an error of pi: failures that name credentials
/// become a demand to authenticate.
pub fn acp_error_from_pi(e: &AcpxError, argv: &Vec<String>) -> (r: AcpError)
    ensures
        is_auth_failure(e@) ==> r.demands_auth(text::texts(argv@)),
        !is_auth_failure(e@) ==> r.reports(e@, text::texts(argv@)),
{
    if let AcpxError::RpcFailed { message, .. } = e {
        if auth::maybe_auth_required_error(message.as_str()).is_some() {
            return auth_required(argv);
        }
    }
    acp_error(e, argv)
}

// ---------------------------------------------------------------------------
// Laws
// ---------------------------------------------------------------------------

/// What is known of an error is told: its kind, and what went wrong.
pub proof fn errors_tell_what_they_know(e: AcpxError<Seq<char>>)
    ensures
        ({
            let d = JsonView::Object(e.data());
            &&& json::member(d, "errorType"@) == Some(JsonView::Str(e.class_name()))
            &&& match e {
                AcpxError::PiSpawn(s) => json::member(d, "message"@) == Some(JsonView::Str(s)),
                AcpxError::RpcTimeout { cmd, secs } => json::member(d, "command"@) == Some(
                    JsonView::Str(cmd),
                ) && json::member(d, "secs"@) == Some(
                    JsonView::Number(NumberView::Int(secs as int)),
                ),
                AcpxError::PiExited { code, signal } => json::member(d, "code"@) == Some(
                    match code {
                        Some(n) => JsonView::Number(NumberView::Int(n as int)),
                        None => JsonView::Null,
                    },
                ) && json::member(d, "signal"@) == Some(
                    match signal {
                        Some(n) => JsonView::Number(NumberView::Int(n as int)),
                        None => JsonView::Null,
                    },
                ),
                AcpxError::RpcFailed { command, message } => json::member(d, "command"@) == Some(
                    JsonView::Str(command),
                ) && json::member(d, "message"@) == Some(JsonView::Str(message)),
                AcpxError::AuthRequired(s) => json::member(d, "message"@) == Some(
                    JsonView::Str(s),
                ),
                AcpxError::UnknownSession(s) => json::member(d, "sessionId"@) == Some(
                    JsonView::Str(s),
                ),
                AcpxError::SessionClosed(s) => json::member(d, "sessionId"@) == Some(
                    JsonView::Str(s),
                ),
                AcpxError::SettleTimeout { secs } => json::member(d, "secs"@) == Some(
                    JsonView::Number(NumberView::Int(secs as int)),
                ),
                AcpxError::SessionIdMismatch { expected, actual } => json::member(d, "expected"@)
                    == Some(JsonView::Str(expected)) && json::member(d, "actual"@) == Some(
                    JsonView::Str(actual),
                ),
                AcpxError::Io { kind, message } => json::member(d, "kind"@) == Some(
                    JsonView::Str(kind),
                ),
                AcpxError::Json(s) => json::member(d, "message"@) == Some(JsonView::Str(s)),
            }
        }),
{
    broadcast use json::entry_of_put;

    reveal_strlit("errorType");
    reveal_strlit("message");
    reveal_strlit("command");
    reveal_strlit("secs");
    reveal_strlit("code");
    reveal_strlit("signal");
    reveal_strlit("hint");
    reveal_strlit("sessionId");
    reveal_strlit("expected");
    reveal_strlit("actual");
    reveal_strlit("kind");
    assert("errorType"@.len() == 9 && "message"@.len() == 7 && "command"@.len() == 7);
    assert("secs"@.len() == 4 && "code"@.len() == 4 && "signal"@.len() == 6);
    assert("hint"@.len() == 4 && "sessionId"@.len() == 9 && "expected"@.len() == 8);
    assert("actual"@.len() == 6 && "kind"@.len() == 4);
    assert("secs"@[0] != "code"@[0]);
    assert("secs"@[0] != "hint"@[0]);
    assert("secs"@[0] != "kind"@[0]);
    assert("code"@[0] != "hint"@[0]);
    assert("code"@[0] != "kind"@[0]);
    assert("hint"@[0] != "kind"@[0]);
    assert("signal"@[0] != "actual"@[0]);
    assert("message"@[0] != "command"@[0]);
    assert("errorType"@[0] != "sessionId"@[0]);
}

/// Errors of different kinds are told apart by their names.
pub proof fn kinds_are_told_apart(a: AcpxError<Seq<char>>, b: AcpxError<Seq<char>>)
    requires
        a.class_name() == b.class_name(),
    ensures
        a is PiSpawn == b is PiSpawn,
        a is RpcTimeout == b is RpcTimeout,
        a is PiExited == b is PiExited,
        a is RpcFailed == b is RpcFailed,
        a is AuthRequired == b is AuthRequired,
        a is UnknownSession == b is UnknownSession,
        a is SessionClosed == b is SessionClosed,
        a is SettleTimeout == b is SettleTimeout,
        a is SessionIdMismatch == b is SessionIdMismatch,
        a is Io == b is Io,
        a is Json == b is Json,
{
    reveal_strlit("piSpawn");
    reveal_strlit("rpcTimeout");
    reveal_strlit("piExited");
    reveal_strlit("rpcFailed");
    reveal_strlit("authRequired");
    reveal_strlit("unknownSession");
    reveal_strlit("sessionClosed");
    reveal_strlit("settleTimeout");
    reveal_strlit("sessionIdMismatch");
    reveal_strlit("io");
    reveal_strlit("json");
    assert("piSpawn"@.len() == 7 && "rpcTimeout"@.len() == 10 && "piExited"@.len() == 8);
    assert("rpcFailed"@.len() == 9 && "authRequired"@.len() == 12 && "unknownSession"@.len() == 14);
    assert("sessionClosed"@.len() == 13 && "settleTimeout"@.len() == 13 && "sessionIdMismatch"@.len() == 17);
    assert("io"@.len() == 2 && "json"@.len() == 4);
    assert("sessionClosed"@[2] != "settleTimeout"@[2]);
}

proof fn stands_in(front: Seq<char>, s: Seq<char>, rest: Seq<char>)
    ensures
        text::has(front + s + rest, s),
        text::has(front + s, s),
{
    let all = front + s + rest;
    assert(all.subrange(front.len() as int, (front.len() + s.len()) as int) =~= s);
    assert(text::occurs_at(all, s, front.len() as int));
    let two = front + s;
    assert(two.subrange(front.len() as int, (front.len() + s.len()) as int) =~= s);
    assert(text::occurs_at(two, s, front.len() as int));
}

/// The message of an error holds what it is about.
pub proof fn messages_name_their_cause(e: AcpxError<Seq<char>>)
    ensures
        match e {
            AcpxError::PiSpawn(s) => text::has(e.message(), s),
            AcpxError::RpcTimeout { cmd, secs } => text::has(e.message(), cmd) && text::has(
                e.message(),
                text::decimal(secs as nat),
            ),
            AcpxError::RpcFailed { command, message } => text::has(e.message(), command)
                && text::has(e.message(), message),
            AcpxError::AuthRequired(s) => text::has(e.message(), s),
            AcpxError::UnknownSession(s) => text::has(e.message(), s),
            AcpxError::SessionClosed(s) => text::has(e.message(), s),
            AcpxError::SettleTimeout { secs } => text::has(
                e.message(),
                text::decimal(secs as nat),
            ),
            AcpxError::SessionIdMismatch { expected, actual } => text::has(e.message(), expected)
                && text::has(e.message(), actual),
            AcpxError::Io { kind, message } => text::has(e.message(), message),
            AcpxError::Json(s) => text::has(e.message(), s),
            AcpxError::PiExited { code, signal } => text::has(e.message(), shown(code))
                && text::has(e.message(), shown(signal)),
        },
{
    match e {
        AcpxError::PiSpawn(s) => {
            stands_in(
                "failed to spawn pi: "@,
                s,
                ". Install pi with `npm i -g @earendil-works/pi-coding-agent` (on Windows the entry point is the npm global `pi.cmd`), or set PI_ACP_PI_COMMAND to the full path."@,
            );
        },
        AcpxError::RpcTimeout { cmd, secs } => {
            let d = text::decimal(secs as nat);
            stands_in("pi RPC request '"@, cmd, "' timed out after "@ + d + "s"@);
            assert("pi RPC request '"@ + cmd + ("' timed out after "@ + d + "s"@) =~= e.message());
            stands_in("pi RPC request '"@ + cmd + "' timed out after "@, d, "s"@);
        },
        AcpxError::RpcFailed { command, message } => {
            stands_in("pi RPC command '"@, command, "' failed: "@ + message);
            assert("pi RPC command '"@ + command + ("' failed: "@ + message) =~= e.message());
            stands_in("pi RPC command '"@ + command + "' failed: "@, message, Seq::empty());
        },
        AcpxError::AuthRequired(s) => {
            stands_in("authentication required: "@, s, Seq::empty());
        },
        AcpxError::UnknownSession(s) => {
            stands_in("unknown session: "@, s, Seq::empty());
        },
        AcpxError::SessionClosed(s) => {
            stands_in("session "@, s, " is closed"@);
        },
        AcpxError::SettleTimeout { secs } => {
            stands_in(
                "pi did not settle the turn within "@,
                text::decimal(secs as nat),
                "s"@,
            );
        },
        AcpxError::SessionIdMismatch { expected, actual } => {
            stands_in(
                "session id mismatch: expected "@,
                expected,
                ", pi reported "@ + actual,
            );
            assert("session id mismatch: expected "@ + expected + (", pi reported "@ + actual)
                =~= e.message());
            stands_in(
                "session id mismatch: expected "@ + expected + ", pi reported "@,
                actual,
                Seq::empty(),
            );
        },
        AcpxError::Io { kind, message } => {
            stands_in("io error: "@, message, Seq::empty());
        },
        AcpxError::Json(s) => {
            stands_in("json error: "@, s, Seq::empty());
        },
        AcpxError::PiExited { code, signal } => {
            let last = ") — pi-acp does not restart pi automatically; start a new session (session/new) or restart pi-acp to recover"@;
            let first = "pi process exited (code="@;
            stands_in(first, shown(code), ", signal="@ + shown(signal) + last);
            assert(first + shown(code) + (", signal="@ + shown(signal) + last) =~= e.message());
            stands_in(first + shown(code) + ", signal="@, shown(signal), last);
        },
    }
}

/// A login that is needed is demanded with the way to do it; any other error is
/// an internal one, with its message and what is known of it.
pub proof fn clients_are_told_of_errors(r: AcpError, e: AcpxError<Seq<char>>, argv: Seq<Seq<char>>)
    requires
        r.reports(e, argv),
    ensures
        e is AuthRequired ==> r.code == -32000,
        !(e is AuthRequired) ==> r.code == -32603 && r.message@ == e.message() && json::opt_view(
            r.data,
        ) == Some(JsonView::Object(e.data())),
        e is AuthRequired ==> (json::opt_view(r.data) matches Some(d) && json::member(
            d,
            "authMethods"@,
        ) matches Some(JsonView::Array(ms)) && ms.len() == 1),
{
    broadcast use json::entry_of_put;

}

/// What pi refuses for want of credentials is answered by a demand to log in.
pub proof fn missing_credentials_are_told_apart(
    command: Seq<char>,
    message: Seq<char>,
    e: AcpxError<Seq<char>>,
)
    ensures
        is_auth_failure(AcpxError::RpcFailed { command, message }) <==> auth::names_credentials(
            text::lowercased(message),
        ),
        !(e is RpcFailed) ==> !is_auth_failure(e),
{
}

} // verus!
