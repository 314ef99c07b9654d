//! Which handler a request goes to, and what follows from its outcome, in
//! order.

use crate::text;
use crate::v2::Route;
use vstd::prelude::*;
use vstd::string::*;

verus! {

/// A request of the client.
#[derive(Debug, Clone, Copy, PartialEq, Eq, Structural)]
pub enum Request {
    /// Agree on a protocol.
    Initialize,
    /// Sign in.
    Authenticate,
    /// Start a session.
    NewSession,
    /// Load a session.
    LoadSession,
    /// Run a turn.
    Prompt,
    /// List the sessions.
    List,
    /// Forget a session.
    Delete,
    /// Change the mode.
    SetMode,
    /// Change a config option.
    SetConfigOption,
    /// Change the model.
    SetModel,
    /// A request that this agent does not know.
    Unknown,
}

/// What is done about a request once its handler is through.
#[derive(Debug, Clone, Copy, PartialEq, Eq, Structural)]
pub enum Move {
    /// Send the response.
    Respond,
    /// Send the error.
    Refuse,
    /// Tell the context's use, and wait until that is sent.
    PublishUsage,
    /// Tell what the session holds, and wait until that is sent.
    TellNow,
    /// Tell what the session holds, in a task of its own.
    TellLater,
    /// Record where the session is kept.
    Persist,
}

/// The request with the given method.
pub open spec fn request_named(method: Seq<char>) -> Request {
    if method == "initialize"@ {
        Request::Initialize
    } else if method == "authenticate"@ {
        Request::Authenticate
    } else if method == "session/new"@ {
        Request::NewSession
    } else if method == "session/load"@ {
        Request::LoadSession
    } else if method == "session/prompt"@ {
        Request::Prompt
    } else if method == "session/list"@ {
        Request::List
    } else if method == "session/delete"@ {
        Request::Delete
    } else if method == "session/set_mode"@ {
        Request::SetMode
    } else if method == "session/set_config_option"@ {
        Request::SetConfigOption
    } else if method == "session/set_model"@ {
        Request::SetModel
    } else {
        Request::Unknown
    }
}

/// The request with the given method.
pub fn request_of(method: &str) -> (r: Request)
    ensures
        r == request_named(method@),
{
    if text::same(method, "initialize") {
        Request::Initialize
    } else if text::same(method, "authenticate") {
        Request::Authenticate
    } else if text::same(method, "session/new") {
        Request::NewSession
    } else if text::same(method, "session/load") {
        Request::LoadSession
    } else if text::same(method, "session/prompt") {
        Request::Prompt
    } else if text::same(method, "session/list") {
        Request::List
    } else if text::same(method, "session/delete") {
        Request::Delete
    } else if text::same(method, "session/set_mode") {
        Request::SetMode
    } else if text::same(method, "session/set_config_option") {
        Request::SetConfigOption
    } else if text::same(method, "session/set_model") {
        Request::SetModel
    } else {
        Request::Unknown
    }
}

/// Whether a notification cancels a session's turns.
pub fn is_cancel(method: &str) -> (r: bool)
    ensures
        r == (method@ == "session/cancel"@),
{
    text::same(method, "session/cancel")
}

/// Whether a request is handled in a task of its own, so that the client's
/// other messages are served meanwhile.
pub fn runs_apart(request: Request) -> (r: bool)
    ensures
        r == (request is Prompt || request is SetModel),
{
    match request {
        Request::Prompt => true,
        Request::SetModel => true,
        _ => false,
    }
}

/// What follows from a request's outcome: whether it succeeded, and whether pi
/// ran a turn for it.
pub open spec fn concluded(request: Request, success: bool, turn: bool) -> Seq<Move> {
    if request is Unknown {
        Seq::empty()
    } else if !success {
        seq![Move::Refuse]
    } else if request is NewSession {
        seq![Move::Respond, Move::PublishUsage, Move::TellLater]
    } else if request is LoadSession {
        seq![Move::Respond, Move::TellLater]
    } else if request is Prompt && turn {
        seq![Move::Respond, Move::Persist]
    } else {
        seq![Move::Respond]
    }
}

/// What follows from a request's outcome.
pub fn conclude(request: Request, success: bool, turn: bool) -> (r: Vec<Move>)
    ensures
        r@ == concluded(request, success, turn),
{
    let mut moves: Vec<Move> = Vec::new();
    if matches!(request, Request::Unknown) {
        return moves;
    }
    if !success {
        moves.push(Move::Refuse);
        return moves;
    }
    moves.push(Move::Respond);
    match request {
        Request::NewSession => {
            moves.push(Move::PublishUsage);
            moves.push(Move::TellLater);
        },
        Request::LoadSession => {
            moves.push(Move::TellLater);
        },
        Request::Prompt => {
            if turn {
                moves.push(Move::Persist);
            }
        },
        _ => {},
    }
    moves
}

/// What follows from the outcome of a request of the draft version.
pub open spec fn concluded_v2(route: Route, success: bool, turn: bool) -> Seq<Move> {
    if route is Pass {
        Seq::empty()
    } else if !success || route is Refuse {
        seq![Move::Refuse]
    } else if route is NewSession {
        seq![Move::PublishUsage, Move::Respond, Move::TellLater]
    } else if route is Resume {
        seq![Move::TellNow, Move::Respond]
    } else if route is Prompt && turn {
        seq![Move::Respond, Move::Persist]
    } else {
        seq![Move::Respond]
    }
}

/// What follows from the outcome of a request of the draft version.
pub fn conclude_v2(route: Route, success: bool, turn: bool) -> (r: Vec<Move>)
    ensures
        r@ == concluded_v2(route, success, turn),
{
    let mut moves: Vec<Move> = Vec::new();
    if matches!(route, Route::Pass) {
        return moves;
    }
    if !success || matches!(route, Route::Refuse) {
        moves.push(Move::Refuse);
        return moves;
    }
    match route {
        Route::NewSession => {
            moves.push(Move::PublishUsage);
            moves.push(Move::Respond);
            moves.push(Move::TellLater);
        },
        Route::Resume => {
            moves.push(Move::TellNow);
            moves.push(Move::Respond);
        },
        Route::Prompt => {
            moves.push(Move::Respond);
            if turn {
                moves.push(Move::Persist);
            }
        },
        _ => moves.push(Move::Respond),
    }
    moves
}

/// Whether a move answers the request.
pub open spec fn answers(m: Move) -> bool {
    m is Respond || m is Refuse
}

/// A request that this agent knows is answered, and only once.
pub proof fn every_request_is_answered_once(request: Request, success: bool, turn: bool)
    requires
        request !is Unknown,
    ensures
        ({
            let moves = concluded(request, success, turn);
            exists|i: int|
                0 <= i < moves.len() && answers(#[trigger] moves[i]) && forall|j: int|
                    0 <= j < moves.len() && answers(#[trigger] moves[j]) ==> j == i
        }),
{
    let moves = concluded(request, success, turn);
    assert(answers(moves[0]));
}

/// A request that fails is refused, and nothing else follows.
pub proof fn a_failed_request_is_only_refused(request: Request, turn: bool)
    requires
        request !is Unknown,
    ensures
        concluded(request, false, turn) == seq![Move::Refuse],
{
}

/// What a session holds is told after the response that names it: a client
/// ignores what it is told of a session that it does not know yet.
pub proof fn a_session_is_told_after_it_is_named(
    request: Request,
    success: bool,
    turn: bool,
    i: int,
)
    requires
        0 <= i < concluded(request, success, turn).len(),
        ({
            let m = concluded(request, success, turn)[i];
            m is PublishUsage || m is TellNow || m is TellLater
        }),
    ensures
        exists|j: int| 0 <= j < i && #[trigger] concluded(request, success, turn)[j] is Respond,
{
    assert(concluded(request, success, turn)[0] is Respond);
}

/// A request of the draft version that this agent knows is answered, and only
/// once.
pub proof fn every_draft_request_is_answered_once(route: Route, success: bool, turn: bool)
    requires
        route !is Pass,
    ensures
        ({
            let moves = concluded_v2(route, success, turn);
            exists|i: int|
                0 <= i < moves.len() && answers(#[trigger] moves[i]) && forall|j: int|
                    0 <= j < moves.len() && answers(#[trigger] moves[j]) ==> j == i
        }),
{
    let moves = concluded_v2(route, success, turn);
    if success && (route is NewSession || route is Resume) {
        assert(answers(moves[1]));
    } else {
        assert(answers(moves[0]));
    }
}

/// Requests are told apart by their methods.
pub proof fn requests_are_told_apart()
    ensures
        request_named("initialize"@) is Initialize,
        request_named("authenticate"@) is Authenticate,
        request_named("session/new"@) is NewSession,
        request_named("session/load"@) is LoadSession,
        request_named("session/prompt"@) is Prompt,
        request_named("session/list"@) is List,
        request_named("session/delete"@) is Delete,
        request_named("session/set_mode"@) is SetMode,
        request_named("session/set_config_option"@) is SetConfigOption,
        request_named("session/set_model"@) is SetModel,
{
    reveal_strlit("initialize");
    reveal_strlit("authenticate");
    reveal_strlit("session/new");
    reveal_strlit("session/load");
    reveal_strlit("session/prompt");
    reveal_strlit("session/list");
    reveal_strlit("session/delete");
    reveal_strlit("session/set_mode");
    reveal_strlit("session/set_config_option");
    reveal_strlit("session/set_model");
    assert("initialize"@.len() == 10 && "authenticate"@.len() == 12 && "session/new"@.len() == 11);
    assert("session/load"@.len() == 12 && "session/prompt"@.len() == 14 && "session/list"@.len() == 12);
    assert("session/delete"@.len() == 14 && "session/set_mode"@.len() == 16 && "session/set_config_option"@.len() == 25);
    assert("session/set_model"@.len() == 17);
    assert("authenticate"@[0] != "session/load"@[0]);
    assert("authenticate"@[0] != "session/list"@[0]);
    assert("session/load"@[9] != "session/list"@[9]);
    assert("session/prompt"@[8] != "session/delete"@[8]);
}

/// A new session is answered before its usage and its commands are told; a
/// loaded one before its conversation is; a turn that ended is kept once its
/// prompt was answered.
pub proof fn what_follows_an_answer(turn: bool)
    ensures
        concluded(Request::NewSession, true, turn) == seq![
            Move::Respond,
            Move::PublishUsage,
            Move::TellLater,
        ],
        concluded(Request::LoadSession, true, turn) == seq![Move::Respond, Move::TellLater],
        concluded(Request::Prompt, true, true) == seq![Move::Respond, Move::Persist],
        concluded(Request::Prompt, true, false) == seq![Move::Respond],
        concluded(Request::List, true, turn) == seq![Move::Respond],
        concluded(Request::Delete, true, turn) == seq![Move::Respond],
        concluded(Request::SetMode, true, turn) == seq![Move::Respond],
{
}

} // verus!
