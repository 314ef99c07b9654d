//! `session/new` and `session/load`, step by step.
//!
//! Each step is a value that only the step before it gives, together with what
//! pi and the disk answered in between. A session can therefore be answered,
//! and the others be closed for it, only after everything that has to be known
//! of it is known.

use crate::agent::builtin;
use crate::agent::configure;
use crate::agent::configure::Configuration;
use crate::agent::lifecycle;
use crate::agent::lifecycle::{Located, VersionCheck};
use crate::agent::replay;
use crate::agent::requests;
use crate::auth;
use crate::error;
use crate::error::{AcpError, AcpxError, ACP_INTERNAL_ERROR, ACP_INVALID_PARAMS};
use crate::json;
use crate::json::{Json, JsonView};
use crate::path;
use crate::pi::rpc::{Model, RpcSessionState, ThinkingLevel};
use crate::session::facts;
use crate::session::facts::{ConfigOptionView, OutboundMessage};
use crate::session_store;
use crate::session_store::StoredSession;
use crate::text;
use vstd::prelude::*;
use vstd::string::*;

verus! {

// ---------------------------------------------------------------------------
// session/new
// ---------------------------------------------------------------------------

/// A new session for which pi is to be started.
#[derive(Debug)]
pub struct Starting {
    cwd: String,
    windows: bool,
    quiet: bool,
    update: bool,
}

/// The model of a [`Starting`]: the directory, whether paths are those of
/// Windows, whether the start is quiet, and whether an update is looked for
/// meanwhile.
pub struct StartingView {
    pub cwd: Seq<char>,
    pub windows: bool,
    pub quiet: bool,
    pub update: bool,
}

impl View for Starting {
    type V = StartingView;

    closed spec fn view(&self) -> StartingView {
        StartingView {
            cwd: self.cwd@,
            windows: self.windows,
            quiet: self.quiet,
            update: self.update,
        }
    }
}

/// A new session whose pi runs and is asked for its models.
#[derive(Debug)]
pub struct Listing {
    start: Starting,
    state: RpcSessionState,
}

/// The model of a [`Listing`].
pub struct ListingView {
    pub start: StartingView,
    pub state: RpcSessionState,
}

impl View for Listing {
    type V = ListingView;

    closed spec fn view(&self) -> ListingView {
        ListingView { start: self.start@, state: self.state }
    }
}

/// A session that is refused: it is closed, its file is removed and the map
/// forgets it.
#[derive(Debug)]
pub struct Discard {
    /// The session.
    pub session_id: String,
    /// The file to remove.
    pub remove: Option<String>,
    /// What the client is told.
    pub error: AcpError,
}

/// A new session that has models, whose pi is asked for its thinking levels.
#[derive(Debug)]
pub struct Levelling {
    start: Starting,
    state: RpcSessionState,
    models: Vec<Model>,
}

/// The model of a [`Levelling`].
pub struct LevellingView {
    pub start: StartingView,
    pub state: RpcSessionState,
    pub models: Seq<Model>,
}

impl View for Levelling {
    type V = LevellingView;

    closed spec fn view(&self) -> LevellingView {
        LevellingView { start: self.start@, state: self.state, models: self.models@ }
    }
}

/// What a session offers, in the model.
pub struct Offer {
    pub current: Seq<char>,
    pub levels: Seq<ThinkingLevel>,
    pub options: Seq<ConfigOptionView>,
}

/// The model of a configuration.
pub open spec fn offer(c: Configuration) -> Offer {
    Offer {
        current: c.modes.current_mode_id@,
        levels: c.modes.levels@,
        options: facts::option_views(c.options@),
    }
}

/// A session's file to look at before the map takes it up.
#[derive(Debug)]
pub struct FileCheck {
    /// The file as pi names it.
    pub session_file: String,
    /// Where it is.
    pub path: String,
}

/// The model of a file to look at.
pub open spec fn opt_check(o: Option<FileCheck>) -> Option<(Seq<char>, Seq<char>)> {
    match o {
        Some(c) => Some((c.session_file@, c.path@)),
        None => None,
    }
}

/// A new session that can be configured, whose file is looked at.
#[derive(Debug)]
pub struct Checking {
    start: Starting,
    session_id: String,
    configuration: Configuration,
    check: Option<FileCheck>,
}

/// The model of a [`Checking`].
pub struct CheckingView {
    pub start: StartingView,
    pub session_id: Seq<char>,
    pub offer: Offer,
    pub check: Option<(Seq<char>, Seq<char>)>,
}

impl View for Checking {
    type V = CheckingView;

    closed spec fn view(&self) -> CheckingView {
        CheckingView {
            start: self.start@,
            session_id: self.session_id@,
            offer: offer(self.configuration),
            check: opt_check(self.check),
        }
    }
}

/// A new session of which only the greeting is missing.
#[derive(Debug)]
pub struct Greeting {
    start: Starting,
    session_id: String,
    configuration: Configuration,
    record: Option<String>,
}

/// The model of a [`Greeting`].
pub struct GreetingView {
    pub start: StartingView,
    pub session_id: Seq<char>,
    pub offer: Offer,
    pub record: Option<Seq<char>>,
}

impl View for Greeting {
    type V = GreetingView;

    closed spec fn view(&self) -> GreetingView {
        GreetingView {
            start: self.start@,
            session_id: self.session_id@,
            offer: offer(self.configuration),
            record: text::opt_text(self.record),
        }
    }
}

/// A new session that is open: the map takes up its file, every other session
/// is closed, the request is answered, and what it says first is said.
#[derive(Debug)]
pub struct Opened {
    /// The session.
    pub session_id: String,
    /// Its directory.
    pub cwd: String,
    /// The file that the map takes up, when pi has written it.
    pub record: Option<String>,
    /// The answer.
    pub response: Json,
    /// What is said first, after the answer.
    pub prelude: Option<OutboundMessage>,
}

/// The answer to `session/new`.
pub open spec fn opened_json(session_id: Seq<char>, o: Offer, prelude: Seq<char>) -> JsonView {
    JsonView::Object(
        json::put(
            requests::offers(
                json::put(Seq::empty(), "sessionId"@, JsonView::Str(session_id)),
                o.current,
                o.levels,
                o.options,
            ),
            "_meta"@,
            JsonView::Object(requests::startup_meta(prelude)),
        ),
    )
}

/// The text that a session starts with.
pub open spec fn prelude_of(
    quiet: bool,
    greeting: Seq<char>,
    notice: Option<Seq<char>>,
) -> Seq<char> {
    if quiet {
        lifecycle::quiet_prelude(notice)
    } else {
        greeting
    }
}

/// The file that is removed with a refused session.
pub open spec fn removed_file(state: RpcSessionState, stored: Option<StoredSession>) -> Option<
    Seq<char>,
> {
    match lifecycle::filled(text::opt_text(state.session_file)) {
        Some(f) => Some(f),
        None => match session_store::opt_stored(stored) {
            Some(s) => Some(s.session_file),
            None => None,
        },
    }
}

/// What a session offers, given its state, its models and pi's answer to the
/// request for its levels.
pub open spec fn offered_by(
    state: RpcSessionState,
    models: Seq<Model>,
    listed: Option<JsonView>,
) -> Offer {
    let levels = match configure::listed_levels(listed) {
        Some(l) => l,
        None => configure::levels_of(
            match state.model {
                Some(m) => Some(m@),
                None => None,
            },
        ),
    };
    Offer {
        current: configure::current_level(Some(state)),
        levels,
        options: configure::config(
            configure::model_state(
                configure::model_views(models),
                configure::current_model(Some(state)),
            ),
            configure::current_level(Some(state)),
            levels,
        ),
    }
}

/// Begin a new session. Its directory has to be absolute; an update is looked
/// for when that is enabled and was not done before.
pub fn begin_new_session(
    cwd: &str,
    version: &VersionCheck,
    enabled: bool,
    quiet: bool,
    windows: bool,
) -> (r: Result<Starting, AcpError>)
    ensures
        match r {
            Ok(s) => path::absolute(cwd@, windows) && s@ == (StartingView {
                cwd: cwd@,
                windows,
                quiet,
                update: enabled && version@ is None,
            }),
            Err(e) => !path::absolute(cwd@, windows) && e.holds(
                ACP_INVALID_PARAMS,
                "cwd must be an absolute path: "@ + cwd@,
                None,
            ),
        },
{
    match lifecycle::check_cwd(cwd, windows) {
        Ok(()) => Ok(
            Starting { cwd: cwd.to_owned(), windows, quiet, update: version.is_due(enabled) },
        ),
        Err(e) => Err(e),
    }
}

impl Starting {
    /// The directory that pi is started in.
    pub fn cwd(&self) -> (r: &str)
        ensures
            r@ == self@.cwd,
    {
        self.cwd.as_str()
    }

    /// Whether an update is looked for meanwhile.
    pub fn looks_for_update(&self) -> (r: bool)
        ensures
            r == self@.update,
    {
        self.update
    }

    /// Whether pi is asked for its version meanwhile: the greeting shows it.
    pub fn asks_version(&self) -> (r: bool)
        ensures
            r == !self@.quiet,
    {
        !self.quiet
    }

    /// pi was started and told its state, or failed.
    pub fn started(self, outcome: Result<RpcSessionState, AcpxError>, argv: &Vec<String>) -> (r:
        Result<Listing, AcpError>)
        ensures
            match r {
                Ok(l) => outcome matches Ok(state) && l@ == (ListingView { start: self@, state }),
                Err(e) => outcome matches Err(f) && e.reports(f@, text::texts(argv@)),
            },
    {
        match outcome {
            Ok(state) => Ok(Listing { start: self, state }),
            Err(f) => Err(error::acp_error(&f, argv)),
        }
    }
}

impl Listing {
    /// pi listed its models, or failed. A session without models is refused.
    pub fn listed(
        self,
        models: Result<Vec<Model>, AcpxError>,
        stored: &Option<StoredSession>,
        argv: &Vec<String>,
    ) -> (r: Result<Levelling, Discard>)
        ensures
            match r {
                Ok(l) => models matches Ok(found) && found@.len() > 0 && l@ == (LevellingView {
                    start: self@.start,
                    state: self@.state,
                    models: found@,
                }),
                Err(d) => {
                    &&& d.session_id@ == self@.state.session_id@
                    &&& text::opt_text(d.remove) == removed_file(self@.state, *stored)
                    &&& match models {
                        Ok(found) => found@.len() == 0 && d.error.demands_auth(
                            text::texts(argv@),
                        ),
                        Err(f) => if auth::names_credentials(text::lowercased(f@.message())) {
                            d.error.demands_auth(text::texts(argv@))
                        } else {
                            d.error.holds(ACP_INTERNAL_ERROR, f@.message(), None)
                        },
                    }
                },
            },
    {
        match models {
            Ok(found) => if found.len() > 0 {
                Ok(Levelling { start: self.start, state: self.state, models: found })
            } else {
                Err(self.discard(error::auth_required(argv), stored))
            },
            Err(f) => {
                let error = lifecycle::models_error(&f, argv);
                Err(self.discard(error, stored))
            },
        }
    }

    /// The client's MCP servers were not registered: the session is refused.
    pub fn unwired(self, message: &str, stored: &Option<StoredSession>) -> (r: Discard)
        ensures
            r.session_id@ == self@.state.session_id@,
            text::opt_text(r.remove) == removed_file(self@.state, *stored),
            r.error.holds(ACP_INTERNAL_ERROR, message@, None),
    {
        let error = AcpError { code: ACP_INTERNAL_ERROR, message: message.to_owned(), data: None };
        self.discard(error, stored)
    }

    fn discard(self, error: AcpError, stored: &Option<StoredSession>) -> (r: Discard)
        ensures
            r.session_id@ == self@.state.session_id@,
            text::opt_text(r.remove) == removed_file(self@.state, *stored),
            r.error == error,
    {
        let remove = lifecycle::failed_session_file(&self.state.session_file, stored);
        Discard { session_id: self.state.session_id, remove, error }
    }
}

impl Levelling {
    /// pi listed its thinking levels, or not.
    pub fn levelled(self, listed: Option<&Json>) -> (r: Checking)
        ensures
            r@ == (CheckingView {
                start: self@.start,
                session_id: self@.state.session_id@,
                offer: offered_by(self@.state, self@.models, json::opt_ref(listed)),
                check: match lifecycle::filled(text::opt_text(self@.state.session_file)) {
                    Some(f) => Some((f, path::resolved(self@.start.cwd, f, self@.start.windows))),
                    None => None,
                },
            }),
    {
        let levels = configure::available_thinking_levels(listed, Some(&self.state));
        let session_id = self.state.session_id.clone();
        let file = lifecycle::file_to_record(&self.state, session_id.as_str());
        let check = match file {
            Some(f) => {
                let path = lifecycle::resolve_session_file_path(
                    self.start.cwd.as_str(),
                    f.as_str(),
                    self.start.windows,
                );
                Some(FileCheck { session_file: f, path })
            },
            None => None,
        };
        let state = Some(self.state);
        let configuration = configure::get_session_configuration(&self.models, &state, levels);
        Checking { start: self.start, session_id, configuration, check }
    }
}

impl Checking {
    /// The file to look at, if any.
    pub fn path(&self) -> (r: Option<&str>)
        ensures
            text::opt_str(r) == (match self@.check {
                Some(c) => Some(c.1),
                None => None,
            }),
    {
        match &self.check {
            Some(c) => Some(c.path.as_str()),
            None => None,
        }
    }

    /// The head of the file was read, when there is one. Only a file whose
    /// header names the session is taken up: pi writes it with its first
    /// answer.
    pub fn checked(self, head: Option<&str>) -> (r: Greeting)
        ensures
            r@ == (GreetingView {
                start: self@.start,
                session_id: self@.session_id,
                offer: self@.offer,
                record: match (self@.check, lifecycle::head_header(text::opt_str(head))) {
                    (Some(c), Some(h)) => if h.0 == self@.session_id {
                        Some(c.0)
                    } else {
                        None
                    },
                    _ => None,
                },
            }),
    {
        let own = lifecycle::session_file_matches_id(head, self.session_id.as_str());
        let record = match self.check {
            Some(c) => if own {
                Some(c.session_file)
            } else {
                None
            },
            None => None,
        };
        Greeting {
            start: self.start,
            session_id: self.session_id,
            configuration: self.configuration,
            record,
        }
    }
}

impl Greeting {
    /// Everything is known: the greeting, which a quiet start leaves out, and
    /// the notice of an update.
    pub fn greeted(self, greeting: String, notice: Option<&str>) -> (r: Opened)
        ensures
            ({
                let prelude = prelude_of(self@.start.quiet, greeting@, text::opt_str(notice));
                &&& r.session_id@ == self@.session_id
                &&& r.cwd@ == self@.start.cwd
                &&& text::opt_text(r.record) == self@.record
                &&& r.response@ == opened_json(self@.session_id, self@.offer, prelude)
                &&& match r.prelude {
                    Some(m) => prelude.len() > 0 && m@ == builtin::said(
                        self@.session_id,
                        prelude,
                    ),
                    None => prelude.len() == 0,
                }
            }),
    {
        let prelude = lifecycle::build_startup_prelude(self.start.quiet, greeting, notice);
        let response = requests::new_session_response(
            self.session_id.as_str(),
            &self.configuration,
            prelude.as_str(),
        );
        let first = if prelude.as_str().unicode_len() == 0 {
            None
        } else {
            Some(builtin::text_chunk(self.session_id.as_str(), prelude))
        };
        Opened {
            session_id: self.session_id,
            cwd: self.start.cwd,
            record: self.record,
            response,
            prelude: first,
        }
    }
}

// ---------------------------------------------------------------------------
// session/load
// ---------------------------------------------------------------------------

/// A session that is to be loaded: every open session is closed, and it is
/// looked for.
#[derive(Debug)]
pub struct Loading {
    session_id: String,
    cwd: String,
}

/// The model of a [`Loading`].
pub struct LoadingView {
    pub session_id: Seq<char>,
    pub cwd: Seq<char>,
}

impl View for Loading {
    type V = LoadingView;

    closed spec fn view(&self) -> LoadingView {
        LoadingView { session_id: self.session_id@, cwd: self.cwd@ }
    }
}

/// A session that was found and for which pi is to be started.
#[derive(Debug)]
pub struct Restoring {
    load: Loading,
    stored_cwd: String,
    session_file: String,
}

/// The model of a [`Restoring`].
pub struct RestoringView {
    pub load: LoadingView,
    pub stored_cwd: Seq<char>,
    pub session_file: Seq<char>,
}

impl View for Restoring {
    type V = RestoringView;

    closed spec fn view(&self) -> RestoringView {
        RestoringView {
            load: self.load@,
            stored_cwd: self.stored_cwd@,
            session_file: self.session_file@,
        }
    }
}

/// A session whose pi runs again and is asked for the conversation. The map
/// keeps it with its own directory.
#[derive(Debug)]
pub struct Retelling {
    restored: Restoring,
}

impl View for Retelling {
    type V = RestoringView;

    closed spec fn view(&self) -> RestoringView {
        self.restored@
    }
}

/// A session that is loaded: the request is answered, and the conversation is
/// told.
#[derive(Debug)]
pub struct Loaded {
    /// The answer.
    pub response: Json,
    /// What is told after it.
    pub messages: Vec<OutboundMessage>,
}

/// Begin to load a session. Its directory has to be absolute.
pub fn begin_load_session(session_id: &str, cwd: &str, windows: bool) -> (r: Result<Loading, AcpError>)
    ensures
        match r {
            Ok(l) => path::absolute(cwd@, windows) && l@ == (LoadingView {
                session_id: session_id@,
                cwd: cwd@,
            }),
            Err(e) => !path::absolute(cwd@, windows) && e.holds(
                ACP_INVALID_PARAMS,
                "cwd must be an absolute path: "@ + cwd@,
                None,
            ),
        },
{
    match lifecycle::check_cwd(cwd, windows) {
        Ok(()) => Ok(Loading { session_id: session_id.to_owned(), cwd: cwd.to_owned() }),
        Err(e) => Err(e),
    }
}

impl Loading {
    /// The session was looked for. One that nobody knows is refused.
    pub fn located(self, place: Option<Located>) -> (r: Result<Restoring, AcpError>)
        ensures
            match r {
                Ok(x) => place is Some && x@ == (RestoringView {
                    load: self@,
                    stored_cwd: place->0.cwd@,
                    session_file: place->0.session_file@,
                }),
                Err(e) => place is None && e.holds(
                    ACP_INVALID_PARAMS,
                    "Unknown sessionId: "@ + self@.session_id,
                    None,
                ),
            },
    {
        match place {
            Some(l) => Ok(
                Restoring { load: self, stored_cwd: l.cwd, session_file: l.session_file },
            ),
            None => {
                let message = text::cat2("Unknown sessionId: ", self.session_id.as_str());
                Err(error::invalid_params(message.as_str()))
            },
        }
    }
}

impl Restoring {
    /// The directory that pi is started in: the one that was asked for.
    pub fn cwd(&self) -> (r: &str)
        ensures
            r@ == self@.load.cwd,
    {
        self.load.cwd.as_str()
    }

    /// The file that pi continues.
    pub fn session_file(&self) -> (r: &str)
        ensures
            r@ == self@.session_file,
    {
        self.session_file.as_str()
    }

    /// pi was started, or failed.
    pub fn restored(self, failure: Option<AcpxError>, argv: &Vec<String>) -> (r: Result<
        Retelling,
        AcpError,
    >)
        ensures
            match r {
                Ok(x) => failure is None && x@ == self@,
                Err(e) => failure is Some && e.reports(failure->0@, text::texts(argv@)),
            },
    {
        match failure {
            None => Ok(Retelling { restored: self }),
            Some(f) => Err(error::acp_error(&f, argv)),
        }
    }
}

impl Retelling {
    /// The directory that the map keeps the session with: its own.
    pub fn stored_cwd(&self) -> (r: &str)
        ensures
            r@ == self@.stored_cwd,
    {
        self.restored.stored_cwd.as_str()
    }

    /// The session's file.
    pub fn session_file(&self) -> (r: &str)
        ensures
            r@ == self@.session_file,
    {
        self.restored.session_file.as_str()
    }

    /// pi told the conversation, or failed; `title` is the session's.
    pub fn retold(
        self,
        history: Result<Json, AcpxError>,
        title: Option<&str>,
        c: &Configuration,
        now: &str,
        argv: &Vec<String>,
    ) -> (r: Result<Loaded, AcpError>)
        ensures
            match r {
                Ok(l) => {
                    &&& history is Ok
                    &&& l.response@ == JsonView::Object(
                        requests::offers(
                            Seq::empty(),
                            offer(*c).current,
                            offer(*c).levels,
                            offer(*c).options,
                        ),
                    )
                    &&& builtin::message_views(l.messages@) == (match title {
                        Some(t) => seq![
                            requests::title_message(self@.load.session_id, t@, now@),
                        ],
                        None => Seq::empty(),
                    }) + replay::conversation(
                        self@.load.session_id,
                        self@.load.cwd,
                        replay::messages_in(history->Ok_0@),
                    )
                },
                Err(e) => {
                    &&& history is Err
                    &&& error::is_auth_failure(history->Err_0@) ==> e.demands_auth(
                        text::texts(argv@),
                    )
                    &&& !error::is_auth_failure(history->Err_0@) ==> e.reports(
                        history->Err_0@,
                        text::texts(argv@),
                    )
                },
            },
    {
        match history {
            Ok(data) => {
                let messages = requests::load_messages(
                    self.restored.load.session_id.as_str(),
                    self.restored.load.cwd.as_str(),
                    title,
                    &data,
                    now,
                );
                Ok(Loaded { response: requests::load_session_response(c), messages })
            },
            Err(f) => Err(error::acp_error_from_pi(&f, argv)),
        }
    }
}

// ---------------------------------------------------------------------------
// Laws
// ---------------------------------------------------------------------------

/// What is said of a new session names it, offers its level and its options,
/// and carries the greeting.
pub proof fn a_new_session_is_described(session_id: Seq<char>, o: Offer, prelude: Seq<char>)
    ensures
        ({
            let r = opened_json(session_id, o, prelude);
            &&& json::member(r, "sessionId"@) == Some(JsonView::Str(session_id))
            &&& json::member(r, "modes"@) == Some(configure::modes_json(o.current, o.levels))
            &&& json::member(r, "configOptions"@) == Some(
                crate::render::option_list(o.options, false),
            )
            &&& prelude.len() > 0 ==> (json::member(r, "_meta"@) matches Some(m) && json::member(
                m,
                "piAcp"@,
            ) matches Some(own) && json::member(own, "startupInfo"@) == Some(
                JsonView::Str(prelude),
            ))
        }),
{
    broadcast use json::entry_of_put;

    reveal_strlit("sessionId");
    reveal_strlit("modes");
    reveal_strlit("configOptions");
    reveal_strlit("_meta");
    reveal_strlit("piAcp");
    reveal_strlit("startupInfo");
    assert("sessionId"@.len() == 9 && "modes"@.len() == 5 && "configOptions"@.len() == 13);
    assert("_meta"@.len() == 5 && "piAcp"@.len() == 5 && "startupInfo"@.len() == 11);
    assert("modes"@[0] != "_meta"@[0]);
    assert("modes"@[0] != "piAcp"@[0]);
    assert("_meta"@[0] != "piAcp"@[0]);
}

/// A session starts with the greeting, and a quiet one with no more than the
/// news of an update.
pub proof fn a_session_starts_with_its_greeting(greeting: Seq<char>, notice: Option<Seq<char>>)
    ensures
        prelude_of(false, greeting, notice) == greeting,
        notice is None ==> prelude_of(true, greeting, notice).len() == 0,
        notice matches Some(n) ==> prelude_of(true, greeting, notice) == n + "\n"@,
{
}

/// Of a session that is given up, the file that pi names is removed, else the
/// one that was stored.
pub proof fn a_given_up_session_loses_its_file(
    state: RpcSessionState,
    stored: Option<StoredSession>,
)
    ensures
        state.session_file matches Some(f) ==> text::trimmed(f@).len() > 0 ==> removed_file(
            state,
            stored,
        ) == Some(f@),
        state.session_file is None ==> (stored matches Some(s) ==> removed_file(state, stored)
            == Some(s.session_file@)),
        state.session_file is None && stored is None ==> removed_file(state, stored) is None,
{
}

/// A session is offered with the level that pi has, the levels that pi lists,
/// or else those that its model has, and every model of pi.
pub proof fn a_session_is_offered_as_pi_has_it(
    state: RpcSessionState,
    models: Seq<Model>,
    listed: Option<JsonView>,
)
    ensures
        ({
            let o = offered_by(state, models, listed);
            &&& o.current == crate::pi::rpc::level_id(state.thinking_level)
            &&& configure::listed_levels(listed) matches Some(l) ==> o.levels == l
            &&& configure::listed_levels(listed) is None ==> (state.model matches Some(m)
                ==> o.levels == configure::levels_of(Some(m@)))
            &&& o.options.len() > 0
            &&& o.options.last().id == "thought_level"@
            &&& o.options.last().current_value == o.current
            &&& configure::offered(configure::model_views(models)).len() > 0 ==> o.options.len()
                == 2 && o.options[0].id == "model"@ && o.options[0].choices.len()
                == configure::offered(configure::model_views(models)).len()
        }),
{
}

} // verus!
