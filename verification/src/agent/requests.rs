//! The answers to a client's requests, and what their parameters have to be.

use crate::agent::configure;
use crate::agent::configure::Configuration;
use crate::agent::replay;
use crate::agent::builtin;
use crate::auth;
use crate::commands;
use crate::commands::{
    AvailableCommand, AvailableCommandInput, CommandView, FileCommandView, FileSlashCommand,
};
use crate::error;
use crate::error::{AcpError, ACP_INVALID_PARAMS};
use crate::json;
use crate::json::{Json, JsonMap, JsonView, NumberView};
use crate::pi::rpc;
use crate::pi::rpc::ThinkingLevel;
use crate::render;
use crate::session::facts;
use crate::session::facts::{
    AvailableCommandFact, AvailableCommandView, AvailableCommandsFact, ConfigOptionFact,
    ConfigOptionView, ConfigOptionsFact, ModeFact, OutboundMessage, OutboundView, SessionInfoFact,
    SessionInfoView,
};
use crate::text;
use vstd::prelude::*;
use vstd::string::*;

verus! {

// ---------------------------------------------------------------------------
// initialize
// ---------------------------------------------------------------------------

/// Whether a client opens terminals for authentication: its capabilities say
/// so.
pub open spec fn opens_terminals(params: JsonView) -> bool {
    match json::member(params, "clientCapabilities"@) {
        Some(c) => match json::member(c, "_meta"@) {
            Some(m) => json::bool_member(m, "terminal-auth"@) == Some(true),
            None => false,
        },
        None => false,
    }
}

/// What the agent can do.
pub open spec fn capabilities(embedded_context: bool, http: bool, sse: bool) -> JsonView {
    let prompt = json::put(
        json::put(
            json::put(Seq::empty(), "image"@, JsonView::Bool(true)),
            "audio"@,
            JsonView::Bool(false),
        ),
        "embeddedContext"@,
        JsonView::Bool(embedded_context),
    );
    let mcp = json::put(
        json::put(Seq::empty(), "http"@, JsonView::Bool(http)),
        "sse"@,
        JsonView::Bool(sse),
    );
    let sessions = json::put(
        json::put(Seq::empty(), "list"@, JsonView::Object(Seq::empty())),
        "delete"@,
        JsonView::Object(Seq::empty()),
    );
    JsonView::Object(
        json::put(
            json::put(
                json::put(
                    json::put(
                        json::put(Seq::empty(), "loadSession"@, JsonView::Bool(true)),
                        "promptCapabilities"@,
                        JsonView::Object(prompt),
                    ),
                    "mcpCapabilities"@,
                    JsonView::Object(mcp),
                ),
                "sessionCapabilities"@,
                JsonView::Object(sessions),
            ),
            "auth"@,
            JsonView::Object(Seq::empty()),
        ),
    )
}

/// The name of the agent.
pub open spec fn implementation(version: Seq<char>) -> JsonView {
    JsonView::Object(
        json::put(
            json::put(
                json::put(Seq::empty(), "name"@, JsonView::Str("pi-acp"@)),
                "title"@,
                JsonView::Str("pi ACP adapter"@),
            ),
            "version"@,
            JsonView::Str(version),
        ),
    )
}

/// The answer to `initialize` with the given authentication methods.
pub open spec fn initialized(
    capabilities: JsonView,
    methods: Seq<JsonView>,
    version: Seq<char>,
) -> JsonView {
    JsonView::Object(
        json::put(
            json::put(
                json::put(
                    json::put(
                        Seq::empty(),
                        "protocolVersion"@,
                        JsonView::Number(NumberView::Int(1)),
                    ),
                    "agentCapabilities"@,
                    capabilities,
                ),
                "authMethods"@,
                JsonView::Array(methods),
            ),
            "agentInfo"@,
            implementation(version),
        ),
    )
}

/// The login method as the client is told it.
pub open spec fn login_method(terminals: bool, argv: Seq<Seq<char>>) -> JsonView {
    let base = json::put(
        json::put(
            json::put(
                json::put(
                    json::put(Seq::empty(), "type"@, JsonView::Str("terminal"@)),
                    "id"@,
                    JsonView::Str(auth::PI_SETUP_METHOD_ID@),
                ),
                "name"@,
                JsonView::Str("Launch pi in the terminal"@),
            ),
            "description"@,
            JsonView::Str("Start pi in an interactive terminal to configure API keys or login"@),
        ),
        "args"@,
        JsonView::Array(seq![JsonView::Str("--terminal-login"@)]),
    );
    if terminals {
        let spec = auth::launch_spec(argv);
        JsonView::Object(
            json::put(base, "_meta"@, JsonView::Object(auth::launch_meta(spec.0, spec.1))),
        )
    } else {
        JsonView::Object(base)
    }
}

/// The answer to `initialize`, given its parameters, the configuration and
/// this process's command line.
pub fn handle_initialize(
    params: &Json,
    embedded_context: bool,
    mcp: (bool, bool),
    version: &str,
    argv: &Vec<String>,
) -> (r: Json)
    ensures
        r@ == initialized(
            capabilities(embedded_context, mcp.0, mcp.1),
            seq![login_method(opens_terminals(params@), text::texts(argv@))],
            version@,
        ),
{
    broadcast use crate::json::json_view;

    let terminals = match params.get("clientCapabilities") {
        Some(c) => match c.get("_meta") {
            Some(m) => match m.get_bool("terminal-auth") {
                Some(b) => b,
                None => false,
            },
            None => false,
        },
        None => false,
    };
    let methods = auth::get_auth_methods(terminals, argv);
    let method = methods[0].to_json();
    proof {
        let m = methods@[0];
        assert(text::texts(m.args@).map_values(|a: Seq<char>| JsonView::Str(a)) =~= seq![
            JsonView::Str("--terminal-login"@),
        ]);
        assert(method@ == login_method(terminals, text::texts(argv@)));
    }
    let mut list: Vec<Json> = Vec::new();
    list.push(method);
    assert(json::items_view(list@) =~= seq![method@]);
    let prompt = JsonMap::new().with("image", Json::Bool(true)).with(
        "audio",
        Json::Bool(false),
    ).with("embeddedContext", Json::Bool(embedded_context));
    let servers = JsonMap::new().with("http", Json::Bool(mcp.0)).with("sse", Json::Bool(mcp.1));
    let sessions = JsonMap::new().with("list", Json::Object(JsonMap::new())).with(
        "delete",
        Json::Object(JsonMap::new()),
    );
    let abilities = JsonMap::new().with("loadSession", Json::Bool(true)).with(
        "promptCapabilities",
        Json::Object(prompt),
    ).with("mcpCapabilities", Json::Object(servers)).with(
        "sessionCapabilities",
        Json::Object(sessions),
    ).with("auth", Json::Object(JsonMap::new()));
    let info = JsonMap::new().with("name", Json::text("pi-acp")).with(
        "title",
        Json::text("pi ACP adapter"),
    ).with("version", Json::text(version));
    Json::Object(
        JsonMap::new().with("protocolVersion", Json::unsigned(1)).with(
            "agentCapabilities",
            Json::Object(abilities),
        ).with("authMethods", Json::Array(list)).with("agentInfo", Json::Object(info)),
    )
}

// ---------------------------------------------------------------------------
// session/new and session/load
// ---------------------------------------------------------------------------

/// What the answer to `session/new` carries along: the text that the session
/// starts with, when there is one.
pub open spec fn startup_meta(prelude: Seq<char>) -> Seq<(Seq<char>, JsonView)> {
    if prelude.len() == 0 {
        Seq::empty()
    } else {
        json::put(
            Seq::empty(),
            "piAcp"@,
            JsonView::Object(
                json::put(Seq::empty(), "startupInfo"@, JsonView::Str(prelude)),
            ),
        )
    }
}

/// What a session offers, as members of an answer.
pub open spec fn offers(
    members: Seq<(Seq<char>, JsonView)>,
    current: Seq<char>,
    levels: Seq<ThinkingLevel>,
    options: Seq<ConfigOptionView>,
) -> Seq<(Seq<char>, JsonView)> {
    json::put(
        json::put(members, "modes"@, configure::modes_json(current, levels)),
        "configOptions"@,
        render::option_list(options, false),
    )
}

fn offer_map(members: JsonMap, c: &Configuration) -> (r: JsonMap)
    ensures
        r@ == offers(
            members@,
            c.modes.current_mode_id@,
            c.modes.levels@,
            facts::option_views(c.options@),
        ),
{
    members.with("modes", configure::mode_state_to_acp(&c.modes)).with(
        "configOptions",
        render::config_option_list(&c.options, false),
    )
}

/// The answer to `session/new`.
pub fn new_session_response(session_id: &str, c: &Configuration, prelude: &str) -> (r: Json)
    ensures
        r@ == JsonView::Object(
            json::put(
                offers(
                    json::put(Seq::empty(), "sessionId"@, JsonView::Str(session_id@)),
                    c.modes.current_mode_id@,
                    c.modes.levels@,
                    facts::option_views(c.options@),
                ),
                "_meta"@,
                JsonView::Object(startup_meta(prelude@)),
            ),
        ),
{
    broadcast use crate::json::json_view;

    let meta = if prelude.unicode_len() == 0 {
        JsonMap::new()
    } else {
        let ours = JsonMap::new().with("startupInfo", Json::text(prelude));
        JsonMap::new().with("piAcp", Json::Object(ours))
    };
    let opened = JsonMap::new().with("sessionId", Json::text(session_id));
    Json::Object(offer_map(opened, c).with("_meta", Json::Object(meta)))
}

/// The answer to `session/load`.
pub fn load_session_response(c: &Configuration) -> (r: Json)
    ensures
        r@ == JsonView::Object(
            offers(
                Seq::empty(),
                c.modes.current_mode_id@,
                c.modes.levels@,
                facts::option_views(c.options@),
            ),
        ),
{
    broadcast use crate::json::json_view;

    Json::Object(offer_map(JsonMap::new(), c))
}

/// The answer to `session/set_config_option`.
pub fn set_config_option_response(options: &Vec<ConfigOptionFact>) -> (r: Json)
    ensures
        r@ == JsonView::Object(
            json::put(
                Seq::empty(),
                "configOptions"@,
                render::option_list(facts::option_views(options@), false),
            ),
        ),
{
    broadcast use crate::json::json_view;

    Json::Object(
        JsonMap::new().with("configOptions", render::config_option_list(options, false)),
    )
}

/// A command as the session tells it.
pub open spec fn command_fact(c: CommandView) -> AvailableCommandView {
    AvailableCommandView {
        name: c.name,
        description: c.description,
        input_hint: c.hint,
        meta: None,
    }
}

/// The commands of prompt files as they are offered: the first of every name.
pub open spec fn prompt_commands(files: Seq<FileCommandView>) -> Seq<CommandView> {
    commands::unique(
        files.map_values(|c: FileCommandView| commands::bare(c.name, c.description)),
    )
}

/// The commands on offer: pi's own, or those of the prompt files when pi lists
/// none, and the agent's.
pub open spec fn offered_commands(
    data: Option<JsonView>,
    skills: bool,
    files: Seq<CommandView>,
) -> Seq<CommandView> {
    let own = match data {
        Some(d) => commands::pi_commands(commands::listed(d), skills, false),
        None => Seq::empty(),
    };
    commands::unique(
        (if own.len() == 0 {
            files
        } else {
            own
        }) + commands::builtins(),
    )
}

fn command_facts(cs: &Vec<AvailableCommand>) -> (r: Vec<AvailableCommandFact>)
    ensures
        facts::command_views(r@) == commands::command_views(cs@).map_values(
            |c: CommandView| command_fact(c),
        ),
{
    let mut out: Vec<AvailableCommandFact> = Vec::new();
    let mut i: usize = 0;
    while i < cs.len()
        invariant
            i <= cs@.len(),
            out@.len() == i,
            forall|k: int| 0 <= k < i ==> (#[trigger] out@[k])@ == command_fact(cs@[k]@),
        decreases cs.len() - i,
    {
        let hint = match &cs[i].input {
            Some(AvailableCommandInput::Unstructured(u)) => Some(u.hint.clone()),
            None => None,
        };
        out.push(
            AvailableCommandFact {
                name: cs[i].name.clone(),
                description: cs[i].description.clone(),
                input_hint: hint,
                meta: None,
            },
        );
        i += 1;
    }
    assert(facts::command_views(out@) =~= commands::command_views(cs@).map_values(
        |c: CommandView| command_fact(c),
    ));
    out
}

/// The message that tells a session's commands, given pi's answer to the
/// request for its own; none when it failed.
pub fn advertise_commands(
    session_id: &str,
    data: Option<&Json>,
    enable_skill_commands: bool,
    file_commands: &Vec<FileSlashCommand>,
) -> (r: OutboundMessage)
    ensures
        r@ == OutboundView::AvailableCommands(
            session_id@,
            offered_commands(
                json::opt_ref(data),
                enable_skill_commands,
                prompt_commands(commands::file_views(file_commands@)),
            ).map_values(|c: CommandView| command_fact(c)),
        ),
{
    let from_pi = match data {
        Some(d) => commands::to_available_commands_from_pi_get_commands(
            d,
            enable_skill_commands,
            false,
        ),
        None => Vec::new(),
    };
    let builtins = commands::builtin_available_commands();
    let ghost empty: Seq<CommandView> = Seq::empty();
    assert(data is None ==> commands::command_views(from_pi@) =~= empty);
    let available = if from_pi.len() == 0 {
        let files = commands::to_available_commands(file_commands);
        commands::merge_commands(&files, &builtins)
    } else {
        commands::merge_commands(&from_pi, &builtins)
    };
    OutboundMessage::AvailableCommands(
        AvailableCommandsFact {
            session_id: session_id.to_owned(),
            commands: command_facts(&available),
        },
    )
}

/// The title of a restored session as it is told.
pub open spec fn title_message(session_id: Seq<char>, title: Seq<char>, now: Seq<char>) -> OutboundView {
    OutboundView::SessionInfo(
        SessionInfoView { session_id, title: Some(title), updated_at: Some(now), meta: None },
    )
}

/// What is told of a restored session before its commands: its title, when it
/// has one, and its conversation.
pub fn load_messages(
    session_id: &str,
    cwd: &str,
    title: Option<&str>,
    history: &Json,
    now: &str,
) -> (r: Vec<OutboundMessage>)
    ensures
        builtin::message_views(r@) == (match title {
            Some(t) => seq![title_message(session_id@, t@, now@)],
            None => Seq::empty(),
        }) + replay::conversation(session_id@, cwd@, replay::messages_in(history@)),
{
    let mut out: Vec<OutboundMessage> = Vec::new();
    assert(builtin::message_views(out@) =~= Seq::<OutboundView>::empty());
    if let Some(t) = title {
        out.push(
            OutboundMessage::SessionInfo(
                SessionInfoFact {
                    session_id: session_id.to_owned(),
                    title: Some(t.to_owned()),
                    updated_at: Some(now.to_owned()),
                    meta: None,
                },
            ),
        );
        assert(builtin::message_views(out@) =~= seq![
            title_message(session_id@, t@, now@),
        ]);
    }
    let mut told = replay::replay_history(session_id, cwd, history);
    let ghost a = out@;
    let ghost b = told@;
    out.append(&mut told);
    assert(builtin::message_views(a + b) =~= builtin::message_views(a) + builtin::message_views(b));
    out
}

// ---------------------------------------------------------------------------
// session/set_mode, session/set_config_option and session/set_model
// ---------------------------------------------------------------------------

/// The level that a mode stands for.
pub fn requested_mode(mode_id: &str) -> (r: Result<ThinkingLevel, AcpError>)
    ensures
        match r {
            Ok(l) => rpc::level_named(mode_id@) == Some(l),
            Err(e) => rpc::level_named(mode_id@) is None && e.holds(
                ACP_INVALID_PARAMS,
                "Unknown modeId: "@ + mode_id@,
                None,
            ),
        },
{
    match ThinkingLevel::parse(mode_id) {
        Some(l) => Ok(l),
        None => {
            let message = text::cat2("Unknown modeId: ", mode_id);
            Err(error::invalid_params(message.as_str()))
        },
    }
}

/// A change of a config option.
#[derive(Debug)]
pub enum ConfigChange {
    /// Use the model that this stands for.
    Model(String),
    /// Use this thinking level.
    Level(ThinkingLevel),
}

/// What is wrong with a change of a config option, if anything.
pub open spec fn config_problem(config_id: Seq<char>, value: Option<Seq<char>>) -> Option<Seq<char>> {
    match value {
        None => Some("Expected string value for config option: "@ + config_id),
        Some(v) => if config_id == configure::MODEL_CONFIG_ID@ {
            None
        } else if config_id == configure::THOUGHT_LEVEL_CONFIG_ID@ {
            if rpc::level_named(v) is None {
                Some("Unknown thinking level: "@ + v)
            } else {
                None
            }
        } else {
            Some("Unknown config option: "@ + config_id)
        },
    }
}

/// The change that a request asks for; `value` is its value when it is a
/// text.
pub fn requested_change(config_id: &str, value: Option<&str>) -> (r: Result<ConfigChange, AcpError>)
    ensures
        match r {
            Ok(ConfigChange::Model(m)) => {
                &&& config_problem(config_id@, text::opt_str(value)) is None
                &&& config_id@ == configure::MODEL_CONFIG_ID@
                &&& value is Some
                &&& m@ == value->0@
            },
            Ok(ConfigChange::Level(l)) => {
                &&& config_problem(config_id@, text::opt_str(value)) is None
                &&& config_id@ == configure::THOUGHT_LEVEL_CONFIG_ID@
                &&& value is Some
                &&& rpc::level_named(value->0@) == Some(l)
            },
            Err(e) => {
                &&& config_problem(config_id@, text::opt_str(value)) is Some
                &&& e.holds(
                    ACP_INVALID_PARAMS,
                    config_problem(config_id@, text::opt_str(value))->0,
                    None,
                )
            },
        },
{
    let v = match value {
        Some(v) => v,
        None => {
            let message = text::cat2("Expected string value for config option: ", config_id);
            return Err(error::invalid_params(message.as_str()));
        },
    };
    if text::same(config_id, configure::MODEL_CONFIG_ID) {
        Ok(ConfigChange::Model(v.to_owned()))
    } else if text::same(config_id, configure::THOUGHT_LEVEL_CONFIG_ID) {
        match ThinkingLevel::parse(v) {
            Some(l) => Ok(ConfigChange::Level(l)),
            None => {
                let message = text::cat2("Unknown thinking level: ", v);
                Err(error::invalid_params(message.as_str()))
            },
        }
    } else {
        let message = text::cat2("Unknown config option: ", config_id);
        Err(error::invalid_params(message.as_str()))
    }
}

/// The session and the model that a request for `session/set_model` names.
pub fn set_model_params(params: &Json) -> (r: Result<(String, String), AcpError>)
    ensures
        match r {
            Ok(p) => {
                &&& json::str_member(params@, "sessionId"@) == Some(p.0@)
                &&& json::str_member(params@, "modelId"@) == Some(p.1@)
            },
            Err(e) => if json::str_member(params@, "sessionId"@) is None {
                e.holds(ACP_INVALID_PARAMS, "session/set_model missing sessionId"@, None)
            } else {
                json::str_member(params@, "modelId"@) is None && e.holds(
                    ACP_INVALID_PARAMS,
                    "session/set_model missing modelId"@,
                    None,
                )
            },
        },
{
    let session_id = match params.get_str("sessionId") {
        Some(s) => s,
        None => return Err(error::invalid_params("session/set_model missing sessionId")),
    };
    match params.get_str("modelId") {
        Some(m) => Ok((session_id.to_owned(), m.to_owned())),
        None => Err(error::invalid_params("session/set_model missing modelId")),
    }
}

/// What is told once the model or the level was changed: the mode that pi is
/// in now, and all config options.
pub fn configuration_messages(session_id: &str, c: Configuration) -> (r: Vec<OutboundMessage>)
    ensures
        builtin::message_views(r@) == seq![
            OutboundView::Mode(session_id@, c.modes.current_mode_id@),
            OutboundView::ConfigOptions(session_id@, facts::option_views(c.options@)),
        ],
{
    let mut v: Vec<OutboundMessage> = Vec::new();
    v.push(
        OutboundMessage::Mode(
            ModeFact { session_id: session_id.to_owned(), mode_id: c.modes.current_mode_id },
        ),
    );
    v.push(
        OutboundMessage::ConfigOptions(
            ConfigOptionsFact { session_id: session_id.to_owned(), options: c.options },
        ),
    );
    assert(builtin::message_views(v@) =~= seq![v@[0]@, v@[1]@]);
    v
}

// ---------------------------------------------------------------------------
// Laws
// ---------------------------------------------------------------------------

/// Every value that a session offers for its thinking level is accepted as a
/// change of it.
pub proof fn offered_levels_are_accepted(
    current: Seq<char>,
    levels: Seq<ThinkingLevel>,
    i: int,
)
    requires
        0 <= i < levels.len(),
    ensures
        config_problem(
            configure::level_option(current, levels).id,
            Some(configure::level_option(current, levels).choices[i].value),
        ) is None,
{
    rpc::level_names_round_trip(levels[i]);
}

/// The agent's own commands are always on offer.
pub proof fn own_commands_are_offered(
    data: Option<JsonView>,
    skills: bool,
    files: Seq<CommandView>,
    i: int,
)
    requires
        0 <= i < commands::builtins().len(),
    ensures
        commands::offers(offered_commands(data, skills, files), commands::builtins()[i].name),
{
    let own = match data {
        Some(d) => commands::pi_commands(commands::listed(d), skills, false),
        None => Seq::empty(),
    };
    let first = if own.len() == 0 {
        files
    } else {
        own
    };
    let all = first + commands::builtins();
    assert(all[first.len() + i] == commands::builtins()[i]);
    commands::unique_keeps_every_name_once(all);
    assert(commands::offers(all, commands::builtins()[i].name));
}

/// The answer to the first request says which version is spoken, what the
/// agent can do, how to log in, and who it is.
pub proof fn the_agent_introduces_itself(
    abilities: JsonView,
    methods: Seq<JsonView>,
    version: Seq<char>,
)
    ensures
        ({
            let r = initialized(abilities, methods, version);
            &&& json::member(r, "protocolVersion"@) == Some(JsonView::Number(NumberView::Int(1)))
            &&& json::member(r, "agentCapabilities"@) == Some(abilities)
            &&& json::member(r, "authMethods"@) == Some(JsonView::Array(methods))
            &&& json::member(r, "agentInfo"@) matches Some(i) && json::member(i, "version"@)
                == Some(JsonView::Str(version)) && json::member(i, "name"@) == Some(
                JsonView::Str("pi-acp"@),
            )
        }),
{
    broadcast use json::entry_of_put;

    reveal_strlit("protocolVersion");
    reveal_strlit("agentCapabilities");
    reveal_strlit("authMethods");
    reveal_strlit("agentInfo");
    reveal_strlit("name");
    reveal_strlit("title");
    reveal_strlit("version");
    assert("protocolVersion"@.len() == 15 && "agentCapabilities"@.len() == 17 && "authMethods"@.len() == 11);
    assert("agentInfo"@.len() == 9 && "name"@.len() == 4 && "title"@.len() == 5);
    assert("version"@.len() == 7);
}

/// The agent loads, lists and deletes sessions, takes images and no sounds,
/// embedded contexts when they are switched on, and the servers it is wired
/// for.
pub proof fn abilities_are_told(embedded_context: bool, http: bool, sse: bool)
    ensures
        ({
            let c = capabilities(embedded_context, http, sse);
            &&& json::member(c, "loadSession"@) == Some(JsonView::Bool(true))
            &&& json::member(c, "promptCapabilities"@) matches Some(p) && json::member(
                p,
                "image"@,
            ) == Some(JsonView::Bool(true)) && json::member(p, "audio"@) == Some(
                JsonView::Bool(false),
            ) && json::member(p, "embeddedContext"@) == Some(JsonView::Bool(embedded_context))
            &&& json::member(c, "mcpCapabilities"@) matches Some(m) && json::member(m, "http"@)
                == Some(JsonView::Bool(http)) && json::member(m, "sse"@) == Some(
                JsonView::Bool(sse),
            )
            &&& json::member(c, "sessionCapabilities"@) matches Some(s) && json::member(
                s,
                "list"@,
            ) is Some && json::member(s, "delete"@) is Some
        }),
{
    broadcast use json::entry_of_put;

    reveal_strlit("loadSession");
    reveal_strlit("promptCapabilities");
    reveal_strlit("mcpCapabilities");
    reveal_strlit("sessionCapabilities");
    reveal_strlit("auth");
    reveal_strlit("image");
    reveal_strlit("audio");
    reveal_strlit("embeddedContext");
    reveal_strlit("http");
    reveal_strlit("sse");
    reveal_strlit("list");
    reveal_strlit("delete");
    assert("loadSession"@.len() == 11 && "promptCapabilities"@.len() == 18 && "mcpCapabilities"@.len() == 15);
    assert("sessionCapabilities"@.len() == 19 && "auth"@.len() == 4 && "image"@.len() == 5);
    assert("audio"@.len() == 5 && "embeddedContext"@.len() == 15 && "http"@.len() == 4);
    assert("sse"@.len() == 3 && "list"@.len() == 4 && "delete"@.len() == 6);
    assert("auth"@[0] != "http"@[0]);
    assert("auth"@[0] != "list"@[0]);
    assert("http"@[0] != "list"@[0]);
    assert("image"@[0] != "audio"@[0]);
    assert("mcpCapabilities"@[0] != "embeddedContext"@[0]);
}

/// The way to log in is a terminal that runs the adapter's own login; clients
/// that open terminals are told the command.
pub proof fn the_login_is_a_terminal(terminals: bool, argv: Seq<Seq<char>>)
    ensures
        ({
            let m = login_method(terminals, argv);
            &&& json::member(m, "type"@) == Some(JsonView::Str("terminal"@))
            &&& json::member(m, "args"@) == Some(
                JsonView::Array(seq![JsonView::Str("--terminal-login"@)]),
            )
            &&& !terminals ==> json::member(m, "_meta"@) is None
            &&& terminals ==> (json::member(m, "_meta"@) matches Some(x) && json::member(
                x,
                "terminal-auth"@,
            ) matches Some(t) && json::member(t, "command"@) == Some(
                JsonView::Str(auth::launch_spec(argv).0),
            ))
        }),
{
    broadcast use json::entry_of_put;

    reveal_strlit("type");
    reveal_strlit("id");
    reveal_strlit("name");
    reveal_strlit("description");
    reveal_strlit("args");
    reveal_strlit("_meta");
    reveal_strlit("command");
    reveal_strlit("label");
    reveal_strlit("terminal-auth");
    assert("type"@.len() == 4 && "id"@.len() == 2 && "name"@.len() == 4);
    assert("description"@.len() == 11 && "args"@.len() == 4 && "_meta"@.len() == 5);
    assert("command"@.len() == 7 && "label"@.len() == 5 && "terminal-auth"@.len() == 13);
    assert("type"@[0] != "name"@[0]);
    assert("type"@[0] != "args"@[0]);
    assert("name"@[0] != "args"@[0]);
    assert("_meta"@[0] != "label"@[0]);
}

/// A client opens terminals exactly when it says so.
pub proof fn clients_say_whether_they_open_terminals(params: JsonView, c: JsonView, m: JsonView)
    requires
        json::member(params, "clientCapabilities"@) == Some(c),
        json::member(c, "_meta"@) == Some(m),
    ensures
        opens_terminals(params) <==> json::member(m, "terminal-auth"@) == Some(
            JsonView::Bool(true),
        ),
{
}

/// The commands that are offered are pi's, or those of the prompt files when
/// pi has none, and behind them the adapter's own; of several with one name
/// the first counts.
pub proof fn commands_are_offered_in_order(
    data: JsonView,
    skills: bool,
    files: Seq<CommandView>,
)
    ensures
        ({
            let own = commands::pi_commands(commands::listed(data), skills, false);
            &&& own.len() > 0 ==> commands::unique(own).is_prefix_of(
                offered_commands(Some(data), skills, files),
            )
            &&& own.len() == 0 ==> offered_commands(Some(data), skills, files)
                == offered_commands(None, skills, files)
            &&& commands::unique(files).is_prefix_of(offered_commands(None, skills, files))
        }),
{
    let own = commands::pi_commands(commands::listed(data), skills, false);
    if own.len() > 0 {
        commands::the_first_of_a_name_is_kept(own, commands::builtins(), 0);
    }
    if files.len() > 0 {
        commands::the_first_of_a_name_is_kept(files, commands::builtins(), 0);
    }
}

/// A command is advertised as it is offered.
pub proof fn commands_are_advertised_as_they_are(c: CommandView)
    ensures
        command_fact(c).name == c.name,
        command_fact(c).description == c.description,
        command_fact(c).input_hint == c.hint,
{
}

/// The model and the level can be changed, the level to one there is; a change
/// without a value, or of anything else, is refused.
pub proof fn only_model_and_level_can_be_changed(config_id: Seq<char>, v: Seq<char>)
    ensures
        config_problem(config_id, None) is Some,
        config_problem("model"@, Some(v)) is None,
        config_problem("thought_level"@, Some(v)) is None <==> rpc::level_named(v) is Some,
        config_id != "model"@ && config_id != "thought_level"@ ==> config_problem(
            config_id,
            Some(v),
        ) is Some,
{
    reveal_strlit("model");
    reveal_strlit("thought_level");
    assert("model"@.len() == 5 && "thought_level"@.len() == 13);
}

/// A loaded session's title is told with the time.
pub proof fn a_title_is_told(session_id: Seq<char>, title: Seq<char>, now: Seq<char>)
    ensures
        title_message(session_id, title, now) matches OutboundView::SessionInfo(i)
            && i.session_id == session_id && i.title == Some(title) && i.updated_at == Some(now),
{
}

} // verus!
