//! A stand-in for pi that answers every command, for trying the adapter
//! without a model: its options, its state, its answers and the scenarios that
//! it plays.

use crate::json;
use crate::json::{Json, JsonMap, JsonView, NumberView};
use crate::text;
use crate::translate::bash;
use vstd::prelude::*;
use vstd::string::*;

verus! {

// ---------------------------------------------------------------------------
// The program's mode
// ---------------------------------------------------------------------------

/// What the program is started for.
#[derive(Debug, Clone, Copy, PartialEq, Eq, Structural)]
pub enum RunMode {
    /// To open pi for a login.
    TerminalLogin,
    /// To print its version.
    Version,
    /// To stand in for pi.
    Mock,
    /// To serve a client.
    Agent,
}

/// What the program is started for, by its arguments: it stands in for pi when
/// told to, or when the environment says so and it is started as pi would be.
pub open spec fn mode_for(args: Seq<Seq<char>>, mock_env: bool) -> RunMode {
    if args.contains("--terminal-login"@) {
        RunMode::TerminalLogin
    } else if args.contains("--version"@) {
        RunMode::Version
    } else if args.contains("--mock-rpc"@) || (mock_env && args.contains("--mode"@)) {
        RunMode::Mock
    } else {
        RunMode::Agent
    }
}

/// What the program is started for.
pub fn run_mode(args: &Vec<String>, mock_env: bool) -> (r: RunMode)
    ensures
        r == mode_for(text::texts(args@), mock_env),
{
    if text::lists(args, "--terminal-login") {
        RunMode::TerminalLogin
    } else if text::lists(args, "--version") {
        RunMode::Version
    } else if text::lists(args, "--mock-rpc") || (mock_env && text::lists(args, "--mode")) {
        RunMode::Mock
    } else {
        RunMode::Agent
    }
}

// ---------------------------------------------------------------------------
// Options
// ---------------------------------------------------------------------------

/// How the stand-in behaves. `T` is the type of its texts: the model is the
/// same value over character sequences.
#[derive(Debug)]
pub struct MockOptions<T = String> {
    /// How many lines are printed before the first record.
    pub prelude: u64,
    /// Whether no command is answered.
    pub hang: bool,
    /// After how many commands the process exits.
    pub exit_after: Option<u64>,
    /// How long an answer takes, in milliseconds.
    pub delay_ms: u64,
    /// Whether an event of an unknown kind is sent first.
    pub unknown_event: bool,
    /// Where the scenarios are.
    pub scenario_dir: Option<T>,
    /// Whether turns are left open.
    pub no_settle: bool,
    /// How long an event of a scenario takes, in milliseconds.
    pub event_delay_ms: u64,
    /// Where the commands are written down.
    pub command_log: Option<T>,
    /// Where the answers to extensions are written down.
    pub extension_log: Option<T>,
    /// Where the working directory is written down.
    pub cwd_log: Option<T>,
    /// The failure of every prompt.
    pub prompt_error: Option<T>,
    /// The failure of the list of models.
    pub models_error: Option<T>,
}

impl View for MockOptions {
    type V = MockOptions<Seq<char>>;

    open spec fn view(&self) -> MockOptions<Seq<char>> {
        MockOptions {
            prelude: self.prelude,
            hang: self.hang,
            exit_after: self.exit_after,
            delay_ms: self.delay_ms,
            unknown_event: self.unknown_event,
            scenario_dir: text::opt_text(self.scenario_dir),
            no_settle: self.no_settle,
            event_delay_ms: self.event_delay_ms,
            command_log: text::opt_text(self.command_log),
            extension_log: text::opt_text(self.extension_log),
            cwd_log: text::opt_text(self.cwd_log),
            prompt_error: text::opt_text(self.prompt_error),
            models_error: text::opt_text(self.models_error),
        }
    }
}

/// The options when none is given.
pub open spec fn plain_options() -> MockOptions<Seq<char>> {
    MockOptions {
        prelude: 0,
        hang: false,
        exit_after: None,
        delay_ms: 0,
        unknown_event: false,
        scenario_dir: None,
        no_settle: false,
        event_delay_ms: 0,
        command_log: None,
        extension_log: None,
        cwd_log: None,
        prompt_error: None,
        models_error: None,
    }
}

/// A number, when the text is one.
pub open spec fn count_in(s: Option<Seq<char>>) -> Option<u64> {
    match s {
        Some(t) => match text::unsigned_in(t) {
            Some(n) => Some(n as u64),
            None => None,
        },
        None => None,
    }
}

/// A number, or zero when the text is none.
pub open spec fn count_or_zero(s: Option<Seq<char>>) -> u64 {
    match count_in(s) {
        Some(n) => n,
        None => 0,
    }
}

/// Whether an option takes the argument behind it.
pub open spec fn takes_value(name: Seq<char>) -> bool {
    ||| name == "--mock-prelude"@
    ||| name == "--mock-exit-after"@
    ||| name == "--mock-delay-ms"@
    ||| name == "--mock-scenario"@
    ||| name == "--mock-event-delay-ms"@
    ||| name == "--mock-command-log"@
    ||| name == "--mock-extension-log"@
    ||| name == "--mock-cwd-log"@
    ||| name == "--mock-prompt-error"@
    ||| name == "--mock-models-error"@
}

/// The options with one more, whose value is given when it takes one.
pub open spec fn with_option(
    o: MockOptions<Seq<char>>,
    name: Seq<char>,
    value: Option<Seq<char>>,
) -> MockOptions<Seq<char>> {
    if name == "--mock-prelude"@ {
        MockOptions { prelude: count_or_zero(value), ..o }
    } else if name == "--mock-hang"@ {
        MockOptions { hang: true, ..o }
    } else if name == "--mock-exit-after"@ {
        MockOptions { exit_after: count_in(value), ..o }
    } else if name == "--mock-delay-ms"@ {
        MockOptions { delay_ms: count_or_zero(value), ..o }
    } else if name == "--mock-unknown-event"@ {
        MockOptions { unknown_event: true, ..o }
    } else if name == "--mock-scenario"@ {
        MockOptions { scenario_dir: value, ..o }
    } else if name == "--mock-no-settle"@ {
        MockOptions { no_settle: true, ..o }
    } else if name == "--mock-event-delay-ms"@ {
        MockOptions { event_delay_ms: count_or_zero(value), ..o }
    } else if name == "--mock-command-log"@ {
        MockOptions { command_log: value, ..o }
    } else if name == "--mock-extension-log"@ {
        MockOptions { extension_log: value, ..o }
    } else if name == "--mock-cwd-log"@ {
        MockOptions { cwd_log: value, ..o }
    } else if name == "--mock-prompt-error"@ {
        MockOptions { prompt_error: value, ..o }
    } else if name == "--mock-models-error"@ {
        MockOptions { models_error: value, ..o }
    } else {
        o
    }
}

/// The options that arguments give, on top of those given before; arguments
/// that are none are passed over.
pub open spec fn options_in(args: Seq<Seq<char>>, o: MockOptions<Seq<char>>) -> MockOptions<
    Seq<char>,
>
    decreases args.len(),
{
    if args.len() == 0 {
        o
    } else if takes_value(args[0]) {
        if args.len() == 1 {
            with_option(o, args[0], None)
        } else {
            options_in(args.skip(2), with_option(o, args[0], Some(args[1])))
        }
    } else {
        options_in(args.skip(1), with_option(o, args[0], None))
    }
}

/// What the environment says for options that no argument gives.
#[derive(Debug)]
pub struct MockEnv {
    /// Where the scenarios are.
    pub scenario: Option<String>,
    /// Where the commands are written down.
    pub command_log: Option<String>,
    /// The failure of every prompt.
    pub prompt_error: Option<String>,
    /// The failure of the list of models.
    pub models_error: Option<String>,
    /// After how many commands the process exits.
    pub exit_after: Option<String>,
}

/// The options with those of the environment where no argument gave one.
pub open spec fn completed(o: MockOptions<Seq<char>>, env: MockEnv) -> MockOptions<Seq<char>> {
    MockOptions {
        scenario_dir: bash::either(o.scenario_dir, text::opt_text(env.scenario)),
        command_log: bash::either(o.command_log, text::opt_text(env.command_log)),
        prompt_error: bash::either(o.prompt_error, text::opt_text(env.prompt_error)),
        models_error: bash::either(o.models_error, text::opt_text(env.models_error)),
        exit_after: bash::either(o.exit_after, count_in(text::opt_text(env.exit_after))),
        ..o
    }
}

fn count_of(s: &Option<String>) -> (r: Option<u64>)
    ensures
        r == count_in(text::opt_text(*s)),
{
    match s {
        Some(t) => text::read_unsigned(t.as_str()),
        None => None,
    }
}

fn count_or_none(s: &Option<String>) -> (r: u64)
    ensures
        r == count_or_zero(text::opt_text(*s)),
{
    match count_of(s) {
        Some(n) => n,
        None => 0,
    }
}

fn option_takes_value(name: &str) -> (r: bool)
    ensures
        r == takes_value(name@),
{
    text::same(name, "--mock-prelude") || text::same(name, "--mock-exit-after") || text::same(
        name,
        "--mock-delay-ms",
    ) || text::same(name, "--mock-scenario") || text::same(name, "--mock-event-delay-ms")
        || text::same(name, "--mock-command-log") || text::same(name, "--mock-extension-log")
        || text::same(name, "--mock-cwd-log") || text::same(name, "--mock-prompt-error")
        || text::same(name, "--mock-models-error")
}

fn add_option(o: MockOptions, name: &str, value: Option<String>) -> (r: MockOptions)
    ensures
        r@ == with_option(o@, name@, text::opt_text(value)),
{
    let mut o = o;
    if text::same(name, "--mock-prelude") {
        o.prelude = count_or_none(&value);
    } else if text::same(name, "--mock-hang") {
        o.hang = true;
    } else if text::same(name, "--mock-exit-after") {
        o.exit_after = count_of(&value);
    } else if text::same(name, "--mock-delay-ms") {
        o.delay_ms = count_or_none(&value);
    } else if text::same(name, "--mock-unknown-event") {
        o.unknown_event = true;
    } else if text::same(name, "--mock-scenario") {
        o.scenario_dir = value;
    } else if text::same(name, "--mock-no-settle") {
        o.no_settle = true;
    } else if text::same(name, "--mock-event-delay-ms") {
        o.event_delay_ms = count_or_none(&value);
    } else if text::same(name, "--mock-command-log") {
        o.command_log = value;
    } else if text::same(name, "--mock-extension-log") {
        o.extension_log = value;
    } else if text::same(name, "--mock-cwd-log") {
        o.cwd_log = value;
    } else if text::same(name, "--mock-prompt-error") {
        o.prompt_error = value;
    } else if text::same(name, "--mock-models-error") {
        o.models_error = value;
    }
    o
}

fn first_of(a: Option<String>, b: &Option<String>) -> (r: Option<String>)
    ensures
        text::opt_text(r) == bash::either(text::opt_text(a), text::opt_text(*b)),
{
    match a {
        Some(x) => Some(x),
        None => text::clone_opt(b),
    }
}

/// The options that arguments and the environment give.
pub fn mock_options(args: &Vec<String>, env: &MockEnv) -> (r: MockOptions)
    ensures
        r@ == completed(options_in(text::texts(args@), plain_options()), *env),
{
    let ghost all = text::texts(args@);
    let mut o = MockOptions {
        prelude: 0,
        hang: false,
        exit_after: None,
        delay_ms: 0,
        unknown_event: false,
        scenario_dir: None,
        no_settle: false,
        event_delay_ms: 0,
        command_log: None,
        extension_log: None,
        cwd_log: None,
        prompt_error: None,
        models_error: None,
    };
    let n: usize = args.len();
    let mut i: usize = 0;
    assert(all.skip(0) =~= all);
    while i < n
        invariant
            i <= n,
            n == args@.len(),
            all == text::texts(args@),
            options_in(all, plain_options()) == options_in(all.skip(i as int), o@),
        decreases n - i,
    {
        let ghost rest = all.skip(i as int);
        assert(rest[0] == args@[i as int]@);
        if option_takes_value(args[i].as_str()) {
            if i + 1 < n {
                assert(rest[1] == args@[i + 1]@);
                assert(rest.skip(2) =~= all.skip(i + 2));
                let value = args[i + 1].clone();
                o = add_option(o, args[i].as_str(), Some(value));
                i += 2;
            } else {
                o = add_option(o, args[i].as_str(), None);
                i += 1;
                assert(all.skip(i as int) =~= Seq::<Seq<char>>::empty());
            }
        } else {
            assert(rest.skip(1) =~= all.skip(i + 1));
            o = add_option(o, args[i].as_str(), None);
            i += 1;
        }
    }
    assert(all.skip(i as int) =~= Seq::<Seq<char>>::empty());
    let exit_env = count_of(&env.exit_after);
    MockOptions {
        prelude: o.prelude,
        hang: o.hang,
        exit_after: match o.exit_after {
            Some(n) => Some(n),
            None => exit_env,
        },
        delay_ms: o.delay_ms,
        unknown_event: o.unknown_event,
        scenario_dir: first_of(o.scenario_dir, &env.scenario),
        no_settle: o.no_settle,
        event_delay_ms: o.event_delay_ms,
        command_log: first_of(o.command_log, &env.command_log),
        extension_log: o.extension_log,
        cwd_log: o.cwd_log,
        prompt_error: first_of(o.prompt_error, &env.prompt_error),
        models_error: first_of(o.models_error, &env.models_error),
    }
}

// ---------------------------------------------------------------------------
// Starting
// ---------------------------------------------------------------------------

/// The lines that pi prints for people before its first record.
pub open spec fn banner() -> Seq<Seq<char>> {
    seq![
        "\u{1b}[32mContext\u{1b}[0m: mock context loaded"@,
        "\u{1b}[1mSkills\u{1b}[0m: mock skill (2)"@,
        "\u{1b}[34mExtensions\u{1b}[0m: none"@,
    ]
}

/// The lines that are printed first: as many of the banner as asked for, and
/// an event of an unknown kind when it is asked for.
pub open spec fn first_lines(o: MockOptions<Seq<char>>) -> Seq<Seq<char>> {
    (if o.prelude >= 3 {
        banner()
    } else {
        banner().take(o.prelude as int)
    }) + (if o.unknown_event {
        seq!["{\"type\":\"brand_new_event\",\"payload\":1}"@]
    } else {
        Seq::empty()
    })
}

/// The lines that are printed first.
pub fn startup_lines(o: &MockOptions) -> (r: Vec<String>)
    ensures
        text::texts(r@) == first_lines(o@),
{
    let mut out: Vec<String> = Vec::new();
    assert(text::texts(out@) =~= banner().take(0));
    if o.prelude >= 1 {
        out.push("\u{1b}[32mContext\u{1b}[0m: mock context loaded".to_owned());
        assert(text::texts(out@) =~= banner().take(1));
    }
    if o.prelude >= 2 {
        out.push("\u{1b}[1mSkills\u{1b}[0m: mock skill (2)".to_owned());
        assert(text::texts(out@) =~= banner().take(2));
    }
    if o.prelude >= 3 {
        out.push("\u{1b}[34mExtensions\u{1b}[0m: none".to_owned());
        assert(text::texts(out@) =~= banner());
    }
    let ghost shown = text::texts(out@);
    if o.unknown_event {
        out.push("{\"type\":\"brand_new_event\",\"payload\":1}".to_owned());
        assert(text::texts(out@) =~= shown + seq![
            "{\"type\":\"brand_new_event\",\"payload\":1}"@,
        ]);
    } else {
        assert(text::texts(out@) =~= shown + Seq::<Seq<char>>::empty());
    }
    out
}

/// Whether the process exits before it reads anything.
pub fn exits_at_once(o: &MockOptions) -> (r: bool)
    ensures
        r == (o@.exit_after == Some(0u64)),
{
    match o.exit_after {
        Some(n) => n == 0,
        None => false,
    }
}

// ---------------------------------------------------------------------------
// State
// ---------------------------------------------------------------------------

/// What the stand-in remembers. `T` is the type of its texts.
#[derive(Debug)]
pub struct MockState<T = String> {
    /// The thinking level.
    pub thinking_level: T,
    /// The model.
    pub model: T,
    /// Whether automatic compaction is on.
    pub auto_compaction: bool,
    /// How steering messages are drained.
    pub steering_mode: T,
    /// How follow-up messages are drained.
    pub follow_up_mode: T,
    /// The session's name.
    pub session_name: T,
    /// How many commands were answered.
    pub handled: u64,
    /// How many prompts were accepted.
    pub prompts: u64,
}

impl View for MockState {
    type V = MockState<Seq<char>>;

    open spec fn view(&self) -> MockState<Seq<char>> {
        MockState {
            thinking_level: self.thinking_level@,
            model: self.model@,
            auto_compaction: self.auto_compaction,
            steering_mode: self.steering_mode@,
            follow_up_mode: self.follow_up_mode@,
            session_name: self.session_name@,
            handled: self.handled,
            prompts: self.prompts,
        }
    }
}

/// What the stand-in starts with.
pub open spec fn first_state() -> MockState<Seq<char>> {
    MockState {
        thinking_level: "medium"@,
        model: "mock-model"@,
        auto_compaction: false,
        steering_mode: "one-at-a-time"@,
        follow_up_mode: "one-at-a-time"@,
        session_name: "Mock Session"@,
        handled: 0,
        prompts: 0,
    }
}

impl MockState {
    /// What the stand-in starts with.
    pub fn new() -> (r: MockState)
        ensures
            r@ == first_state(),
    {
        MockState {
            thinking_level: "medium".to_owned(),
            model: "mock-model".to_owned(),
            auto_compaction: false,
            steering_mode: "one-at-a-time".to_owned(),
            follow_up_mode: "one-at-a-time".to_owned(),
            session_name: "Mock Session".to_owned(),
            handled: 0,
            prompts: 0,
        }
    }
}

/// A text that a command sets, or the one before when it sets none.
pub open spec fn set_text(command: JsonView, name: Seq<char>, before: Seq<char>) -> Seq<char> {
    match json::str_member(command, name) {
        Some(s) => s,
        None => before,
    }
}

/// The state behind a command of the given kind.
pub open spec fn changed(s: MockState<Seq<char>>, kind: Seq<char>, command: JsonView) -> MockState<
    Seq<char>,
> {
    if kind == "set_thinking_level"@ {
        MockState { thinking_level: set_text(command, "level"@, s.thinking_level), ..s }
    } else if kind == "set_model"@ {
        MockState { model: set_text(command, "modelId"@, s.model), ..s }
    } else if kind == "set_auto_compaction"@ {
        MockState {
            auto_compaction: json::bool_member(command, "enabled"@) == Some(true),
            ..s
        }
    } else if kind == "set_steering_mode"@ {
        MockState { steering_mode: set_text(command, "mode"@, s.steering_mode), ..s }
    } else if kind == "set_follow_up_mode"@ {
        MockState { follow_up_mode: set_text(command, "mode"@, s.follow_up_mode), ..s }
    } else if kind == "set_session_name"@ {
        MockState { session_name: set_text(command, "name"@, s.session_name), ..s }
    } else {
        s
    }
}

fn text_set(command: &Json, name: &str, before: &String) -> (r: String)
    ensures
        r@ == set_text(command@, name@, before@),
{
    match command.get_str(name) {
        Some(s) => s.to_owned(),
        None => before.clone(),
    }
}

impl MockState {
    /// Takes over what a command of the given kind sets.
    pub fn change(&mut self, kind: &str, command: &Json)
        ensures
            final(self)@ == changed(old(self)@, kind@, command@),
    {
        if text::same(kind, "set_thinking_level") {
            self.thinking_level = text_set(command, "level", &self.thinking_level);
        } else if text::same(kind, "set_model") {
            self.model = text_set(command, "modelId", &self.model);
        } else if text::same(kind, "set_auto_compaction") {
            self.auto_compaction =
            match command.get_bool("enabled") {
                Some(b) => b,
                None => false,
            };
        } else if text::same(kind, "set_steering_mode") {
            self.steering_mode = text_set(command, "mode", &self.steering_mode);
        } else if text::same(kind, "set_follow_up_mode") {
            self.follow_up_mode = text_set(command, "mode", &self.follow_up_mode);
        } else if text::same(kind, "set_session_name") {
            self.session_name = text_set(command, "name", &self.session_name);
        }
    }
}

// ---------------------------------------------------------------------------
// Answers
// ---------------------------------------------------------------------------

/// A string member.
pub open spec fn put_text(
    es: Seq<(Seq<char>, JsonView)>,
    name: Seq<char>,
    value: Seq<char>,
) -> Seq<(Seq<char>, JsonView)> {
    json::put(es, name, JsonView::Str(value))
}

/// An integer member.
pub open spec fn put_count(es: Seq<(Seq<char>, JsonView)>, name: Seq<char>, value: int) -> Seq<
    (Seq<char>, JsonView),
> {
    json::put(es, name, JsonView::Number(NumberView::Int(value)))
}

/// A model of the stand-in; the longest answer is told when it is known.
pub open spec fn mock_model(id: Seq<char>, name: Seq<char>, window: int, longest: Option<int>) -> Seq<
    (Seq<char>, JsonView),
> {
    let base = put_count(
        json::put(
            put_text(
                put_text(put_text(Seq::empty(), "id"@, id), "name"@, name),
                "provider"@,
                "mock"@,
            ),
            "reasoning"@,
            JsonView::Bool(false),
        ),
        "contextWindow"@,
        window,
    );
    match longest {
        Some(n) => put_count(base, "maxTokens"@, n),
        None => base,
    }
}

/// The state that is reported.
pub open spec fn state_data(s: MockState<Seq<char>>) -> JsonView {
    JsonView::Object(
        put_count(
            put_count(
                json::put(
                    put_text(
                        put_text(
                            put_text(
                                put_text(
                                    put_text(
                                        json::put(
                                            json::put(
                                                put_text(
                                                    json::put(
                                                        Seq::empty(),
                                                        "model"@,
                                                        JsonView::Object(
                                                            mock_model(
                                                                s.model,
                                                                "Mock Model"@,
                                                                1000,
                                                                Some(100int),
                                                            ),
                                                        ),
                                                    ),
                                                    "thinkingLevel"@,
                                                    s.thinking_level,
                                                ),
                                                "isStreaming"@,
                                                JsonView::Bool(false),
                                            ),
                                            "isCompacting"@,
                                            JsonView::Bool(false),
                                        ),
                                        "steeringMode"@,
                                        s.steering_mode,
                                    ),
                                    "followUpMode"@,
                                    s.follow_up_mode,
                                ),
                                "sessionFile"@,
                                "/tmp/mock-session.jsonl"@,
                            ),
                            "sessionId"@,
                            "mock-session-id"@,
                        ),
                        "sessionName"@,
                        s.session_name,
                    ),
                    "autoCompactionEnabled"@,
                    JsonView::Bool(s.auto_compaction),
                ),
                "messageCount"@,
                3,
            ),
            "pendingMessageCount"@,
            0,
        ),
    )
}

/// The models that are reported.
pub open spec fn models_data() -> JsonView {
    JsonView::Object(
        json::put(
            Seq::empty(),
            "models"@,
            JsonView::Array(
                seq![
                    JsonView::Object(
                        mock_model("mock-model"@, "Mock Model"@, 1000, Some(100int)),
                    ),
                    JsonView::Object(mock_model("mock-fast"@, "Mock Fast"@, 8000, Some(100int))),
                ],
            ),
        ),
    )
}

/// The statistics that are reported, with the given cost.
pub open spec fn stats_data(cost: JsonView) -> JsonView {
    let tokens = put_count(
        put_count(
            put_count(
                put_count(put_count(Seq::empty(), "input"@, 100), "output"@, 50),
                "cacheRead"@,
                10,
            ),
            "cacheWrite"@,
            5,
        ),
        "total"@,
        165,
    );
    JsonView::Object(
        json::put(
            json::put(
                put_count(
                    put_text(
                        put_text(Seq::empty(), "sessionId"@, "mock-session-id"@),
                        "sessionFile"@,
                        "/tmp/mock-session.jsonl"@,
                    ),
                    "totalMessages"@,
                    3,
                ),
                "cost"@,
                cost,
            ),
            "tokens"@,
            JsonView::Object(tokens),
        ),
    )
}

/// A command that is reported.
pub open spec fn mock_command(name: Seq<char>, description: Seq<char>, source: Seq<char>) -> JsonView {
    JsonView::Object(
        put_text(
            put_text(put_text(Seq::empty(), "name"@, name), "description"@, description),
            "source"@,
            source,
        ),
    )
}

/// The commands that are reported.
pub open spec fn commands_data() -> JsonView {
    JsonView::Object(
        json::put(
            Seq::empty(),
            "commands"@,
            JsonView::Array(
                seq![
                    mock_command("review"@, "Review the current diff"@, "prompt"@),
                    mock_command("skill:deploy"@, "Deploy to staging"@, "skill"@),
                    mock_command("ext-thing"@, "An extension command"@, "extension"@),
                ],
            ),
        ),
    )
}

/// The conversation that is reported: the user, the assistant, a command and a
/// file that was read.
pub open spec fn messages_data() -> JsonView {
    let user = put_text(put_text(Seq::empty(), "role"@, "user"@), "content"@, "hello there"@);
    let spoken = JsonView::Object(
        put_text(
            put_text(Seq::empty(), "type"@, "text"@),
            "text"@,
            "hi! how can I help?"@,
        ),
    );
    let assistant = json::put(
        put_text(Seq::empty(), "role"@, "assistant"@),
        "content"@,
        JsonView::Array(seq![spoken]),
    );
    let shell = json::put(
        json::put(
            put_text(
                json::put(
                    put_text(
                        put_text(put_text(Seq::empty(), "role"@, "toolResult"@), "toolName"@, "bash"@),
                        "toolCallId"@,
                        "bash-1"@,
                    ),
                    "isError"@,
                    JsonView::Bool(false),
                ),
                "command"@,
                "ls"@,
            ),
            "content"@,
            JsonView::Object(
                put_count(
                    put_text(Seq::empty(), "stdout"@, "a.txt\nb.txt\n"@),
                    "exitCode"@,
                    0,
                ),
            ),
        ),
        "details"@,
        JsonView::Object(Seq::empty()),
    );
    let file = json::put(
        json::put(
            json::put(
                put_text(
                    put_text(put_text(Seq::empty(), "role"@, "toolResult"@), "toolName"@, "read"@),
                    "toolCallId"@,
                    "read-1"@,
                ),
                "isError"@,
                JsonView::Bool(false),
            ),
            "content"@,
            JsonView::Object(
                put_count(
                    put_text(Seq::empty(), "output"@, "file contents"@),
                    "exitCode"@,
                    0,
                ),
            ),
        ),
        "details"@,
        JsonView::Object(put_text(Seq::empty(), "path"@, "a.txt"@)),
    );
    JsonView::Object(
        json::put(
            Seq::empty(),
            "messages"@,
            JsonView::Array(
                seq![
                    JsonView::Object(user),
                    JsonView::Object(assistant),
                    JsonView::Object(shell),
                    JsonView::Object(file),
                ],
            ),
        ),
    )
}

/// The data of an answer; most answers have none. `cost` is the cost in the
/// statistics.
pub open spec fn data_for(s: MockState<Seq<char>>, kind: Seq<char>, cost: JsonView) -> Option<JsonView> {
    if kind == "get_state"@ {
        Some(state_data(s))
    } else if kind == "get_available_models"@ {
        Some(models_data())
    } else if kind == "export_html"@ {
        Some(JsonView::Object(put_text(Seq::empty(), "path"@, "/tmp/mock.html"@)))
    } else if kind == "set_model"@ {
        Some(JsonView::Object(mock_model("mock-model"@, "Mock Model"@, 1000, None)))
    } else if kind == "compact"@ {
        Some(
            JsonView::Object(
                put_text(
                    put_count(Seq::empty(), "tokensBefore"@, 1500),
                    "summary"@,
                    "The conversation was summarized."@,
                ),
            ),
        )
    } else if kind == "get_session_stats"@ {
        Some(stats_data(cost))
    } else if kind == "get_commands"@ {
        Some(commands_data())
    } else if kind == "get_messages"@ {
        Some(messages_data())
    } else {
        None
    }
}

fn model_map(id: &str, name: &str, window: u64, longest: Option<u64>) -> (r: JsonMap)
    ensures
        r@ == mock_model(
            id@,
            name@,
            window as int,
            match longest {
                Some(n) => Some(n as int),
                None => None,
            },
        ),
{
    broadcast use crate::json::json_view;

    let base = JsonMap::new().with("id", Json::text(id)).with("name", Json::text(name)).with(
        "provider",
        Json::text("mock"),
    ).with("reasoning", Json::Bool(false)).with("contextWindow", Json::unsigned(window));
    match longest {
        Some(n) => base.with("maxTokens", Json::unsigned(n)),
        None => base,
    }
}

fn state_json(s: &MockState) -> (r: Json)
    ensures
        r@ == state_data(s@),
{
    broadcast use crate::json::json_view;

    let model = model_map(s.model.as_str(), "Mock Model", 1000, Some(100));
    Json::Object(
        JsonMap::new().with("model", Json::Object(model)).with(
            "thinkingLevel",
            Json::text(s.thinking_level.as_str()),
        ).with("isStreaming", Json::Bool(false)).with("isCompacting", Json::Bool(false)).with(
            "steeringMode",
            Json::text(s.steering_mode.as_str()),
        ).with("followUpMode", Json::text(s.follow_up_mode.as_str())).with(
            "sessionFile",
            Json::text("/tmp/mock-session.jsonl"),
        ).with("sessionId", Json::text("mock-session-id")).with(
            "sessionName",
            Json::text(s.session_name.as_str()),
        ).with("autoCompactionEnabled", Json::Bool(s.auto_compaction)).with(
            "messageCount",
            Json::unsigned(3),
        ).with("pendingMessageCount", Json::unsigned(0)),
    )
}

fn models_json() -> (r: Json)
    ensures
        r@ == models_data(),
{
    broadcast use crate::json::json_view;

    let a = Json::Object(model_map("mock-model", "Mock Model", 1000, Some(100)));
    let b = Json::Object(model_map("mock-fast", "Mock Fast", 8000, Some(100)));
    let mut list: Vec<Json> = Vec::new();
    list.push(a);
    list.push(b);
    assert(json::items_view(list@) =~= seq![a@, b@]);
    Json::Object(JsonMap::new().with("models", Json::Array(list)))
}

fn stats_json(cost: Json) -> (r: Json)
    ensures
        r@ == stats_data(cost@),
{
    broadcast use crate::json::json_view;

    let tokens = JsonMap::new().with("input", Json::unsigned(100)).with(
        "output",
        Json::unsigned(50),
    ).with("cacheRead", Json::unsigned(10)).with("cacheWrite", Json::unsigned(5)).with(
        "total",
        Json::unsigned(165),
    );
    Json::Object(
        JsonMap::new().with("sessionId", Json::text("mock-session-id")).with(
            "sessionFile",
            Json::text("/tmp/mock-session.jsonl"),
        ).with("totalMessages", Json::unsigned(3)).with("cost", cost).with(
            "tokens",
            Json::Object(tokens),
        ),
    )
}

fn command_json(name: &str, description: &str, source: &str) -> (r: Json)
    ensures
        r@ == mock_command(name@, description@, source@),
{
    broadcast use crate::json::json_view;

    Json::Object(
        JsonMap::new().with("name", Json::text(name)).with(
            "description",
            Json::text(description),
        ).with("source", Json::text(source)),
    )
}

fn commands_json() -> (r: Json)
    ensures
        r@ == commands_data(),
{
    broadcast use crate::json::json_view;

    let mut list: Vec<Json> = Vec::new();
    list.push(command_json("review", "Review the current diff", "prompt"));
    list.push(command_json("skill:deploy", "Deploy to staging", "skill"));
    list.push(command_json("ext-thing", "An extension command", "extension"));
    assert(json::items_view(list@) =~= seq![list@[0]@, list@[1]@, list@[2]@]);
    Json::Object(JsonMap::new().with("commands", Json::Array(list)))
}

fn messages_json() -> (r: Json)
    ensures
        r@ == messages_data(),
{
    broadcast use crate::json::json_view;

    let user = Json::Object(
        JsonMap::new().with("role", Json::text("user")).with("content", Json::text("hello there")),
    );
    let spoken = Json::Object(
        JsonMap::new().with("type", Json::text("text")).with(
            "text",
            Json::text("hi! how can I help?"),
        ),
    );
    let assistant = Json::Object(
        JsonMap::new().with("role", Json::text("assistant")).with(
            "content",
            bash::one_item(spoken),
        ),
    );
    let printed = JsonMap::new().with("stdout", Json::text("a.txt\nb.txt\n")).with(
        "exitCode",
        Json::unsigned(0),
    );
    let shell = Json::Object(
        JsonMap::new().with("role", Json::text("toolResult")).with(
            "toolName",
            Json::text("bash"),
        ).with("toolCallId", Json::text("bash-1")).with("isError", Json::Bool(false)).with(
            "command",
            Json::text("ls"),
        ).with("content", Json::Object(printed)).with("details", Json::Object(JsonMap::new())),
    );
    let content = JsonMap::new().with("output", Json::text("file contents")).with(
        "exitCode",
        Json::unsigned(0),
    );
    let details = JsonMap::new().with("path", Json::text("a.txt"));
    let file = Json::Object(
        JsonMap::new().with("role", Json::text("toolResult")).with(
            "toolName",
            Json::text("read"),
        ).with("toolCallId", Json::text("read-1")).with("isError", Json::Bool(false)).with(
            "content",
            Json::Object(content),
        ).with("details", Json::Object(details)),
    );
    let mut list: Vec<Json> = Vec::new();
    list.push(user);
    list.push(assistant);
    list.push(shell);
    list.push(file);
    assert(json::items_view(list@) =~= seq![user@, assistant@, shell@, file@]);
    Json::Object(JsonMap::new().with("messages", Json::Array(list)))
}

/// The data of an answer.
pub fn mock_data(s: &MockState, kind: &str, cost: Json) -> (r: Option<Json>)
    ensures
        json::opt_view(r) == data_for(s@, kind@, cost@),
{
    broadcast use crate::json::json_view;

    if text::same(kind, "get_state") {
        Some(state_json(s))
    } else if text::same(kind, "get_available_models") {
        Some(models_json())
    } else if text::same(kind, "export_html") {
        Some(Json::Object(JsonMap::new().with("path", Json::text("/tmp/mock.html"))))
    } else if text::same(kind, "set_model") {
        Some(Json::Object(model_map("mock-model", "Mock Model", 1000, None)))
    } else if text::same(kind, "compact") {
        Some(
            Json::Object(
                JsonMap::new().with("tokensBefore", Json::unsigned(1500)).with(
                    "summary",
                    Json::text("The conversation was summarized."),
                ),
            ),
        )
    } else if text::same(kind, "get_session_stats") {
        Some(stats_json(cost))
    } else if text::same(kind, "get_commands") {
        Some(commands_json())
    } else if text::same(kind, "get_messages") {
        Some(messages_json())
    } else {
        None
    }
}

/// The failure of a command, when the options have one for it.
pub open spec fn failure_of(o: MockOptions<Seq<char>>, kind: Seq<char>) -> Option<Seq<char>> {
    if kind == "prompt"@ {
        o.prompt_error
    } else if kind == "get_available_models"@ {
        o.models_error
    } else {
        None
    }
}

/// The answer to a command: its failure, or its data when it has some.
pub open spec fn answer(
    id: Seq<char>,
    kind: Seq<char>,
    failure: Option<Seq<char>>,
    data: Option<JsonView>,
) -> JsonView {
    let base = json::put(
        put_text(
            put_text(put_text(Seq::empty(), "id"@, id), "type"@, "response"@),
            "command"@,
            kind,
        ),
        "success"@,
        JsonView::Bool(failure is None),
    );
    JsonView::Object(
        match failure {
            Some(e) => put_text(base, "error"@, e),
            None => json::put_opt(base, "data"@, data),
        },
    )
}

/// The event that ends a turn.
pub open spec fn settled() -> JsonView {
    JsonView::Object(put_text(Seq::empty(), "type"@, "agent_settled"@))
}

/// The event of a new name.
pub open spec fn renamed(name: Seq<char>) -> JsonView {
    JsonView::Object(
        put_text(put_text(Seq::empty(), "type"@, "session_info_changed"@), "name"@, name),
    )
}

/// A member of a command, or nothing when it has none.
pub open spec fn member_text(v: JsonView, name: Seq<char>) -> Seq<char> {
    match json::str_member(v, name) {
        Some(s) => s,
        None => Seq::empty(),
    }
}

/// What the stand-in does about a line. `T` is the type of its texts and `L`
/// that of its records.
#[derive(Debug)]
pub enum MockStep<T = String, L = Vec<Json>> {
    /// Nothing.
    Skip,
    /// Exit at once.
    Exit,
    /// Give up: the line is no record.
    Unreadable,
    /// Write down the answer to an extension.
    Record {
        /// The line.
        line: T,
    },
    /// Answer a command.
    Answer {
        /// The kind of command.
        command: T,
        /// The records to send.
        records: L,
        /// The number of the prompt whose turn is played next, if one is.
        prompt: Option<u64>,
    },
}

impl View for MockStep {
    type V = MockStep<Seq<char>, Seq<JsonView>>;

    open spec fn view(&self) -> MockStep<Seq<char>, Seq<JsonView>> {
        match self {
            MockStep::Skip => MockStep::Skip,
            MockStep::Exit => MockStep::Exit,
            MockStep::Unreadable => MockStep::Unreadable,
            MockStep::Record { line } => MockStep::Record { line: line@ },
            MockStep::Answer { command, records, prompt } => MockStep::Answer {
                command: command@,
                records: json::items_view(records@),
                prompt: *prompt,
            },
        }
    }
}

/// The records that a command is answered with: the answer itself, and the
/// event that it brings about.
pub open spec fn records_for(
    o: MockOptions<Seq<char>>,
    s: MockState<Seq<char>>,
    command: JsonView,
    cost: JsonView,
) -> Seq<JsonView> {
    let kind = member_text(command, "type"@);
    let own = answer(
        member_text(command, "id"@),
        kind,
        failure_of(o, kind),
        data_for(s, kind, cost),
    );
    if kind == "set_session_name"@ {
        seq![own, renamed(changed(s, kind, command).session_name)]
    } else if kind == "abort"@ {
        seq![own, settled()]
    } else {
        seq![own]
    }
}

/// What is done about a record.
pub open spec fn record_step(
    o: MockOptions<Seq<char>>,
    s: MockState<Seq<char>>,
    line: Seq<char>,
    command: JsonView,
    cost: JsonView,
) -> MockStep<Seq<char>, Seq<JsonView>> {
    let kind = member_text(command, "type"@);
    if kind == "extension_ui_response"@ {
        MockStep::Record { line }
    } else {
        MockStep::Answer {
            command: kind,
            records: records_for(o, s, command, cost),
            prompt: if kind == "prompt"@ && o.prompt_error is None {
                Some((s.prompts + 1) as u64)
            } else {
                None
            },
        }
    }
}

/// The state behind a record.
pub open spec fn state_behind(
    o: MockOptions<Seq<char>>,
    s: MockState<Seq<char>>,
    command: JsonView,
) -> MockState<Seq<char>> {
    let kind = member_text(command, "type"@);
    if kind == "extension_ui_response"@ {
        s
    } else {
        MockState {
            handled: (s.handled + 1) as u64,
            prompts: if kind == "prompt"@ && o.prompt_error is None {
                (s.prompts + 1) as u64
            } else {
                s.prompts
            },
            ..changed(s, kind, command)
        }
    }
}

/// What is decided about a line before it is read as a record: blank lines are
/// passed over, the process exits with the command that it has been given up
/// to, and one that hangs answers nothing.
pub open spec fn line_step(o: MockOptions<Seq<char>>, handled: u64, line: Seq<char>) -> Option<
    MockStep<Seq<char>, Seq<JsonView>>,
> {
    if text::trimmed(line).len() == 0 {
        Some(MockStep::Skip)
    } else if o.exit_after matches Some(n) && handled + 1 >= n {
        Some(MockStep::Exit)
    } else if o.hang {
        Some(MockStep::Skip)
    } else {
        None
    }
}

/// The cost in the statistics.
pub open spec fn cost_value() -> JsonView {
    match json::json_in("0.0123"@) {
        Some(v) => v,
        None => JsonView::Null,
    }
}

fn member_of<'a>(v: &'a Json, name: &str) -> (r: &'a str)
    ensures
        r@ == member_text(v@, name@),
{
    proof {
        reveal_strlit("");
        assert(""@ =~= Seq::<char>::empty());
    }
    match v.get_str(name) {
        Some(s) => s,
        None => "",
    }
}

/// The event that ends a turn.
pub fn settled_event() -> (r: Json)
    ensures
        r@ == settled(),
{
    broadcast use crate::json::json_view;

    Json::Object(JsonMap::new().with("type", Json::text("agent_settled")))
}

fn answer_json(id: &str, kind: &str, failure: Option<&str>, data: Option<Json>) -> (r: Json)
    ensures
        r@ == answer(id@, kind@, text::opt_str(failure), json::opt_view(data)),
{
    broadcast use crate::json::json_view;

    let base = JsonMap::new().with("id", Json::text(id)).with("type", Json::text("response")).with(
        "command",
        Json::text(kind),
    ).with("success", Json::Bool(failure.is_none()));
    match failure {
        Some(e) => Json::Object(base.with("error", Json::text(e))),
        None => Json::Object(base.with_opt("data", data)),
    }
}

fn failure_for<'a>(o: &'a MockOptions, kind: &str) -> (r: Option<&'a str>)
    ensures
        text::opt_str(r) == failure_of(o@, kind@),
{
    let failure = if text::same(kind, "prompt") {
        &o.prompt_error
    } else if text::same(kind, "get_available_models") {
        &o.models_error
    } else {
        return None;
    };
    match failure {
        Some(e) => Some(e.as_str()),
        None => None,
    }
}

impl MockState {
    /// Whether another command can be counted.
    pub fn has_room(&self) -> (r: bool)
        ensures
            r == (self@.handled < u64::MAX && self@.prompts < u64::MAX),
    {
        self.handled < u64::MAX && self.prompts < u64::MAX
    }

    /// What is done about a record; `line` is the line that it stood on and
    /// `cost` the cost in the statistics.
    pub fn on_record(&mut self, o: &MockOptions, line: &str, command: &Json, cost: Json) -> (r:
        MockStep)
        requires
            old(self)@.handled < u64::MAX,
            old(self)@.prompts < u64::MAX,
        ensures
            r@ == record_step(o@, old(self)@, line@, command@, cost@),
            final(self)@ == state_behind(o@, old(self)@, command@),
    {
        broadcast use crate::json::json_view;

        let kind = member_of(command, "type");
        if text::same(kind, "extension_ui_response") {
            return MockStep::Record { line: line.to_owned() };
        }
        let ghost before = self@;
        let failure = failure_for(o, kind);
        let data = mock_data(self, kind, cost);
        let own = answer_json(member_of(command, "id"), kind, failure, data);
        self.change(kind, command);
        let mut records: Vec<Json> = Vec::new();
        records.push(own);
        assert(json::items_view(records@) =~= seq![own@]);
        if text::same(kind, "set_session_name") {
            let event = Json::Object(
                JsonMap::new().with("type", Json::text("session_info_changed")).with(
                    "name",
                    Json::text(self.session_name.as_str()),
                ),
            );
            records.push(event);
            assert(json::items_view(records@) =~= seq![own@, event@]);
        } else if text::same(kind, "abort") {
            let event = settled_event();
            records.push(event);
            assert(json::items_view(records@) =~= seq![own@, event@]);
        }
        self.handled = self.handled + 1;
        let prompt = if text::same(kind, "prompt") && o.prompt_error.is_none() {
            self.prompts = self.prompts + 1;
            Some(self.prompts)
        } else {
            None
        };
        assert(json::items_view(records@) == records_for(o@, before, command@, cost@));
        MockStep::Answer { command: kind.to_owned(), records, prompt }
    }

    /// What is done about a line.
    pub fn on_line(&mut self, o: &MockOptions, line: &str) -> (r: MockStep)
        requires
            old(self)@.handled < u64::MAX,
            old(self)@.prompts < u64::MAX,
        ensures
            match line_step(o@, old(self)@.handled, line@) {
                Some(step) => r@ == step && final(self)@ == old(self)@,
                None => match json::json_in(text::trimmed(line@)) {
                    Some(v) => r@ == record_step(
                        o@,
                        old(self)@,
                        text::trimmed(line@),
                        v,
                        cost_value(),
                    ) && final(self)@ == state_behind(o@, old(self)@, v),
                    None => r@ is Unreadable && final(self)@ == old(self)@,
                },
            },
    {
        broadcast use crate::json::json_view;

        let trimmed = text::trim(line);
        if trimmed.unicode_len() == 0 {
            return MockStep::Skip;
        }
        if let Some(n) = o.exit_after {
            if self.handled + 1 >= n {
                return MockStep::Exit;
            }
        }
        if o.hang {
            return MockStep::Skip;
        }
        let cost = match json::parse("0.0123") {
            Some(v) => v,
            None => Json::Null,
        };
        match json::parse(trimmed) {
            Some(command) => self.on_record(o, trimmed, &command, cost),
            None => MockStep::Unreadable,
        }
    }
}

// ---------------------------------------------------------------------------
// Turns
// ---------------------------------------------------------------------------

/// The turn that is played when there is no scenario: a piece of text with its
/// usage, and the end.
pub open spec fn plain_turn() -> Seq<JsonView> {
    let usage = put_count(
        put_count(
            put_count(
                put_count(put_count(Seq::empty(), "input"@, 10), "output"@, 5),
                "cacheRead"@,
                0,
            ),
            "cacheWrite"@,
            0,
        ),
        "totalTokens"@,
        15,
    );
    let delta = put_text(
        put_count(put_text(Seq::empty(), "type"@, "text_delta"@), "contentIndex"@, 0),
        "delta"@,
        "hello from mock"@,
    );
    seq![
        JsonView::Object(
            json::put(
                json::put(
                    put_text(Seq::empty(), "type"@, "message_update"@),
                    "usage"@,
                    JsonView::Object(usage),
                ),
                "assistantMessageEvent"@,
                JsonView::Object(delta),
            ),
        ),
        settled(),
    ]
}

/// The turn that is played when there is no scenario.
pub fn default_prompt_response() -> (r: Vec<Json>)
    ensures
        json::items_view(r@) == plain_turn(),
{
    broadcast use crate::json::json_view;

    let usage = JsonMap::new().with("input", Json::unsigned(10)).with(
        "output",
        Json::unsigned(5),
    ).with("cacheRead", Json::unsigned(0)).with("cacheWrite", Json::unsigned(0)).with(
        "totalTokens",
        Json::unsigned(15),
    );
    let delta = JsonMap::new().with("type", Json::text("text_delta")).with(
        "contentIndex",
        Json::unsigned(0),
    ).with("delta", Json::text("hello from mock"));
    let update = Json::Object(
        JsonMap::new().with("type", Json::text("message_update")).with(
            "usage",
            Json::Object(usage),
        ).with("assistantMessageEvent", Json::Object(delta)),
    );
    let mut out: Vec<Json> = Vec::new();
    out.push(update);
    out.push(settled_event());
    assert(json::items_view(out@) =~= plain_turn());
    out
}

/// A step of a scenario. `T` is the type of its texts.
#[derive(Debug)]
pub enum ScenarioStep<T = String> {
    /// Write a file.
    WriteFile {
        /// Where.
        path: T,
        /// What.
        content: T,
    },
    /// Delete a file.
    DeleteFile {
        /// Which.
        path: T,
    },
    /// Wait.
    Wait {
        /// How long, in milliseconds.
        ms: u64,
    },
    /// Send a line.
    Emit {
        /// The line.
        line: T,
        /// Whether an answer has to come before the next step.
        awaits_answer: bool,
        /// Whether the line ends the turn.
        settles: bool,
    },
    /// Give up.
    Fail {
        /// Why.
        message: T,
    },
}

impl View for ScenarioStep {
    type V = ScenarioStep<Seq<char>>;

    open spec fn view(&self) -> ScenarioStep<Seq<char>> {
        match self {
            ScenarioStep::WriteFile { path, content } => ScenarioStep::WriteFile {
                path: path@,
                content: content@,
            },
            ScenarioStep::DeleteFile { path } => ScenarioStep::DeleteFile { path: path@ },
            ScenarioStep::Wait { ms } => ScenarioStep::Wait { ms: *ms },
            ScenarioStep::Emit { line, awaits_answer, settles } => ScenarioStep::Emit {
                line: line@,
                awaits_answer: *awaits_answer,
                settles: *settles,
            },
            ScenarioStep::Fail { message } => ScenarioStep::Fail { message: message@ },
        }
    }
}

/// The models of a list of steps.
pub open spec fn step_views(v: Seq<ScenarioStep>) -> Seq<ScenarioStep<Seq<char>>> {
    v.map_values(|s: ScenarioStep| s@)
}

/// The step that a record of a scenario is: what its directive says, or else
/// the line itself is sent.
pub open spec fn scenario_step(v: JsonView, line: Seq<char>) -> ScenarioStep<Seq<char>> {
    let directive = json::str_member(v, "__directive__"@);
    if directive == Some("write_file"@) {
        match json::str_member(v, "path"@) {
            Some(path) => ScenarioStep::WriteFile { path, content: member_text(v, "content"@) },
            None => ScenarioStep::Fail { message: "write_file directive needs a path"@ },
        }
    } else if directive == Some("delete_file"@) {
        match json::str_member(v, "path"@) {
            Some(path) => ScenarioStep::DeleteFile { path },
            None => ScenarioStep::Fail { message: "delete_file directive needs a path"@ },
        }
    } else if directive == Some("wait_ms"@) {
        ScenarioStep::Wait {
            ms: match json::u64_member(v, "ms"@) {
                Some(n) => n,
                None => 0,
            },
        }
    } else {
        ScenarioStep::Emit {
            line,
            awaits_answer: json::str_member(v, "type"@) == Some("extension_ui_request"@),
            settles: json::str_member(v, "type"@) == Some("agent_settled"@),
        }
    }
}

/// The step that a record of a scenario is.
pub fn step_from(v: &Json, line: &str) -> (r: ScenarioStep)
    ensures
        r@ == scenario_step(v@, line@),
{
    if let Some(d) = v.get_str("__directive__") {
        if text::same(d, "write_file") {
            return match v.get_str("path") {
                Some(path) => ScenarioStep::WriteFile {
                    path: path.to_owned(),
                    content: member_of(v, "content").to_owned(),
                },
                None => ScenarioStep::Fail {
                    message: "write_file directive needs a path".to_owned(),
                },
            };
        }
        if text::same(d, "delete_file") {
            return match v.get_str("path") {
                Some(path) => ScenarioStep::DeleteFile { path: path.to_owned() },
                None => ScenarioStep::Fail {
                    message: "delete_file directive needs a path".to_owned(),
                },
            };
        }
        if text::same(d, "wait_ms") {
            let ms: u64 = match v.get_u64("ms") {
                Some(n) => n,
                None => 0,
            };
            return ScenarioStep::Wait { ms };
        }
    }
    let (awaits_answer, settles) = match v.get_str("type") {
        Some(t) => (text::same(t, "extension_ui_request"), text::same(t, "agent_settled")),
        None => (false, false),
    };
    ScenarioStep::Emit { line: line.to_owned(), awaits_answer, settles }
}

/// The steps of the lines of a scenario, up to the first that fails; blank
/// lines are passed over, and a line that is no record fails.
pub open spec fn steps_in(lines: Seq<Seq<char>>) -> Seq<ScenarioStep<Seq<char>>>
    decreases lines.len(),
{
    if lines.len() == 0 {
        Seq::empty()
    } else {
        let line = text::trimmed(lines[0]);
        if line.len() == 0 {
            steps_in(lines.skip(1))
        } else {
            let step = match json::json_in(line) {
                Some(v) => scenario_step(v, line),
                None => ScenarioStep::Fail { message: "the line is no JSON"@ },
            };
            if step is Fail {
                seq![step]
            } else {
                seq![step] + steps_in(lines.skip(1))
            }
        }
    }
}

/// Whether a step ends the turn, or the scenario.
pub open spec fn ends(s: ScenarioStep<Seq<char>>) -> bool {
    match s {
        ScenarioStep::Emit { settles, .. } => settles,
        ScenarioStep::Fail { .. } => true,
        _ => false,
    }
}

/// Whether one of the steps ends the turn, or the scenario.
pub open spec fn any_ends(steps: Seq<ScenarioStep<Seq<char>>>) -> bool {
    exists|i: int| 0 <= i < steps.len() && ends(#[trigger] steps[i])
}

/// The line that ends a turn.
pub open spec fn settled_line() -> ScenarioStep<Seq<char>> {
    ScenarioStep::Emit {
        line: "{\"type\":\"agent_settled\"}"@,
        awaits_answer: false,
        settles: true,
    }
}

/// The steps of a scenario: those of its lines, and the end of the turn unless
/// the scenario has one or turns are left open.
pub open spec fn scenario(content: Seq<char>, no_settle: bool) -> Seq<ScenarioStep<Seq<char>>> {
    let steps = steps_in(text::lines_of(content));
    if no_settle || any_ends(steps) {
        steps
    } else {
        steps.push(settled_line())
    }
}

/// The steps of a scenario.
pub fn replay_scenario(content: &str, no_settle: bool) -> (r: Vec<ScenarioStep>)
    ensures
        step_views(r@) == scenario(content@, no_settle),
{
    let lines = text::lines(content);
    let ghost all = text::texts(lines@);
    let ghost whole = steps_in(all);
    let mut out: Vec<ScenarioStep> = Vec::new();
    let mut ended = false;
    let mut i: usize = 0;
    proof {
        assert(all.skip(0) =~= all);
        assert(step_views(out@) =~= Seq::<ScenarioStep<Seq<char>>>::empty());
        assert(step_views(out@) + whole =~= whole);
    }
    while i < lines.len()
        invariant_except_break
            step_views(out@) + steps_in(all.skip(i as int)) == whole,
        invariant
            i <= lines@.len(),
            all == text::texts(lines@),
            ended == any_ends(step_views(out@)),
        ensures
            step_views(out@) == whole,
        decreases lines.len() - i,
    {
        let ghost rest = all.skip(i as int);
        proof {
            assert(rest[0] == lines@[i as int]@);
            assert(rest.skip(1) =~= all.skip(i + 1));
        }
        let line = text::trim(lines[i].as_str());
        if line.unicode_len() > 0 {
            let step = match json::parse(line) {
                Some(v) => step_from(&v, line),
                None => ScenarioStep::Fail { message: "the line is no JSON".to_owned() },
            };
            let ghost before = step_views(out@);
            let failed = matches!(step, ScenarioStep::Fail { .. });
            let last = match &step {
                ScenarioStep::Emit { settles, .. } => *settles,
                ScenarioStep::Fail { .. } => true,
                _ => false,
            };
            out.push(step);
            proof {
                let after = step_views(out@);
                assert(after =~= before.push(step@));
                assert(any_ends(after) == (any_ends(before) || last)) by {
                    assert(after[before.len() as int] == step@);
                    if any_ends(before) {
                        let k = choose|k: int| 0 <= k < before.len() && ends(before[k]);
                        assert(after[k] == before[k]);
                    }
                    if any_ends(after) {
                        let k = choose|k: int| 0 <= k < after.len() && ends(after[k]);
                        if k < before.len() {
                            assert(before[k] == after[k]);
                        }
                    }
                }
            }
            ended = ended || last;
            if failed {
                assert(before + seq![step@] =~= before.push(step@));
                break;
            }
            assert(before + (seq![step@] + steps_in(rest.skip(1))) =~= before.push(step@)
                + steps_in(rest.skip(1)));
        }
        i += 1;
        proof {
            if i == lines@.len() {
                assert(all.skip(i as int) =~= Seq::<Seq<char>>::empty());
                assert(step_views(out@) + Seq::<ScenarioStep<Seq<char>>>::empty() =~= step_views(
                    out@,
                ));
            }
        }
    }
    if !no_settle && !ended {
        let ghost before = step_views(out@);
        out.push(
            ScenarioStep::Emit {
                line: "{\"type\":\"agent_settled\"}".to_owned(),
                awaits_answer: false,
                settles: true,
            },
        );
        assert(step_views(out@) =~= before.push(settled_line()));
    }
    out
}

/// Whether a record is the answer to an extension.
pub open spec fn is_answer(v: Option<JsonView>) -> bool {
    match v {
        Some(x) => json::str_member(x, "type"@) == Some("extension_ui_response"@),
        None => false,
    }
}

/// Whether a line is the answer that a scenario waits for.
pub fn is_extension_response(line: &str) -> (r: bool)
    ensures
        r == (text::trimmed(line@).len() > 0 && is_answer(json::json_in(text::trimmed(line@)))),
{
    let trimmed = text::trim(line);
    if trimmed.unicode_len() == 0 {
        return false;
    }
    match json::parse(trimmed) {
        Some(v) => match v.get_str("type") {
            Some(t) => text::same(t, "extension_ui_response"),
            None => false,
        },
        None => false,
    }
}

// ---------------------------------------------------------------------------
// Laws
// ---------------------------------------------------------------------------

proof fn level_is_reported(s: MockState<Seq<char>>)
    ensures
        json::str_member(state_data(s), "thinkingLevel"@) == Some(s.thinking_level),
{
    reveal_strlit("thinkingLevel");
    reveal_strlit("isStreaming");
    reveal_strlit("isCompacting");
    reveal_strlit("steeringMode");
    reveal_strlit("followUpMode");
    reveal_strlit("sessionFile");
    reveal_strlit("sessionId");
    reveal_strlit("sessionName");
    reveal_strlit("autoCompactionEnabled");
    reveal_strlit("messageCount");
    reveal_strlit("pendingMessageCount");
    let level = "thinkingLevel"@;
    assert(level.len() == 13);
    let model = JsonView::Object(mock_model(s.model, "Mock Model"@, 1000, Some(100int)));
    let no = JsonView::Bool(false);
    let e0 = json::put(Seq::empty(), "model"@, model);
    let e1 = put_text(e0, level, s.thinking_level);
    json::put_then_entry(e0, level, JsonView::Str(s.thinking_level));
    let e2 = json::put(e1, "isStreaming"@, no);
    json::put_keeps_others(e1, "isStreaming"@, no, level);
    let e3 = json::put(e2, "isCompacting"@, no);
    json::put_keeps_others(e2, "isCompacting"@, no, level);
    let e4 = put_text(e3, "steeringMode"@, s.steering_mode);
    json::put_keeps_others(e3, "steeringMode"@, JsonView::Str(s.steering_mode), level);
    let e5 = put_text(e4, "followUpMode"@, s.follow_up_mode);
    json::put_keeps_others(e4, "followUpMode"@, JsonView::Str(s.follow_up_mode), level);
    let file = "/tmp/mock-session.jsonl"@;
    let e6 = put_text(e5, "sessionFile"@, file);
    json::put_keeps_others(e5, "sessionFile"@, JsonView::Str(file), level);
    let e7 = put_text(e6, "sessionId"@, "mock-session-id"@);
    json::put_keeps_others(e6, "sessionId"@, JsonView::Str("mock-session-id"@), level);
    let e8 = put_text(e7, "sessionName"@, s.session_name);
    json::put_keeps_others(e7, "sessionName"@, JsonView::Str(s.session_name), level);
    let e9 = json::put(e8, "autoCompactionEnabled"@, JsonView::Bool(s.auto_compaction));
    json::put_keeps_others(
        e8,
        "autoCompactionEnabled"@,
        JsonView::Bool(s.auto_compaction),
        level,
    );
    let e10 = put_count(e9, "messageCount"@, 3);
    json::put_keeps_others(e9, "messageCount"@, JsonView::Number(NumberView::Int(3)), level);
    json::put_keeps_others(
        e10,
        "pendingMessageCount"@,
        JsonView::Number(NumberView::Int(0)),
        level,
    );
}

/// A thinking level that is set is the one that is reported from then on.
pub proof fn a_level_that_is_set_is_reported(s: MockState<Seq<char>>, command: JsonView)
    requires
        json::str_member(command, "level"@) is Some,
    ensures
        json::str_member(
            state_data(changed(s, "set_thinking_level"@, command)),
            "thinkingLevel"@,
        ) == json::str_member(command, "level"@),
{
    level_is_reported(changed(s, "set_thinking_level"@, command));
}

/// A turn that is played ends, unless turns are left open.
pub proof fn every_turn_ends(content: Seq<char>)
    ensures
        any_ends(scenario(content, false)),
{
    let steps = steps_in(text::lines_of(content));
    if !any_ends(steps) {
        let all = steps.push(settled_line());
        assert(ends(all[steps.len() as int]));
    }
}

/// Commands that only ask leave the state as it was, but for the count.
pub proof fn asking_changes_nothing(
    o: MockOptions<Seq<char>>,
    s: MockState<Seq<char>>,
    command: JsonView,
)
    requires
        member_text(command, "type"@) == "get_state"@ || member_text(command, "type"@)
            == "get_messages"@,
        s.handled < u64::MAX,
    ensures
        state_behind(o, s, command) == (MockState { handled: (s.handled + 1) as u64, ..s }),
{
    reveal_strlit("get_state");
    reveal_strlit("get_messages");
    reveal_strlit("extension_ui_response");
    reveal_strlit("prompt");
    reveal_strlit("set_thinking_level");
    reveal_strlit("set_model");
    reveal_strlit("set_auto_compaction");
    reveal_strlit("set_steering_mode");
    reveal_strlit("set_follow_up_mode");
    reveal_strlit("set_session_name");
    assert("get_state"@.len() == 9 && "get_messages"@.len() == 12);
    assert("set_model"@.len() == 9);
    assert("set_model"@[0] != "get_state"@[0]);
}

/// Every command is answered first of all, under its own id and kind. It
/// succeeds unless the options have a failure for it, which is told then.
pub proof fn commands_are_answered(
    o: MockOptions<Seq<char>>,
    s: MockState<Seq<char>>,
    command: JsonView,
    cost: JsonView,
)
    ensures
        ({
            let r = records_for(o, s, command, cost);
            let kind = member_text(command, "type"@);
            let failure = if kind == "prompt"@ {
                o.prompt_error
            } else if kind == "get_available_models"@ {
                o.models_error
            } else {
                None
            };
            &&& r.len() > 0
            &&& json::member(r[0], "id"@) == Some(JsonView::Str(member_text(command, "id"@)))
            &&& json::member(r[0], "type"@) == Some(JsonView::Str("response"@))
            &&& json::member(r[0], "command"@) == Some(JsonView::Str(kind))
            &&& json::member(r[0], "success"@) == Some(JsonView::Bool(failure is None))
            &&& failure matches Some(e) ==> json::member(r[0], "error"@) == Some(JsonView::Str(e))
        }),
{
    broadcast use json::entry_of_put;

    reveal_strlit("id");
    reveal_strlit("type");
    reveal_strlit("command");
    reveal_strlit("success");
    reveal_strlit("error");
    reveal_strlit("data");
    assert("id"@.len() == 2 && "type"@.len() == 4 && "command"@.len() == 7);
    assert("success"@.len() == 7 && "error"@.len() == 5 && "data"@.len() == 4);
    assert("type"@[0] != "data"@[0]);
    assert("command"@[0] != "success"@[0]);
}

/// A name that is given is told, and an abort ends the turn; other commands are
/// answered and no more.
pub proof fn changes_are_told(
    o: MockOptions<Seq<char>>,
    s: MockState<Seq<char>>,
    command: JsonView,
    cost: JsonView,
    name: Seq<char>,
)
    ensures
        ({
            let r = records_for(o, s, command, cost);
            let kind = member_text(command, "type"@);
            &&& kind == "set_session_name"@ ==> r.len() == 2 && json::member(r[1], "type"@) == Some(
                JsonView::Str("session_info_changed"@),
            )
            &&& kind == "set_session_name"@ && json::member(command, "name"@) == Some(
                JsonView::Str(name),
            ) ==> json::member(r[1], "name"@) == Some(JsonView::Str(name))
            &&& kind == "abort"@ ==> r.len() == 2 && json::member(r[1], "type"@) == Some(
                JsonView::Str("agent_settled"@),
            )
            &&& kind != "set_session_name"@ && kind != "abort"@ ==> r.len() == 1
        }),
{
    broadcast use json::entry_of_put;

    reveal_strlit("type");
    reveal_strlit("name");
    reveal_strlit("abort");
    reveal_strlit("set_session_name");
    reveal_strlit("set_thinking_level");
    reveal_strlit("set_model");
    reveal_strlit("set_auto_compaction");
    reveal_strlit("set_steering_mode");
    reveal_strlit("set_follow_up_mode");
    assert("type"@.len() == 4 && "name"@.len() == 4 && "abort"@.len() == 5);
    assert("set_session_name"@.len() == 16 && "set_thinking_level"@.len() == 18 && "set_model"@.len() == 9);
    assert("set_auto_compaction"@.len() == 19 && "set_steering_mode"@.len() == 17 && "set_follow_up_mode"@.len() == 18);
    assert("type"@[0] != "name"@[0]);
    assert("set_thinking_level"@[4] != "set_follow_up_mode"@[4]);
}

/// The state is reported member by member.
proof fn state_is_reported(s: MockState<Seq<char>>)
    ensures
        json::member(state_data(s), "steeringMode"@) == Some(JsonView::Str(s.steering_mode)),
        json::member(state_data(s), "followUpMode"@) == Some(JsonView::Str(s.follow_up_mode)),
        json::member(state_data(s), "sessionName"@) == Some(JsonView::Str(s.session_name)),
        json::member(state_data(s), "autoCompactionEnabled"@) == Some(
            JsonView::Bool(s.auto_compaction),
        ),
        json::member(state_data(s), "model"@) matches Some(m) && json::member(m, "id"@) == Some(
            JsonView::Str(s.model),
        ),
{
    broadcast use json::entry_of_put;

    reveal_strlit("model");
    reveal_strlit("thinkingLevel");
    reveal_strlit("isStreaming");
    reveal_strlit("isCompacting");
    reveal_strlit("steeringMode");
    reveal_strlit("followUpMode");
    reveal_strlit("sessionFile");
    reveal_strlit("sessionId");
    reveal_strlit("sessionName");
    reveal_strlit("autoCompactionEnabled");
    reveal_strlit("messageCount");
    reveal_strlit("pendingMessageCount");
    assert("model"@.len() == 5 && "thinkingLevel"@.len() == 13 && "isStreaming"@.len() == 11);
    assert("isCompacting"@.len() == 12 && "steeringMode"@.len() == 12 && "followUpMode"@.len() == 12);
    assert("sessionFile"@.len() == 11 && "sessionId"@.len() == 9 && "sessionName"@.len() == 11);
    assert("autoCompactionEnabled"@.len() == 21 && "messageCount"@.len() == 12 && "pendingMessageCount"@.len() == 19);
    assert("isStreaming"@[0] != "sessionFile"@[0]);
    assert("isStreaming"@[0] != "sessionName"@[0]);
    assert("sessionFile"@[7] != "sessionName"@[7]);
    assert("isCompacting"@[0] != "steeringMode"@[0]);
    assert("isCompacting"@[0] != "followUpMode"@[0]);
    assert("isCompacting"@[0] != "messageCount"@[0]);
    assert("steeringMode"@[0] != "followUpMode"@[0]);
    assert("steeringMode"@[0] != "messageCount"@[0]);
    assert("followUpMode"@[0] != "messageCount"@[0]);
    model_is_reported(s.model);
}

proof fn model_is_reported(id: Seq<char>)
    ensures
        json::member(
            JsonView::Object(mock_model(id, "Mock Model"@, 1000, Some(100int))),
            "id"@,
        ) == Some(JsonView::Str(id)),
{
    broadcast use json::entry_of_put;

    reveal_strlit("id");
    reveal_strlit("name");
    reveal_strlit("provider");
    reveal_strlit("contextWindow");
    reveal_strlit("maxTokens");
    reveal_strlit("reasoning");
    assert("id"@.len() == 2 && "name"@.len() == 4 && "provider"@.len() == 8);
    assert("contextWindow"@.len() == 13 && "maxTokens"@.len() == 9 && "reasoning"@.len() == 9);
    assert("maxTokens"@[0] != "reasoning"@[0]);
}

/// What a command sets is what is reported from then on.
pub proof fn what_is_set_is_reported(s: MockState<Seq<char>>, command: JsonView, t: Seq<char>, b: bool)
    ensures
        json::member(command, "mode"@) == Some(JsonView::Str(t)) ==> json::member(
            state_data(changed(s, "set_steering_mode"@, command)),
            "steeringMode"@,
        ) == Some(JsonView::Str(t)) && json::member(
            state_data(changed(s, "set_follow_up_mode"@, command)),
            "followUpMode"@,
        ) == Some(JsonView::Str(t)),
        json::member(command, "name"@) == Some(JsonView::Str(t)) ==> json::member(
            state_data(changed(s, "set_session_name"@, command)),
            "sessionName"@,
        ) == Some(JsonView::Str(t)),
        json::member(command, "enabled"@) == Some(JsonView::Bool(b)) ==> json::member(
            state_data(changed(s, "set_auto_compaction"@, command)),
            "autoCompactionEnabled"@,
        ) == Some(JsonView::Bool(b)),
        json::member(command, "modelId"@) == Some(JsonView::Str(t)) ==> (json::member(
            state_data(changed(s, "set_model"@, command)),
            "model"@,
        ) matches Some(m) && json::member(m, "id"@) == Some(JsonView::Str(t))),
{
    reveal_strlit("set_session_name");
    reveal_strlit("set_thinking_level");
    reveal_strlit("set_model");
    reveal_strlit("set_auto_compaction");
    reveal_strlit("set_steering_mode");
    reveal_strlit("set_follow_up_mode");
    assert("set_session_name"@.len() == 16 && "set_thinking_level"@.len() == 18 && "set_model"@.len() == 9);
    assert("set_auto_compaction"@.len() == 19 && "set_steering_mode"@.len() == 17 && "set_follow_up_mode"@.len() == 18);
    assert("set_thinking_level"@[4] != "set_follow_up_mode"@[4]);
    state_is_reported(changed(s, "set_steering_mode"@, command));
    state_is_reported(changed(s, "set_follow_up_mode"@, command));
    state_is_reported(changed(s, "set_session_name"@, command));
    state_is_reported(changed(s, "set_auto_compaction"@, command));
    state_is_reported(changed(s, "set_model"@, command));
}

/// Whether a line is a record that is sent as it is.
pub open spec fn is_sent(line: Seq<char>) -> bool {
    &&& text::trimmed(line).len() > 0
    &&& json::json_in(text::trimmed(line)) matches Some(v) && json::member(v, "__directive__"@)
        is None
}

/// The records of a scenario are sent word for word and in their order, each
/// once.
pub proof fn records_are_sent_in_order(lines: Seq<Seq<char>>, k: int)
    requires
        forall|i: int| 0 <= i < lines.len() ==> is_sent(#[trigger] lines[i]),
        0 <= k < lines.len(),
    ensures
        steps_in(lines).len() == lines.len(),
        steps_in(lines)[k] matches ScenarioStep::Emit { line, .. } && line == text::trimmed(
            lines[k],
        ),
    decreases lines.len(),
{
    let rest = lines.skip(1);
    assert(is_sent(lines[0]));
    assert forall|i: int| 0 <= i < rest.len() implies is_sent(#[trigger] rest[i]) by {
        assert(rest[i] == lines[i + 1]);
    }
    if rest.len() > 0 {
        if k > 0 {
            records_are_sent_in_order(rest, k - 1);
            assert(rest[k - 1] == lines[k]);
        } else {
            records_are_sent_in_order(rest, 0);
        }
    }
}

/// An argument counts before the environment, which counts where no argument
/// was given.
pub proof fn arguments_come_before_the_environment(o: MockOptions<Seq<char>>, env: MockEnv)
    ensures
        ({
            let c = completed(o, env);
            &&& o.scenario_dir is Some ==> c.scenario_dir == o.scenario_dir
            &&& o.scenario_dir is None ==> c.scenario_dir == text::opt_text(env.scenario)
            &&& o.command_log is Some ==> c.command_log == o.command_log
            &&& o.command_log is None ==> c.command_log == text::opt_text(env.command_log)
            &&& o.prompt_error is Some ==> c.prompt_error == o.prompt_error
            &&& o.prompt_error is None ==> c.prompt_error == text::opt_text(env.prompt_error)
            &&& o.models_error is Some ==> c.models_error == o.models_error
            &&& o.models_error is None ==> c.models_error == text::opt_text(env.models_error)
            &&& o.exit_after is Some ==> c.exit_after == o.exit_after
            &&& (c.hang, c.unknown_event, c.no_settle, c.prelude, c.delay_ms, c.event_delay_ms) == (
                o.hang,
                o.unknown_event,
                o.no_settle,
                o.prelude,
                o.delay_ms,
                o.event_delay_ms,
            )
        }),
{
}

} // verus!
