//! The commands that the agent carries out itself, one step at a time: what
//! is asked of pi or read from disk, and what the user is told in the end.

use crate::commands;
use crate::error::AcpxError;
use crate::json;
use crate::json::{Json, JsonView};
use crate::path;
use crate::pi::process;
use crate::pi::rpc;
use crate::pi::rpc::{
    ImageContent, QueueMode, RpcCommand, RpcSessionState, StreamingBehavior, ThinkingLevel,
};
use crate::session::facts::{
    LinkChunkFact, LinkChunkView, OutboundMessage, OutboundView, SessionInfoFact, SessionInfoView,
    TextChunk, TextChunkKind, TextChunkView,
};
use crate::text;
use vstd::prelude::*;
use vstd::string::*;

verus! {

// ---------------------------------------------------------------------------
// Steps
// ---------------------------------------------------------------------------

/// What a command waits for. `T` is the type of its texts: the model is the
/// same value over character sequences.
#[derive(Debug)]
pub enum Waiting<T = String> {
    /// The compaction, with instructions or without.
    Compact {
        /// Whether there were instructions.
        custom: bool,
    },
    /// The statistics.
    Stats,
    /// The session's new name.
    Name {
        /// The name.
        name: T,
    },
    /// pi's state, to show or change how a queue is drained.
    QueueState {
        /// Whether it is the queue of steering messages.
        steering: bool,
        /// The mode asked for; empty to show the current one.
        choice: T,
    },
    /// The change of how a queue is drained.
    QueueSet {
        /// Whether it is the queue of steering messages.
        steering: bool,
        /// The mode asked for.
        choice: T,
    },
    /// pi's state, to export the session.
    ExportState,
    /// The export.
    Export,
    /// pi's state, to toggle automatic compaction.
    AutoState,
    /// The switch of automatic compaction.
    AutoSet {
        /// Whether it is on now.
        enabled: bool,
    },
}

impl View for Waiting {
    type V = Waiting<Seq<char>>;

    open spec fn view(&self) -> Waiting<Seq<char>> {
        match self {
            Waiting::Compact { custom } => Waiting::Compact { custom: *custom },
            Waiting::Stats => Waiting::Stats,
            Waiting::Name { name } => Waiting::Name { name: name@ },
            Waiting::QueueState { steering, choice } => Waiting::QueueState {
                steering: *steering,
                choice: choice@,
            },
            Waiting::QueueSet { steering, choice } => Waiting::QueueSet {
                steering: *steering,
                choice: choice@,
            },
            Waiting::ExportState => Waiting::ExportState,
            Waiting::Export => Waiting::Export,
            Waiting::AutoState => Waiting::AutoState,
            Waiting::AutoSet { enabled } => Waiting::AutoSet { enabled: *enabled },
        }
    }
}

/// What to do next.
#[derive(Debug)]
pub enum Step {
    /// Send a command to pi; its answer goes to [`on_answer`].
    Ask {
        /// The command.
        command: RpcCommand,
        /// What is waited for.
        waiting: Waiting,
    },
    /// Find and read pi's changelog; it goes to [`on_changelog`].
    ReadChangelog,
    /// Read the session's file; it goes to [`on_session_file`].
    ReadSessionFile {
        /// The file.
        path: String,
    },
    /// Send these and end the turn.
    Say(Vec<OutboundMessage>),
    /// Answer the prompt with an error of pi.
    Fail(AcpxError),
}

/// The model of a command that the agent sends.
pub enum CommandView {
    Compact(Option<Seq<char>>),
    GetSessionStats,
    GetState,
    SetSessionName(Seq<char>),
    SetSteeringMode(QueueMode),
    SetFollowUpMode(QueueMode),
    ExportHtml(Option<Seq<char>>),
    SetAutoCompaction(bool),
    Prompt(Seq<char>, Option<Seq<(Seq<char>, Seq<char>)>>, Option<StreamingBehavior>),
    Abort,
    GetAvailableModels,
    GetAvailableThinkingLevels,
    SetModel(Seq<char>, Seq<char>),
    SetThinkingLevel(ThinkingLevel),
    SwitchSession(Seq<char>),
    GetMessages,
    GetCommands,
}

/// The data and the types of images.
pub open spec fn image_views(v: Option<Vec<ImageContent>>) -> Option<Seq<(Seq<char>, Seq<char>)>> {
    match v {
        Some(x) => Some(x@.map_values(|i: ImageContent| (i.data@, i.mime_type@))),
        None => None,
    }
}

/// The model of a command that the agent sends.
pub open spec fn command_view(c: RpcCommand) -> CommandView {
    match c {
        RpcCommand::Compact { custom_instructions } => CommandView::Compact(
            text::opt_text(custom_instructions),
        ),
        RpcCommand::GetSessionStats => CommandView::GetSessionStats,
        RpcCommand::GetState => CommandView::GetState,
        RpcCommand::SetSessionName { name } => CommandView::SetSessionName(name@),
        RpcCommand::SetSteeringMode { mode } => CommandView::SetSteeringMode(mode),
        RpcCommand::SetFollowUpMode { mode } => CommandView::SetFollowUpMode(mode),
        RpcCommand::ExportHtml { output_path } => CommandView::ExportHtml(
            text::opt_text(output_path),
        ),
        RpcCommand::SetAutoCompaction { enabled } => CommandView::SetAutoCompaction(enabled),
        RpcCommand::Prompt { message, images, streaming_behavior } => CommandView::Prompt(
            message@,
            image_views(images),
            streaming_behavior,
        ),
        RpcCommand::Abort => CommandView::Abort,
        RpcCommand::GetAvailableModels => CommandView::GetAvailableModels,
        RpcCommand::GetAvailableThinkingLevels => CommandView::GetAvailableThinkingLevels,
        RpcCommand::SetModel { provider, model_id } => CommandView::SetModel(
            provider@,
            model_id@,
        ),
        RpcCommand::SetThinkingLevel { level } => CommandView::SetThinkingLevel(level),
        RpcCommand::SwitchSession { session_path } => CommandView::SwitchSession(session_path@),
        RpcCommand::GetMessages => CommandView::GetMessages,
        RpcCommand::GetCommands => CommandView::GetCommands,
    }
}

/// The models of a list of messages.
pub open spec fn message_views(v: Seq<OutboundMessage>) -> Seq<OutboundView> {
    v.map_values(|m: OutboundMessage| m@)
}

/// The model of a [`Step`].
pub enum StepView {
    Ask(CommandView, Waiting<Seq<char>>),
    ReadChangelog,
    ReadSessionFile(Seq<char>),
    Say(Seq<OutboundView>),
    Fail(AcpxError<Seq<char>>),
}

impl View for Step {
    type V = StepView;

    open spec fn view(&self) -> StepView {
        match self {
            Step::Ask { command, waiting } => StepView::Ask(command_view(*command), waiting@),
            Step::ReadChangelog => StepView::ReadChangelog,
            Step::ReadSessionFile { path } => StepView::ReadSessionFile(path@),
            Step::Say(messages) => StepView::Say(message_views(messages@)),
            Step::Fail(e) => StepView::Fail(e@),
        }
    }
}

/// A text that the agent says; it belongs to no message.
pub open spec fn said(session_id: Seq<char>, text: Seq<char>) -> OutboundView {
    OutboundView::TextChunk(
        TextChunkView {
            session_id,
            message_id: None,
            kind: TextChunkKind::Agent,
            text,
            meta: None,
        },
    )
}

/// Say one text and end the turn.
pub open spec fn say(session_id: Seq<char>, text: Seq<char>) -> StepView {
    StepView::Say(seq![said(session_id, text)])
}

/// A text that the agent says.
pub fn text_chunk(session_id: &str, text: String) -> (r: OutboundMessage)
    ensures
        r@ == said(session_id@, text@),
{
    OutboundMessage::TextChunk(
        TextChunk {
            session_id: session_id.to_owned(),
            message_id: None,
            kind: TextChunkKind::Agent,
            text,
            meta: None,
        },
    )
}

fn say_one(session_id: &str, text: String) -> (r: Step)
    ensures
        r@ == say(session_id@, text@),
{
    let mut v: Vec<OutboundMessage> = Vec::new();
    v.push(text_chunk(session_id, text));
    assert(message_views(v@) =~= seq![v@[0]@]);
    Step::Say(v)
}

fn ask(command: RpcCommand, waiting: Waiting) -> (r: Step)
    ensures
        r@ == StepView::Ask(command_view(command), waiting@),
{
    Step::Ask { command, waiting }
}

// ---------------------------------------------------------------------------
// Reading a command
// ---------------------------------------------------------------------------

/// The name of a command and the text behind it.
pub open spec fn words(message: Seq<char>) -> (Seq<char>, Seq<char>) {
    let t = text::trimmed(message);
    match text::cut(t, ' ') {
        Some((name, rest)) => (name.skip(1), rest),
        None => (t.skip(1), Seq::empty()),
    }
}

/// The arguments as one text without blanks around it; none when it is empty.
pub open spec fn joined_args(args: Seq<Seq<char>>) -> Option<Seq<char>> {
    let s = text::trimmed(text::joined(args, " "@));
    if s.len() == 0 {
        None
    } else {
        Some(s)
    }
}

/// The first argument in lower case; empty when there is none.
pub open spec fn lowered_first(args: Seq<Seq<char>>) -> Seq<char> {
    if args.len() == 0 {
        Seq::empty()
    } else {
        text::lowercased(args[0])
    }
}

/// What a word says about a switch.
pub open spec fn switch_of(word: Seq<char>) -> Option<bool> {
    if word == "on"@ || word == "true"@ || word == "enable"@ || word == "enabled"@ {
        Some(true)
    } else if word == "off"@ || word == "false"@ || word == "disable"@ || word == "disabled"@ {
        Some(false)
    } else {
        None
    }
}

/// The first step of switching automatic compaction: a word that says neither
/// on nor off toggles it.
pub open spec fn autocompact_step(word: Seq<char>) -> StepView {
    match switch_of(word) {
        Some(enabled) => StepView::Ask(
            CommandView::SetAutoCompaction(enabled),
            Waiting::AutoSet { enabled },
        ),
        None => StepView::Ask(CommandView::GetState, Waiting::AutoState),
    }
}

/// The first step of a command; none when the message is no command that the
/// agent carries out itself.
pub open spec fn first_step(session_id: Seq<char>, message: Seq<char>, images: bool) -> Option<
    StepView,
> {
    let args = commands::args_of(words(message).1);
    let name = words(message).0;
    if images || !text::begins(text::trimmed_start(message), "/"@) {
        None
    } else if name == "compact"@ {
        Some(
            StepView::Ask(
                CommandView::Compact(joined_args(args)),
                Waiting::Compact { custom: joined_args(args) is Some },
            ),
        )
    } else if name == "session"@ {
        Some(StepView::Ask(CommandView::GetSessionStats, Waiting::Stats))
    } else if name == "name"@ {
        match joined_args(args) {
            Some(n) => Some(
                StepView::Ask(CommandView::SetSessionName(n), Waiting::Name { name: n }),
            ),
            None => Some(say(session_id, "Usage: /name <name>"@)),
        }
    } else if name == "steering"@ || name == "follow-up"@ {
        Some(
            StepView::Ask(
                CommandView::GetState,
                Waiting::QueueState { steering: name == "steering"@, choice: lowered_first(args) },
            ),
        )
    } else if name == "changelog"@ {
        Some(StepView::ReadChangelog)
    } else if name == "export"@ {
        Some(StepView::Ask(CommandView::GetState, Waiting::ExportState))
    } else if name == "autocompact"@ {
        Some(autocompact_step(lowered_first(args)))
    } else {
        None
    }
}

fn joined_arguments(args: &Vec<String>) -> (r: Option<String>)
    ensures
        text::opt_text(r) == joined_args(text::texts(args@)),
{
    let joined = text::join(args, " ");
    let trimmed = text::trim(joined.as_str());
    if trimmed.unicode_len() == 0 {
        None
    } else {
        Some(trimmed.to_owned())
    }
}

fn lowered_first_of(args: &Vec<String>) -> (r: String)
    ensures
        r@ == lowered_first(text::texts(args@)),
{
    if args.len() == 0 {
        String::new()
    } else {
        assert(text::texts(args@)[0] == args@[0]@);
        args[0].as_str().to_lowercase()
    }
}

/// The first step of switching automatic compaction, given the word behind the
/// command in lower case.
pub fn begin_autocompact(word: &str) -> (r: Step)
    ensures
        r@ == autocompact_step(word@),
{
    if text::same(word, "on") || text::same(word, "true") || text::same(word, "enable")
        || text::same(word, "enabled") {
        ask(RpcCommand::SetAutoCompaction { enabled: true }, Waiting::AutoSet { enabled: true })
    } else if text::same(word, "off") || text::same(word, "false") || text::same(word, "disable")
        || text::same(word, "disabled") {
        ask(RpcCommand::SetAutoCompaction { enabled: false }, Waiting::AutoSet { enabled: false })
    } else {
        ask(RpcCommand::GetState, Waiting::AutoState)
    }
}

/// The first step of a command; none when the message is no command that the
/// agent carries out itself. A message with images never is one.
pub fn handle_builtin_command(session_id: &str, message: &str, images: bool) -> (r: Option<Step>)
    ensures
        (match r {
            Some(s) => Some(s@),
            None => None,
        }) == first_step(session_id@, message@, images),
{
    if images || !text::starts_with(text::trim_start(message), "/") {
        return None;
    }
    let trimmed = text::trim(message);
    proof {
        slash_stays(message@);
    }
    let n: usize = trimmed.unicode_len();
    let (name, rest): (&str, &str) = match text::split_once(trimmed, ' ') {
        Some((head, rest)) => {
            let k: usize = head.unicode_len();
            proof {
                reveal_strlit("/");
                cut_head_is_filled(trimmed@);
                assert(head@.subrange(1, k as int) =~= head@.skip(1));
            }
            (head.substring_char(1, k), rest)
        },
        None => {
            proof {
                assert(trimmed@.subrange(1, n as int) =~= trimmed@.skip(1));
                reveal_strlit("");
                assert(""@ =~= Seq::<char>::empty());
            }
            (trimmed.substring_char(1, n), "")
        },
    };
    let args = commands::parse_command_args(rest);
    if text::same(name, "compact") {
        let custom_instructions = joined_arguments(&args);
        let custom = custom_instructions.is_some();
        Some(ask(RpcCommand::Compact { custom_instructions }, Waiting::Compact { custom }))
    } else if text::same(name, "session") {
        Some(ask(RpcCommand::GetSessionStats, Waiting::Stats))
    } else if text::same(name, "name") {
        match joined_arguments(&args) {
            Some(n) => {
                let again = n.clone();
                Some(ask(RpcCommand::SetSessionName { name: n }, Waiting::Name { name: again }))
            },
            None => Some(say_one(session_id, "Usage: /name <name>".to_owned())),
        }
    } else if text::same(name, "steering") || text::same(name, "follow-up") {
        let steering = text::same(name, "steering");
        let choice = lowered_first_of(&args);
        Some(ask(RpcCommand::GetState, Waiting::QueueState { steering, choice }))
    } else if text::same(name, "changelog") {
        Some(Step::ReadChangelog)
    } else if text::same(name, "export") {
        Some(ask(RpcCommand::GetState, Waiting::ExportState))
    } else if text::same(name, "autocompact") {
        let word = lowered_first_of(&args);
        Some(begin_autocompact(word.as_str()))
    } else {
        None
    }
}

proof fn end_trim_keeps_first(s: Seq<char>)
    requires
        s.len() > 0,
        !text::is_white(s[0]),
    ensures
        text::trimmed_end(s).len() > 0,
        text::trimmed_end(s)[0] == s[0],
    decreases s.len(),
{
    if text::is_white(s.last()) {
        assert(s.len() > 1);
        end_trim_keeps_first(s.drop_last());
    }
}

/// A message that starts with a slash still does once it is trimmed.
proof fn slash_stays(message: Seq<char>)
    requires
        text::begins(text::trimmed_start(message), "/"@),
    ensures
        text::trimmed(message).len() > 0,
        text::trimmed(message)[0] == '/',
{
    reveal_strlit("/");
    let s = text::trimmed_start(message);
    assert("/"@.len() == 1 && "/"@[0] == '/');
    assert(s.subrange(0, 1)[0] == s[0]);
    end_trim_keeps_first(s);
}

/// The part before the first blank of a text that starts with a slash is not
/// empty.
proof fn cut_head_is_filled(s: Seq<char>)
    requires
        s.len() > 0,
        s[0] == '/',
    ensures
        text::cut(s, ' ') matches Some((head, rest)) ==> head.len() > 0,
{
    if text::cut(s, ' ') is Some {
        text::before_is_first(s, ' ');
    }
}

// ---------------------------------------------------------------------------
// What the user is told
// ---------------------------------------------------------------------------

/// What is told of a compaction.
pub open spec fn compaction_text(data: JsonView, custom: bool) -> Seq<char> {
    let first = if custom {
        "Compaction completed."@ + " (custom instructions applied)"@
    } else {
        "Compaction completed."@
    };
    let tokens = match json::u64_member(data, "tokensBefore"@) {
        Some(n) => first + "\nTokens before: "@ + text::decimal(n as nat),
        None => first,
    };
    match json::str_member(data, "summary"@) {
        Some(s) => tokens + "\n\n"@ + s,
        None => tokens,
    }
}

/// What is told of a compaction.
pub fn compaction_message(data: &Json, custom: bool) -> (r: String)
    ensures
        r@ == compaction_text(data@, custom),
{
    let mut out = if custom {
        text::cat2("Compaction completed.", " (custom instructions applied)")
    } else {
        "Compaction completed.".to_owned()
    };
    if let Some(n) = data.get_u64("tokensBefore") {
        let shown = text::decimal_text(n);
        out = text::cat3(out.as_str(), "\nTokens before: ", shown.as_str());
    }
    if let Some(s) = data.get_str("summary") {
        out = text::cat3(out.as_str(), "\n\n", s);
    }
    out
}

/// A line with a label, when there is something to show.
pub open spec fn labelled(label: Seq<char>, value: Option<Seq<char>>) -> Seq<Seq<char>> {
    match value {
        Some(v) => seq![label + v],
        None => Seq::empty(),
    }
}

/// A count as it is shown.
pub open spec fn shown_count(n: Option<u64>) -> Option<Seq<char>> {
    match n {
        Some(x) => Some(text::decimal(x as nat)),
        None => None,
    }
}

/// The counts of tokens that the statistics hold.
pub open spec fn token_parts(tokens: JsonView) -> Seq<Seq<char>> {
    labelled("in "@, shown_count(json::u64_member(tokens, "input"@))) + labelled(
        "out "@,
        shown_count(json::u64_member(tokens, "output"@)),
    ) + labelled("cache read "@, shown_count(json::u64_member(tokens, "cacheRead"@))) + labelled(
        "cache write "@,
        shown_count(json::u64_member(tokens, "cacheWrite"@)),
    ) + labelled("total "@, shown_count(json::u64_member(tokens, "total"@)))
}

/// The line with the counts of tokens, when there are some.
pub open spec fn token_line(tokens: Option<JsonView>) -> Seq<Seq<char>> {
    match tokens {
        Some(t) => if token_parts(t).len() == 0 {
            Seq::empty()
        } else {
            seq!["Tokens: "@ + text::joined(token_parts(t), ", "@)]
        },
        None => Seq::empty(),
    }
}

/// The lines that tell the statistics; `cost` is the cost as it is shown.
pub open spec fn stats_lines(stats: JsonView, cost: Option<Seq<char>>) -> Seq<Seq<char>> {
    labelled("Session: "@, json::str_member(stats, "sessionId"@)) + labelled(
        "Session file: "@,
        json::str_member(stats, "sessionFile"@),
    ) + labelled("Messages: "@, shown_count(json::u64_member(stats, "totalMessages"@))) + labelled(
        "Cost: "@,
        cost,
    ) + token_line(json::member(stats, "tokens"@))
}

/// What is told of the statistics: the lines, or the whole record, as it is
/// printed, when it holds nothing that is known.
pub open spec fn stats_text(
    stats: JsonView,
    cost: Option<Seq<char>>,
    printed: Seq<char>,
) -> Seq<char> {
    if stats_lines(stats, cost).len() == 0 {
        "Session stats:\n"@ + printed
    } else {
        text::joined(stats_lines(stats, cost), "\n"@)
    }
}

/// The cost in the statistics, as it is shown.
pub open spec fn shown_cost(stats: JsonView) -> Option<Seq<char>> {
    match json::member(stats, "cost"@) {
        Some(c) => json::float_shown(c),
        None => None,
    }
}

fn push_labelled(lines: Vec<String>, label: &str, value: Option<&str>) -> (r: Vec<String>)
    ensures
        text::texts(r@) == text::texts(lines@) + labelled(label@, text::opt_str(value)),
{
    let ghost before = text::texts(lines@);
    let mut out = lines;
    match value {
        Some(v) => {
            out.push(text::cat2(label, v));
            assert(text::texts(out@) =~= before + seq![label@ + v@]);
        },
        None => {
            assert(text::texts(out@) =~= before + Seq::<Seq<char>>::empty());
        },
    }
    out
}

fn push_count(lines: Vec<String>, label: &str, value: Option<u64>) -> (r: Vec<String>)
    ensures
        text::texts(r@) == text::texts(lines@) + labelled(label@, shown_count(value)),
{
    match value {
        Some(n) => {
            let shown = text::decimal_text(n);
            push_labelled(lines, label, Some(shown.as_str()))
        },
        None => push_labelled(lines, label, None),
    }
}

fn token_part_list(tokens: &Json) -> (r: Vec<String>)
    ensures
        text::texts(r@) == token_parts(tokens@),
{
    let none: Vec<String> = Vec::new();
    assert(text::texts(none@) + labelled(
        "in "@,
        shown_count(json::u64_member(tokens@, "input"@)),
    ) =~= labelled("in "@, shown_count(json::u64_member(tokens@, "input"@))));
    let parts = push_count(none, "in ", tokens.get_u64("input"));
    let parts = push_count(parts, "out ", tokens.get_u64("output"));
    let parts = push_count(parts, "cache read ", tokens.get_u64("cacheRead"));
    let parts = push_count(parts, "cache write ", tokens.get_u64("cacheWrite"));
    push_count(parts, "total ", tokens.get_u64("total"))
}

/// What is told of the statistics, given the cost as it is shown and the
/// record as it is printed.
pub fn stats_message(stats: &Json, cost: Option<&str>, printed: &str) -> (r: String)
    ensures
        r@ == stats_text(stats@, text::opt_str(cost), printed@),
{
    let none: Vec<String> = Vec::new();
    assert(text::texts(none@) + labelled("Session: "@, json::str_member(stats@, "sessionId"@))
        =~= labelled("Session: "@, json::str_member(stats@, "sessionId"@)));
    let lines = push_labelled(none, "Session: ", stats.get_str("sessionId"));
    let lines = push_labelled(lines, "Session file: ", stats.get_str("sessionFile"));
    let lines = push_count(lines, "Messages: ", stats.get_u64("totalMessages"));
    let mut lines = push_labelled(lines, "Cost: ", cost);
    let ghost before = text::texts(lines@);
    if let Some(tokens) = stats.get("tokens") {
        let parts = token_part_list(tokens);
        if parts.len() > 0 {
            let joined = text::join(&parts, ", ");
            lines.push(text::cat2("Tokens: ", joined.as_str()));
        }
    }
    assert(text::texts(lines@) =~= before + token_line(json::member(stats@, "tokens"@)));
    assert(text::texts(lines@) == stats_lines(stats@, text::opt_str(cost)));
    if lines.len() == 0 {
        text::cat2("Session stats:\n", printed)
    } else {
        text::join(&lines, "\n")
    }
}

/// What is told of the statistics.
pub fn session_stats_text(stats: &Json) -> (r: String)
    ensures
        r@ == stats_text(stats@, shown_cost(stats@), json::pretty_json(stats@)),
{
    let cost = match stats.get("cost") {
        Some(c) => c.shown_as_float(),
        None => None,
    };
    let printed = stats.pretty();
    let cost_ref: Option<&str> = match &cost {
        Some(c) => Some(c.as_str()),
        None => None,
    };
    stats_message(stats, cost_ref, printed.as_str())
}

/// How a queue mode is told.
pub open spec fn queue_mode_text(mode: QueueMode) -> Seq<char> {
    match mode {
        QueueMode::All => "all"@,
        QueueMode::OneAtATime => "one-at-a-time"@,
        QueueMode::Queue => "queue"@,
        QueueMode::Other => "unknown"@,
    }
}

/// How a queue mode is told.
pub fn queue_mode_str(mode: QueueMode) -> (r: &'static str)
    ensures
        r@ == queue_mode_text(mode),
{
    match mode {
        QueueMode::All => "all",
        QueueMode::OneAtATime => "one-at-a-time",
        QueueMode::Queue => "queue",
        QueueMode::Other => "unknown",
    }
}

/// The changelog as it is told: at most 20000 characters of it.
pub open spec fn changelog_text(content: Seq<char>) -> Seq<char> {
    if content.len() > 20_000 {
        content.take(20_000) + "\n\n...(truncated)..."@
    } else {
        content
    }
}

/// The name of the file that a session is exported to: what is no letter,
/// digit, underscore or hyphen in the session's id becomes an underscore.
pub open spec fn export_name(session_id: Seq<char>) -> Seq<char> {
    "pi-session-"@ + session_id.map_values(|c: char| safe_char(c)) + ".html"@
}

/// A character that can stand in a file name.
pub open spec fn safe_char(c: char) -> char {
    if 'a' <= c <= 'z' || 'A' <= c <= 'Z' || '0' <= c <= '9' || c == '_' || c == '-' {
        c
    } else {
        '_'
    }
}

/// The name of the file that a session is exported to.
pub fn export_file_name(session_id: &str) -> (r: String)
    ensures
        r@ == export_name(session_id@),
{
    let cs = text::chars_of(session_id);
    let mut out: Vec<char> = Vec::new();
    let mut i: usize = 0;
    while i < cs.len()
        invariant
            i <= cs@.len(),
            out@.len() == i,
            forall|k: int| 0 <= k < i ==> #[trigger] out@[k] == safe_char(cs@[k]),
        decreases cs.len() - i,
    {
        let c = cs[i];
        if ('a' <= c && c <= 'z') || ('A' <= c && c <= 'Z') || ('0' <= c && c <= '9') || c == '_'
            || c == '-' {
            out.push(c);
        } else {
            out.push('_');
        }
        i += 1;
    }
    let n: usize = out.len();
    let safe = text::string_of(&out, 0, n);
    assert(out@ =~= session_id@.map_values(|c: char| safe_char(c)));
    assert(out@.subrange(0, n as int) =~= out@);
    text::cat3("pi-session-", safe.as_str(), ".html")
}

/// The text for a session that has nothing to export.
pub open spec fn nothing_to_export() -> Seq<char> {
    "Nothing to export yet (no session messages). Send a prompt first."@
}

// ---------------------------------------------------------------------------
// Going on
// ---------------------------------------------------------------------------

/// The answer of pi as a model.
pub open spec fn answer_view(a: Result<Json, AcpxError>) -> Result<JsonView, AcpxError<Seq<char>>> {
    match a {
        Ok(d) => Ok(d@),
        Err(e) => Err(e@),
    }
}

/// The step that shows or changes how a queue is drained, once pi told its
/// state: without a mode the current one is shown, a mode that is not known is
/// refused.
pub open spec fn queue_step(
    session_id: Seq<char>,
    steering: bool,
    choice: Seq<char>,
    current: QueueMode,
) -> StepView {
    let title = if steering {
        "Steering"@
    } else {
        "Follow-up"@
    };
    let action = if steering {
        "steering"@
    } else {
        "follow-up"@
    };
    let mode = if choice == "all"@ {
        QueueMode::All
    } else {
        QueueMode::OneAtATime
    };
    if choice.len() == 0 {
        say(session_id, title + " mode: "@ + queue_mode_text(current))
    } else if choice != "all"@ && choice != "one-at-a-time"@ {
        say(
            session_id,
            "Usage: /"@ + action + " all | /"@ + action + " one-at-a-time"@,
        )
    } else {
        StepView::Ask(
            if steering {
                CommandView::SetSteeringMode(mode)
            } else {
                CommandView::SetFollowUpMode(mode)
            },
            Waiting::QueueSet { steering, choice },
        )
    }
}

/// The step that shows or changes how a queue is drained.
pub fn queue_mode_step(session_id: &str, steering: bool, choice: String, current: QueueMode) -> (r:
    Step)
    ensures
        r@ == queue_step(session_id@, steering, choice@, current),
{
    let title: &str = if steering {
        "Steering"
    } else {
        "Follow-up"
    };
    let action: &str = if steering {
        "steering"
    } else {
        "follow-up"
    };
    if choice.as_str().unicode_len() == 0 {
        return say_one(session_id, text::cat3(title, " mode: ", queue_mode_str(current)));
    }
    let all = text::same(choice.as_str(), "all");
    if !all && !text::same(choice.as_str(), "one-at-a-time") {
        return say_one(
            session_id,
            text::cat5("Usage: /", action, " all | /", action, " one-at-a-time"),
        );
    }
    let mode = if all {
        QueueMode::All
    } else {
        QueueMode::OneAtATime
    };
    if steering {
        ask(RpcCommand::SetSteeringMode { mode }, Waiting::QueueSet { steering, choice })
    } else {
        ask(RpcCommand::SetFollowUpMode { mode }, Waiting::QueueSet { steering, choice })
    }
}

/// What is told once the session was to be named.
pub open spec fn naming_step(
    session_id: Seq<char>,
    name: Seq<char>,
    failure: Option<AcpxError<Seq<char>>>,
    now: Seq<char>,
) -> StepView {
    match failure {
        None => StepView::Say(
            seq![
                OutboundView::SessionInfo(
                    SessionInfoView {
                        session_id,
                        title: Some(name),
                        updated_at: Some(now),
                        meta: None,
                    },
                ),
                said(session_id, "Session name set: "@ + name),
            ],
        ),
        Some(e) => say(
            session_id,
            "Failed to set session name: "@ + e.message() + (if text::has(
                e.message(),
                "set_session_name"@,
            ) {
                " This requires a newer pi version that supports `set_session_name` in RPC mode."@
            } else {
                Seq::empty()
            }),
        ),
    }
}

/// The step behind pi's state when the session is to be exported: a session
/// without a file or without messages has nothing to export.
pub open spec fn export_step(session_id: Seq<char>, file: Option<Seq<char>>, messages: u64) -> StepView {
    match file {
        Some(f) => if f.len() == 0 || messages == 0 {
            say(session_id, nothing_to_export())
        } else {
            StepView::ReadSessionFile(f)
        },
        None => say(session_id, nothing_to_export()),
    }
}

/// The step behind the session's file: an empty one has nothing to export.
pub open spec fn export_file_step(
    session_id: Seq<char>,
    cwd: Seq<char>,
    raw: Option<Seq<char>>,
    windows: bool,
) -> StepView {
    match raw {
        Some(r) => if text::trimmed(r).len() == 0 {
            say(session_id, nothing_to_export())
        } else {
            StepView::Ask(
                CommandView::ExportHtml(
                    Some(path::resolved(cwd, export_name(session_id), windows)),
                ),
                Waiting::Export,
            )
        },
        None => say(session_id, nothing_to_export()),
    }
}

/// What is told once the session was exported.
pub open spec fn exported_step(
    session_id: Seq<char>,
    answer: Result<JsonView, AcpxError<Seq<char>>>,
) -> StepView {
    match answer {
        Ok(data) => match json::str_member(data, "path"@) {
            Some(p) => if p.len() == 0 {
                say(session_id, "Export failed: no output path returned by pi."@)
            } else {
                StepView::Say(
                    seq![
                        said(session_id, "Session exported: "@),
                        OutboundView::LinkChunk(
                            LinkChunkView {
                                session_id,
                                message_id: None,
                                name: export_name(session_id),
                                uri: "file://"@ + p,
                                mime_type: Some("text/html"@),
                                title: Some("Session exported"@),
                            },
                        ),
                    ],
                )
            },
            None => say(
                session_id,
                "Export failed: "@ + (AcpxError::<Seq<char>>::RpcFailed {
                    command: "export_html"@,
                    message: "response missing data.path"@,
                }).message(),
            ),
        },
        Err(e) => say(session_id, "Export failed: "@ + e.message()),
    }
}

/// The step behind an answer of pi. `refusal` is what the JSON reader says of an
/// answer that is no state.
pub open spec fn next_step(
    session_id: Seq<char>,
    waiting: Waiting<Seq<char>>,
    answer: Result<JsonView, AcpxError<Seq<char>>>,
    now: Seq<char>,
    refusal: Seq<char>,
) -> StepView {
    match (waiting, answer) {
        (Waiting::Name { name }, Ok(_)) => naming_step(session_id, name, None, now),
        (Waiting::Name { name }, Err(e)) => naming_step(session_id, name, Some(e), now),
        (Waiting::Export, a) => exported_step(session_id, a),
        (_, Err(e)) => StepView::Fail(e),
        (Waiting::Compact { custom }, Ok(data)) => say(session_id, compaction_text(data, custom)),
        (Waiting::Stats, Ok(data)) => say(
            session_id,
            stats_text(data, shown_cost(data), json::pretty_json(data)),
        ),
        (Waiting::QueueState { steering, choice }, Ok(data)) => if rpc::readable_state(data) {
            queue_step(
                session_id,
                steering,
                choice,
                rpc::mode_member(
                    rpc::state_record(data),
                    if steering {
                        "steeringMode"@
                    } else {
                        "followUpMode"@
                    },
                )->0,
            )
        } else {
            StepView::Fail(AcpxError::Json(refusal))
        },
        (Waiting::QueueSet { steering, choice }, Ok(_)) => say(
            session_id,
            (if steering {
                "Steering"@
            } else {
                "Follow-up"@
            }) + " mode set to: "@ + choice,
        ),
        (Waiting::ExportState, Ok(data)) => if rpc::readable_state(data) {
            export_step(
                session_id,
                crate::pi::fields::optional_text(rpc::state_record(data), "sessionFile"@)->0,
                json::u64_member(rpc::state_record(data), "messageCount"@)->0,
            )
        } else {
            StepView::Fail(AcpxError::Json(refusal))
        },
        (Waiting::AutoState, Ok(data)) => if rpc::readable_state(data) {
            let enabled = !json::bool_member(rpc::state_record(data), "autoCompactionEnabled"@)->0;
            StepView::Ask(
                CommandView::SetAutoCompaction(enabled),
                Waiting::AutoSet { enabled },
            )
        } else {
            StepView::Fail(AcpxError::Json(refusal))
        },
        (Waiting::AutoSet { enabled }, Ok(_)) => say(
            session_id,
            if enabled {
                "Auto-compaction enabled."@
            } else {
                "Auto-compaction disabled."@
            },
        ),
    }
}

fn read_state(answer: Result<Json, AcpxError>, refusal: &str) -> (r: Result<
    RpcSessionState,
    AcpxError,
>)
    ensures
        match r {
            Ok(s) => answer is Ok && rpc::readable_state(answer->Ok_0@) && s.reads(answer->Ok_0@),
            Err(e) => match answer {
                Ok(d) => !rpc::readable_state(d@) && e@ == AcpxError::<Seq<char>>::Json(refusal@),
                Err(x) => e@ == x@,
            },
        },
{
    match answer {
        Ok(data) => process::state_of(&data, refusal),
        Err(e) => Err(e),
    }
}

fn named_step(session_id: &str, name: String, failure: Option<AcpxError>, now: &str) -> (r: Step)
    ensures
        r@ == naming_step(
            session_id@,
            name@,
            match failure {
                Some(e) => Some(e@),
                None => None,
            },
            now@,
        ),
{
    match failure {
        None => {
            let told = text::cat2("Session name set: ", name.as_str());
            let info = OutboundMessage::SessionInfo(
                SessionInfoFact {
                    session_id: session_id.to_owned(),
                    title: Some(name),
                    updated_at: Some(now.to_owned()),
                    meta: None,
                },
            );
            let mut v: Vec<OutboundMessage> = Vec::new();
            v.push(info);
            v.push(text_chunk(session_id, told));
            assert(message_views(v@) =~= seq![v@[0]@, v@[1]@]);
            Step::Say(v)
        },
        Some(e) => {
            let message = e.message();
            let hint: &str = if text::contains(message.as_str(), "set_session_name") {
                " This requires a newer pi version that supports `set_session_name` in RPC mode."
            } else {
                ""
            };
            proof {
                reveal_strlit("");
                assert(""@ =~= Seq::<char>::empty());
            }
            say_one(session_id, text::cat3("Failed to set session name: ", message.as_str(), hint))
        },
    }
}

fn exported(session_id: &str, answer: Result<Json, AcpxError>) -> (r: Step)
    ensures
        r@ == exported_step(session_id@, answer_view(answer)),
{
    let result = match answer {
        Ok(data) => process::exported_path(&data),
        Err(e) => Err(e),
    };
    match result {
        Ok(p) => {
            if p.as_str().unicode_len() == 0 {
                say_one(session_id, "Export failed: no output path returned by pi.".to_owned())
            } else {
                let link = OutboundMessage::LinkChunk(
                    LinkChunkFact {
                        session_id: session_id.to_owned(),
                        message_id: None,
                        name: export_file_name(session_id),
                        uri: text::cat2("file://", p.as_str()),
                        mime_type: Some("text/html".to_owned()),
                        title: Some("Session exported".to_owned()),
                    },
                );
                let mut v: Vec<OutboundMessage> = Vec::new();
                v.push(text_chunk(session_id, "Session exported: ".to_owned()));
                v.push(link);
                assert(message_views(v@) =~= seq![v@[0]@, v@[1]@]);
                Step::Say(v)
            }
        },
        Err(e) => {
            let message = e.message();
            say_one(session_id, text::cat2("Export failed: ", message.as_str()))
        },
    }
}

/// The step behind an answer of pi; `now` is the time, and `refusal` is what the
/// JSON reader says of an answer that is no state.
pub fn on_answer(
    session_id: &str,
    waiting: Waiting,
    answer: Result<Json, AcpxError>,
    now: &str,
    refusal: &str,
) -> (r: Step)
    ensures
        r@ == next_step(session_id@, waiting@, answer_view(answer), now@, refusal@),
{
    match waiting {
        Waiting::Name { name } => match answer {
            Ok(_) => named_step(session_id, name, None, now),
            Err(e) => named_step(session_id, name, Some(e), now),
        },
        Waiting::Export => exported(session_id, answer),
        Waiting::Compact { custom } => match answer {
            Ok(data) => say_one(session_id, compaction_message(&data, custom)),
            Err(e) => Step::Fail(e),
        },
        Waiting::Stats => match answer {
            Ok(data) => say_one(session_id, session_stats_text(&data)),
            Err(e) => Step::Fail(e),
        },
        Waiting::QueueState { steering, choice } => match read_state(answer, refusal) {
            Ok(state) => {
                let current = if steering {
                    state.steering_mode
                } else {
                    state.follow_up_mode
                };
                queue_mode_step(session_id, steering, choice, current)
            },
            Err(e) => Step::Fail(e),
        },
        Waiting::QueueSet { steering, choice } => match answer {
            Ok(_) => {
                let title: &str = if steering {
                    "Steering"
                } else {
                    "Follow-up"
                };
                say_one(session_id, text::cat3(title, " mode set to: ", choice.as_str()))
            },
            Err(e) => Step::Fail(e),
        },
        Waiting::ExportState => match read_state(answer, refusal) {
            Ok(state) => match state.session_file {
                Some(file) => {
                    if file.as_str().unicode_len() == 0 || state.message_count == 0 {
                        say_one(
                            session_id,
                            "Nothing to export yet (no session messages). Send a prompt first.".to_owned(),
                        )
                    } else {
                        Step::ReadSessionFile { path: file }
                    }
                },
                None => say_one(
                    session_id,
                    "Nothing to export yet (no session messages). Send a prompt first.".to_owned(),
                ),
            },
            Err(e) => Step::Fail(e),
        },
        Waiting::AutoState => match read_state(answer, refusal) {
            Ok(state) => {
                let enabled = !state.auto_compaction_enabled;
                ask(RpcCommand::SetAutoCompaction { enabled }, Waiting::AutoSet { enabled })
            },
            Err(e) => Step::Fail(e),
        },
        Waiting::AutoSet { enabled } => match answer {
            Ok(_) => {
                let told: &str = if enabled {
                    "Auto-compaction enabled."
                } else {
                    "Auto-compaction disabled."
                };
                say_one(session_id, told.to_owned())
            },
            Err(e) => Step::Fail(e),
        },
    }
}

/// The step behind the session's file; `raw` is its content when it could be
/// read.
pub fn on_session_file(session_id: &str, cwd: &str, raw: Option<&str>, windows: bool) -> (r: Step)
    ensures
        r@ == export_file_step(session_id@, cwd@, text::opt_str(raw), windows),
{
    if let Some(content) = raw {
        if text::trim(content).unicode_len() > 0 {
            let name = export_file_name(session_id);
            let output = path::resolve_path(cwd, name.as_str(), windows);
            return ask(
                RpcCommand::ExportHtml { output_path: Some(output) },
                Waiting::Export,
            );
        }
    }
    say_one(
        session_id,
        "Nothing to export yet (no session messages). Send a prompt first.".to_owned(),
    )
}

/// What was found of pi's changelog.
#[derive(Debug)]
pub enum Changelog {
    /// Its content.
    Content(String),
    /// It could not be read, for this reason.
    Unreadable(String),
    /// It could not be found.
    Missing,
}

/// The step behind pi's changelog.
pub fn on_changelog(session_id: &str, found: Changelog) -> (r: Step)
    ensures
        r@ == say(
            session_id@,
            match found {
                Changelog::Content(s) => changelog_text(s@),
                Changelog::Unreadable(e) => "Failed to read changelog: "@ + e@,
                Changelog::Missing => "Changelog not found (couldn't locate pi installation)."@,
            },
        ),
{
    let told = match found {
        Changelog::Content(s) => {
            if s.as_str().unicode_len() > 20_000 {
                let kept = text::take_chars(s.as_str(), 20_000);
                text::cat2(kept, "\n\n...(truncated)...")
            } else {
                s
            }
        },
        Changelog::Unreadable(e) => text::cat2("Failed to read changelog: ", e.as_str()),
        Changelog::Missing => "Changelog not found (couldn't locate pi installation).".to_owned(),
    };
    say_one(session_id, told)
}

// ---------------------------------------------------------------------------
// Laws
// ---------------------------------------------------------------------------

/// How many more answers of pi or files a step can be followed by at most.
pub open spec fn steps_left(s: StepView) -> nat {
    match s {
        StepView::Say(_) => 0,
        StepView::Fail(_) => 0,
        StepView::ReadChangelog => 1,
        StepView::ReadSessionFile(_) => 2,
        StepView::Ask(_, waiting) => match waiting {
            Waiting::QueueState { .. } => 2,
            Waiting::AutoState => 2,
            Waiting::ExportState => 3,
            _ => 1,
        },
    }
}

/// Every command comes to an end: each answer leaves fewer steps.
pub proof fn commands_end(
    session_id: Seq<char>,
    command: CommandView,
    waiting: Waiting<Seq<char>>,
    answer: Result<JsonView, AcpxError<Seq<char>>>,
    now: Seq<char>,
    refusal: Seq<char>,
)
    ensures
        steps_left(next_step(session_id, waiting, answer, now, refusal)) < steps_left(
            StepView::Ask(command, waiting),
        ),
{
}

/// The export ends behind the session's file too.
pub proof fn exports_end(
    session_id: Seq<char>,
    cwd: Seq<char>,
    file: Seq<char>,
    raw: Option<Seq<char>>,
    windows: bool,
)
    ensures
        steps_left(export_file_step(session_id, cwd, raw, windows)) < steps_left(
            StepView::ReadSessionFile(file),
        ),
{
}

/// A command that ends without an error tells the user something, and tells
/// nothing to another session.
pub proof fn a_finished_command_is_told(
    session_id: Seq<char>,
    waiting: Waiting<Seq<char>>,
    answer: Result<JsonView, AcpxError<Seq<char>>>,
    now: Seq<char>,
    refusal: Seq<char>,
)
    ensures
        next_step(session_id, waiting, answer, now, refusal) matches StepView::Say(told)
            ==> told.len() > 0 && forall|i: int| 0 <= i < told.len() ==> addressee(#[trigger] told[i]) == session_id,
{
}

/// The session that a message goes to.
pub open spec fn addressee(m: OutboundView) -> Seq<char> {
    match m {
        OutboundView::SessionInfo(f) => f.session_id,
        OutboundView::Usage(f) => f.session_id,
        OutboundView::Mode(session_id, _) => session_id,
        OutboundView::ConfigOptions(session_id, _) => session_id,
        OutboundView::AvailableCommands(session_id, _) => session_id,
        OutboundView::ToolCall(c) => c.session_id,
        OutboundView::LinkChunk(l) => l.session_id,
        OutboundView::TextChunk(c) => c.session_id,
        OutboundView::MessagePatch(p) => p.session_id,
        OutboundView::Foreground(session_id, _) => session_id,
        OutboundView::BashToolCall(c) => c.session_id,
    }
}

/// The export goes to a file in the session's directory, whatever the id is:
/// the file's name holds no separator.
pub proof fn exports_stay_in_the_directory(session_id: Seq<char>, i: int)
    requires
        0 <= i < export_name(session_id).len(),
    ensures
        export_name(session_id)[i] != '/',
        export_name(session_id)[i] != '\\',
{
    reveal_strlit("pi-session-");
    reveal_strlit(".html");
    assert("pi-session-"@.len() == 11 && ".html"@.len() == 5);
    let safe = session_id.map_values(|c: char| safe_char(c));
    let name = export_name(session_id);
    if 11 <= i < 11 + safe.len() {
        assert(name[i] == safe[i - 11]);
    } else if i >= 11 + safe.len() {
        assert(name[i] == ".html"@[i - 11 - safe.len()]);
    } else {
        assert(name[i] == "pi-session-"@[i]);
    }
}

// ---------------------------------------------------------------------------
// What each command does
// ---------------------------------------------------------------------------

/// A message that is a command without arguments.
pub open spec fn alone(name: Seq<char>) -> Seq<char> {
    seq!['/'] + name
}

/// A message that is a command with arguments.
pub open spec fn with_args(name: Seq<char>, rest: Seq<char>) -> Seq<char> {
    seq!['/'] + name + seq![' '] + rest
}

/// Whether a text is a word: it has characters, and no blank among them.
pub open spec fn is_word(w: Seq<char>) -> bool {
    w.len() > 0 && forall|j: int| 0 <= j < w.len() ==> !text::is_white(#[trigger] w[j])
}

proof fn words_are(name: Seq<char>, rest: Seq<char>)
    requires
        is_word(name),
        rest.len() > 0,
        !text::is_white(rest.last()),
    ensures
        words(alone(name)) == (name, Seq::<char>::empty()),
        words(with_args(name, rest)) == (name, rest),
        text::begins(text::trimmed_start(alone(name)), "/"@),
        text::begins(text::trimmed_start(with_args(name, rest)), "/"@),
{
    reveal_strlit("/");
    assert("/"@.len() == 1 && "/"@[0] == '/');
    assert(!text::is_white('/'));
    let a = alone(name);
    assert(!text::is_white(name[name.len() - 1]));
    assert(a.last() == name.last());
    text::trimmed_stays(a);
    assert forall|j: int| 0 <= j < a.len() implies a[j] != ' ' by {
        if j > 0 {
            assert(!text::is_white(name[j - 1]));
        }
    }
    text::before_unique(a, ' ', a.len() as int);
    assert(a.skip(1) =~= name);
    assert(a.subrange(0, 1) =~= "/"@);
    assert(text::trimmed_start(a) == a);
    let b = with_args(name, rest);
    assert(b.last() == rest.last());
    text::trimmed_stays(b);
    assert forall|j: int| 0 <= j < name.len() + 1 implies b[j] != ' ' by {
        if j > 0 {
            assert(!text::is_white(name[j - 1]));
        }
    }
    text::before_unique(b, ' ', name.len() as int + 1);
    assert(b.take(name.len() as int + 1) =~= a);
    assert(b.skip(name.len() as int + 2) =~= rest);
    assert(b.subrange(0, 1) =~= "/"@);
    assert(text::trimmed_start(b) == b);
}

/// Messages with images, messages that are no commands and commands of others
/// are left to pi.
pub proof fn other_messages_are_left_to_pi(
    session_id: Seq<char>,
    message: Seq<char>,
    name: Seq<char>,
    rest: Seq<char>,
)
    requires
        is_word(name),
        rest.len() > 0,
        !text::is_white(rest.last()),
        name != "compact"@ && name != "session"@ && name != "name"@ && name != "steering"@ && name
            != "follow-up"@ && name != "changelog"@ && name != "export"@ && name != "autocompact"@,
    ensures
        first_step(session_id, message, true) is None,
        message.len() > 0 && !text::is_white(message[0]) && message[0] != '/' ==> first_step(
            session_id,
            message,
            false,
        ) is None,
        first_step(session_id, alone(name), false) is None,
        first_step(session_id, with_args(name, rest), false) is None,
{
    words_are(name, rest);
    reveal_strlit("/");
    assert("/"@.len() == 1 && "/"@[0] == '/');
    if message.len() > 0 && text::begins(message, "/"@) {
        assert(message.subrange(0, 1)[0] == message[0]);
    }
}

/// `/compact` makes pi compact, with the instructions that follow it.
pub proof fn compact_asks_pi(session_id: Seq<char>, rest: Seq<char>)
    requires
        rest.len() > 0,
        !text::is_white(rest.last()),
        commands::args_of(rest).len() > 0,
    ensures
        first_step(session_id, alone("compact"@), false) == Some(
            StepView::Ask(CommandView::Compact(None), Waiting::Compact { custom: false }),
        ),
        ({
            let said = text::trimmed(text::joined(commands::args_of(rest), " "@));
            said.len() > 0 ==> first_step(session_id, with_args("compact"@, rest), false) == Some(
                StepView::Ask(
                    CommandView::Compact(Some(said)),
                    Waiting::Compact { custom: true },
                ),
            )
        }),
{
    reveal_strlit("compact");
    assert("compact"@.len() == 7);
    lower_word("compact"@);
    words_are("compact"@, rest);
    no_args();
}

proof fn no_args()
    ensures
        commands::args_of(Seq::empty()) == Seq::<Seq<char>>::empty(),
        joined_args(Seq::empty()) is None,
{
    assert(commands::args_of(Seq::empty()) =~= Seq::<Seq<char>>::empty());
    assert(text::joined(Seq::empty(), " "@) =~= Seq::<char>::empty());
    assert(text::trimmed_start(Seq::<char>::empty()) =~= Seq::<char>::empty());
}

proof fn lower_word(w: Seq<char>)
    requires
        w.len() > 0,
        forall|j: int| 0 <= j < w.len() ==> ('a' <= #[trigger] w[j] <= 'z' || w[j] == '-'),
    ensures
        is_word(w),
{
    assert forall|j: int| 0 <= j < w.len() implies !text::is_white(#[trigger] w[j]) by {}
}

/// `/name` gives the session the name that follows it.
pub proof fn name_names_the_session(session_id: Seq<char>, rest: Seq<char>)
    requires
        rest.len() > 0,
        !text::is_white(rest.last()),
    ensures
        ({
            let n = text::trimmed(text::joined(commands::args_of(rest), " "@));
            n.len() > 0 ==> first_step(session_id, with_args("name"@, rest), false) == Some(
                StepView::Ask(CommandView::SetSessionName(n), Waiting::Name { name: n }),
            )
        }),
        first_step(session_id, alone("name"@), false) matches Some(StepView::Say(_)),
{
    reveal_strlit("name");
    reveal_strlit("compact");
    reveal_strlit("session");
    assert("name"@.len() == 4 && "compact"@.len() == 7 && "session"@.len() == 7);
    assert("compact"@[0] != "session"@[0]);
    lower_word("name"@);
    words_are("name"@, rest);
    no_args();
}

/// The other commands ask pi for what they need.
pub proof fn commands_ask_pi(session_id: Seq<char>, rest: Seq<char>)
    requires
        rest.len() > 0,
        !text::is_white(rest.last()),
    ensures
        first_step(session_id, alone("session"@), false) == Some(
            StepView::Ask(CommandView::GetSessionStats, Waiting::Stats),
        ),
        first_step(session_id, alone("changelog"@), false) == Some(StepView::ReadChangelog),
        first_step(session_id, alone("export"@), false) == Some(
            StepView::Ask(CommandView::GetState, Waiting::ExportState),
        ),
        first_step(session_id, alone("steering"@), false) == Some(
            StepView::Ask(
                CommandView::GetState,
                Waiting::QueueState { steering: true, choice: Seq::empty() },
            ),
        ),
        first_step(session_id, alone("follow-up"@), false) == Some(
            StepView::Ask(
                CommandView::GetState,
                Waiting::QueueState { steering: false, choice: Seq::empty() },
            ),
        ),
        first_step(session_id, alone("autocompact"@), false) == Some(
            StepView::Ask(CommandView::GetState, Waiting::AutoState),
        ),
        ({
            let args = commands::args_of(rest);
            args.len() > 0 ==> {
                &&& first_step(session_id, with_args("steering"@, rest), false) == Some(
                    StepView::Ask(
                        CommandView::GetState,
                        Waiting::QueueState { steering: true, choice: text::lowercased(args[0]) },
                    ),
                )
                &&& first_step(session_id, with_args("follow-up"@, rest), false) == Some(
                    StepView::Ask(
                        CommandView::GetState,
                        Waiting::QueueState { steering: false, choice: text::lowercased(args[0]) },
                    ),
                )
                &&& text::lowercased(args[0]) == "on"@ ==> first_step(
                    session_id,
                    with_args("autocompact"@, rest),
                    false,
                ) == Some(
                    StepView::Ask(
                        CommandView::SetAutoCompaction(true),
                        Waiting::AutoSet { enabled: true },
                    ),
                )
                &&& text::lowercased(args[0]) == "off"@ ==> first_step(
                    session_id,
                    with_args("autocompact"@, rest),
                    false,
                ) == Some(
                    StepView::Ask(
                        CommandView::SetAutoCompaction(false),
                        Waiting::AutoSet { enabled: false },
                    ),
                )
            }
        }),
{
    reveal_strlit("compact");
    reveal_strlit("session");
    reveal_strlit("name");
    reveal_strlit("steering");
    reveal_strlit("follow-up");
    reveal_strlit("changelog");
    reveal_strlit("export");
    reveal_strlit("autocompact");
    reveal_strlit("on");
    reveal_strlit("off");
    reveal_strlit("true");
    reveal_strlit("enable");
    reveal_strlit("enabled");
    reveal_strlit("false");
    reveal_strlit("disable");
    reveal_strlit("disabled");
    assert("compact"@.len() == 7 && "session"@.len() == 7 && "name"@.len() == 4);
    assert("steering"@.len() == 8 && "follow-up"@.len() == 9 && "changelog"@.len() == 9);
    assert("export"@.len() == 6 && "autocompact"@.len() == 11 && "on"@.len() == 2);
    assert("off"@.len() == 3 && "true"@.len() == 4 && "enable"@.len() == 6);
    assert("enabled"@.len() == 7 && "false"@.len() == 5 && "disable"@.len() == 7);
    assert("disabled"@.len() == 8);
    assert("name"@[0] != "true"@[0]);
    assert("export"@[1] != "enable"@[1]);
    assert("compact"@[0] != "session"@[0]);
    assert("compact"@[0] != "enabled"@[0]);
    assert("compact"@[0] != "disable"@[0]);
    assert("session"@[0] != "enabled"@[0]);
    assert("session"@[0] != "disable"@[0]);
    assert("enabled"@[0] != "disable"@[0]);
    assert("steering"@[0] != "disabled"@[0]);
    assert("follow-up"@[0] != "changelog"@[0]);
    lower_word("session"@);
    lower_word("steering"@);
    lower_word("follow-up"@);
    lower_word("changelog"@);
    lower_word("export"@);
    lower_word("autocompact"@);
    words_are("session"@, rest);
    words_are("steering"@, rest);
    words_are("follow-up"@, rest);
    words_are("changelog"@, rest);
    words_are("export"@, rest);
    words_are("autocompact"@, rest);
    no_args();
}

/// A session that was named is told by its new name, and that it has it.
pub proof fn a_name_that_was_set_is_told(
    session_id: Seq<char>,
    name: Seq<char>,
    data: JsonView,
    now: Seq<char>,
    refusal: Seq<char>,
)
    ensures
        next_step(session_id, Waiting::Name { name }, Ok(data), now, refusal) matches StepView::Say(
            told,
        ) && told.len() == 2 && told[0] == OutboundView::SessionInfo(
            SessionInfoView { session_id, title: Some(name), updated_at: Some(now), meta: None },
        ) && told[1] == said(session_id, "Session name set: "@ + name),
{
}

/// Toggling the automatic compaction sets it to what it was not, and tells so.
pub proof fn toggling_turns_it_round(
    session_id: Seq<char>,
    data: JsonView,
    b: bool,
    answer: JsonView,
    now: Seq<char>,
    refusal: Seq<char>,
)
    requires
        rpc::readable_state(data),
        json::member(rpc::state_record(data), "autoCompactionEnabled"@) == Some(JsonView::Bool(b)),
    ensures
        next_step(session_id, Waiting::AutoState, Ok(data), now, refusal) == StepView::Ask(
            CommandView::SetAutoCompaction(!b),
            Waiting::AutoSet { enabled: !b },
        ),
        next_step(session_id, Waiting::AutoSet { enabled: b }, Ok(answer), now, refusal) == say(
            session_id,
            if b {
                "Auto-compaction enabled."@
            } else {
                "Auto-compaction disabled."@
            },
        ),
{
}

/// A delivery mode is shown when none is chosen, set when it is one of the two,
/// and explained otherwise.
pub proof fn delivery_modes_are_set(
    session_id: Seq<char>,
    choice: Seq<char>,
    current: QueueMode,
)
    ensures
        queue_step(session_id, true, Seq::empty(), current) == say(
            session_id,
            "Steering"@ + " mode: "@ + queue_mode_text(current),
        ),
        queue_step(session_id, false, Seq::empty(), current) == say(
            session_id,
            "Follow-up"@ + " mode: "@ + queue_mode_text(current),
        ),
        queue_step(session_id, true, "all"@, current) == StepView::Ask(
            CommandView::SetSteeringMode(QueueMode::All),
            Waiting::QueueSet { steering: true, choice: "all"@ },
        ),
        queue_step(session_id, true, "one-at-a-time"@, current) == StepView::Ask(
            CommandView::SetSteeringMode(QueueMode::OneAtATime),
            Waiting::QueueSet { steering: true, choice: "one-at-a-time"@ },
        ),
        queue_step(session_id, false, "all"@, current) == StepView::Ask(
            CommandView::SetFollowUpMode(QueueMode::All),
            Waiting::QueueSet { steering: false, choice: "all"@ },
        ),
        queue_step(session_id, false, "one-at-a-time"@, current) == StepView::Ask(
            CommandView::SetFollowUpMode(QueueMode::OneAtATime),
            Waiting::QueueSet { steering: false, choice: "one-at-a-time"@ },
        ),
        choice.len() > 0 && choice != "all"@ && choice != "one-at-a-time"@ ==> (queue_step(
            session_id,
            true,
            choice,
            current,
        ) is Say && queue_step(session_id, false, choice, current) is Say),
{
    reveal_strlit("all");
    reveal_strlit("one-at-a-time");
    assert("all"@.len() == 3 && "one-at-a-time"@.len() == 13);
}

/// The mode that is shown is the one that pi has for that kind of message.
pub proof fn the_mode_in_force_is_shown(
    session_id: Seq<char>,
    data: JsonView,
    steering: bool,
    choice: Seq<char>,
    now: Seq<char>,
    refusal: Seq<char>,
)
    requires
        rpc::readable_state(data),
    ensures
        next_step(session_id, Waiting::QueueState { steering, choice }, Ok(data), now, refusal)
            == queue_step(
            session_id,
            steering,
            choice,
            if steering {
                rpc::mode_member(rpc::state_record(data), "steeringMode"@)->0
            } else {
                rpc::mode_member(rpc::state_record(data), "followUpMode"@)->0
            },
        ),
{
}

/// A compaction is told with how much there was before and with its summary.
pub proof fn a_compaction_is_told(data: JsonView, n: u64, summary: Seq<char>)
    requires
        json::member(data, "tokensBefore"@) == Some(
            JsonView::Number(json::NumberView::Int(n as int)),
        ),
        json::member(data, "summary"@) == Some(JsonView::Str(summary)),
    ensures
        compaction_text(data, false) == "Compaction completed."@ + "\nTokens before: "@
            + text::decimal(n as nat) + "\n\n"@ + summary,
        compaction_text(data, true) == "Compaction completed."@
            + " (custom instructions applied)"@ + "\nTokens before: "@ + text::decimal(n as nat)
            + "\n\n"@ + summary,
{
}

/// The stats show the session, its file, how many messages it has, what it
/// cost and how many tokens it took, each on a line, as pi gives them.
pub proof fn stats_are_told(
    stats: JsonView,
    id: Seq<char>,
    file: Seq<char>,
    messages: u64,
    cost: Seq<char>,
    tokens: JsonView,
    input: u64,
    output: u64,
    total: u64,
)
    requires
        json::member(stats, "sessionId"@) == Some(JsonView::Str(id)),
        json::member(stats, "sessionFile"@) == Some(JsonView::Str(file)),
        json::member(stats, "totalMessages"@) == Some(
            JsonView::Number(json::NumberView::Int(messages as int)),
        ),
        json::member(stats, "tokens"@) == Some(tokens),
        json::member(tokens, "input"@) == Some(
            JsonView::Number(json::NumberView::Int(input as int)),
        ),
        json::member(tokens, "output"@) == Some(
            JsonView::Number(json::NumberView::Int(output as int)),
        ),
        json::member(tokens, "cacheRead"@) is None,
        json::member(tokens, "cacheWrite"@) is None,
        json::member(tokens, "total"@) == Some(
            JsonView::Number(json::NumberView::Int(total as int)),
        ),
    ensures
        stats_lines(stats, Some(cost)) == seq![
            "Session: "@ + id,
            "Session file: "@ + file,
            "Messages: "@ + text::decimal(messages as nat),
            "Cost: "@ + cost,
            "Tokens: "@ + ("in "@ + text::decimal(input as nat)) + ", "@ + ("out "@
                + text::decimal(output as nat)) + ", "@ + ("total "@ + text::decimal(
                total as nat,
            )),
        ],
{
    let a = "in "@ + text::decimal(input as nat);
    let b = "out "@ + text::decimal(output as nat);
    let c = "total "@ + text::decimal(total as nat);
    let parts = token_parts(tokens);
    assert(parts =~= seq![a, b, c]);
    reveal_with_fuel(text::joined, 4);
    assert(parts.drop_last() =~= seq![a, b]);
    assert(seq![a, b].drop_last() =~= seq![a]);
    assert("Tokens: "@ + text::joined(parts, ", "@) =~= "Tokens: "@ + a + ", "@ + b + ", "@ + c);
    assert(stats_lines(stats, Some(cost)) =~= seq![
        "Session: "@ + id,
        "Session file: "@ + file,
        "Messages: "@ + text::decimal(messages as nat),
        "Cost: "@ + cost,
        "Tokens: "@ + a + ", "@ + b + ", "@ + c,
    ]);
}

/// A changelog is shown whole, or its first twenty thousand characters and a
/// mark that it goes on.
pub proof fn a_changelog_is_shown(content: Seq<char>)
    ensures
        content.len() <= 20_000 ==> changelog_text(content) == content,
        content.len() > 20_000 ==> changelog_text(content) == content.take(20_000)
            + "\n\n...(truncated)..."@,
{
}

/// An export goes to a file of the session's directory that bears its name, and
/// its place is told; without messages there is nothing to export.
pub proof fn an_export_is_told(
    session_id: Seq<char>,
    cwd: Seq<char>,
    file: Seq<char>,
    raw: Seq<char>,
    data: JsonView,
    at: Seq<char>,
    messages: u64,
    windows: bool,
)
    requires
        file.len() > 0,
        messages > 0,
        text::trimmed(raw).len() > 0,
        json::member(data, "path"@) == Some(JsonView::Str(at)),
        at.len() > 0,
    ensures
        export_step(session_id, Some(file), messages) == StepView::ReadSessionFile(file),
        export_step(session_id, Some(file), 0) == say(session_id, nothing_to_export()),
        export_step(session_id, None, messages) == say(session_id, nothing_to_export()),
        export_file_step(session_id, cwd, Some(raw), windows) == StepView::Ask(
            CommandView::ExportHtml(Some(path::resolved(cwd, export_name(session_id), windows))),
            Waiting::Export,
        ),
        exported_step(session_id, Ok(data)) matches StepView::Say(told) && told.len() == 2 && (
        told[1] matches OutboundView::LinkChunk(l) && l.session_id == session_id && l.uri
            == "file://"@ + at && l.name == export_name(session_id)),
{
}

/// A session identifier of plain characters is the name of its export.
pub proof fn exports_bear_the_sessions_name(session_id: Seq<char>)
    requires
        forall|j: int|
            0 <= j < session_id.len() ==> ('a' <= #[trigger] session_id[j] <= 'z' || 'A'
                <= session_id[j] <= 'Z' || '0' <= session_id[j] <= '9' || session_id[j] == '_'
                || session_id[j] == '-'),
    ensures
        export_name(session_id) == "pi-session-"@ + session_id + ".html"@,
{
    assert(session_id.map_values(|c: char| safe_char(c)) =~= session_id);
}

/// A command that pi refuses fails with pi's error.
pub proof fn refusals_are_reported(
    session_id: Seq<char>,
    waiting: Waiting<Seq<char>>,
    e: AcpxError<Seq<char>>,
    now: Seq<char>,
    refusal: Seq<char>,
)
    ensures
        !(waiting is Name) && !(waiting is Export) ==> next_step(
            session_id,
            waiting,
            Err(e),
            now,
            refusal,
        ) == StepView::Fail(e),
        next_step(session_id, Waiting::Export, Err(e), now, refusal) == say(
            session_id,
            "Export failed: "@ + e.message(),
        ),
{
}

} // verus!
