//! What a session tells its client, before any protocol version renders it.
//!
//! Every fact has a model with the same fields over character sequences and
//! JSON models; contracts speak of the models.

use crate::json;
use crate::json::{Json, JsonMap, JsonNumber, JsonView, NumberView};
use crate::text;
use vstd::prelude::*;

verus! {

/// The model of a `_meta` object.
pub type MetaView = Seq<(Seq<char>, JsonView)>;

/// The model of an optional `_meta` object.
pub open spec fn opt_meta(m: Option<JsonMap>) -> Option<MetaView> {
    match m {
        Some(x) => Some(x@),
        None => None,
    }
}

/// How a turn ended.
#[derive(Debug, Clone, Copy, PartialEq, Eq, Structural)]
pub enum StopReason {
    /// The turn completed.
    EndTurn,
    /// The client cancelled the turn.
    Cancelled,
}

/// The streams that text is sent on.
#[derive(Debug, Clone, Copy, PartialEq, Eq, Structural)]
pub enum TextChunkKind {
    /// The agent's answer.
    Agent,
    /// The agent's reasoning.
    Thought,
    /// A user message.
    User,
}

/// Where a bash call is in its life.
#[derive(Debug, Clone, Copy, PartialEq, Eq, Structural)]
pub enum BashToolStatus {
    /// Announced, not yet executed.
    Pending,
    /// Running.
    InProgress,
    /// Ended successfully.
    Completed,
    /// Ended with an error.
    Failed,
}

/// What the foreground work of a session is doing.
#[derive(Debug, Clone, Copy, PartialEq, Eq, Structural)]
pub enum ForegroundState {
    /// A turn is running.
    Running,
    /// A turn ended, for this reason.
    Idle(StopReason),
}

/// A streamed piece of text.
#[derive(Debug)]
pub struct TextChunk {
    /// The session.
    pub session_id: String,
    /// The message the piece belongs to, when its producer has one.
    pub message_id: Option<String>,
    /// The stream.
    pub kind: TextChunkKind,
    /// The text.
    pub text: String,
    /// Chunk-scoped `_meta`.
    pub meta: Option<JsonMap>,
}

/// The model of a [`TextChunk`].
pub struct TextChunkView {
    pub session_id: Seq<char>,
    pub message_id: Option<Seq<char>>,
    pub kind: TextChunkKind,
    pub text: Seq<char>,
    pub meta: Option<MetaView>,
}

impl View for TextChunk {
    type V = TextChunkView;

    open spec fn view(&self) -> TextChunkView {
        TextChunkView {
            session_id: self.session_id@,
            message_id: text::opt_text(self.message_id),
            kind: self.kind,
            text: self.text@,
            meta: opt_meta(self.meta),
        }
    }
}

/// The complete text of a message, replacing what was streamed.
#[derive(Debug)]
pub struct MessagePatch {
    /// The session.
    pub session_id: String,
    /// The message.
    pub message_id: String,
    /// The complete text.
    pub text: String,
}

/// The model of a [`MessagePatch`].
pub struct MessagePatchView {
    pub session_id: Seq<char>,
    pub message_id: Seq<char>,
    pub text: Seq<char>,
}

impl View for MessagePatch {
    type V = MessagePatchView;

    open spec fn view(&self) -> MessagePatchView {
        MessagePatchView {
            session_id: self.session_id@,
            message_id: self.message_id@,
            text: self.text@,
        }
    }
}

/// One frame of a bash call.
#[derive(Debug)]
pub struct BashToolCall {
    /// The session.
    pub session_id: String,
    /// The call; its terminal bears the same id.
    pub tool_call_id: String,
    /// The command line.
    pub command: String,
    /// The working directory, when known.
    pub cwd: Option<String>,
    /// Where the call is in its life.
    pub status: BashToolStatus,
    /// All output so far.
    pub output: String,
    /// The output since the previous frame.
    pub output_delta: String,
    /// The exit code, once the call has ended.
    pub exit_code: Option<i32>,
    /// Whether this frame opens the call.
    pub first: bool,
}

/// The model of a [`BashToolCall`].
pub struct BashToolCallView {
    pub session_id: Seq<char>,
    pub tool_call_id: Seq<char>,
    pub command: Seq<char>,
    pub cwd: Option<Seq<char>>,
    pub status: BashToolStatus,
    pub output: Seq<char>,
    pub output_delta: Seq<char>,
    pub exit_code: Option<i32>,
    pub first: bool,
}

impl View for BashToolCall {
    type V = BashToolCallView;

    open spec fn view(&self) -> BashToolCallView {
        BashToolCallView {
            session_id: self.session_id@,
            tool_call_id: self.tool_call_id@,
            command: self.command@,
            cwd: text::opt_text(self.cwd),
            status: self.status,
            output: self.output@,
            output_delta: self.output_delta@,
            exit_code: self.exit_code,
            first: self.first,
        }
    }
}

/// A change of a session's title, time or `_meta`.
#[derive(Debug)]
pub struct SessionInfoFact {
    /// The session.
    pub session_id: String,
    /// The new title.
    pub title: Option<String>,
    /// When the session was last active.
    pub updated_at: Option<String>,
    /// Adapter-specific `_meta`.
    pub meta: Option<JsonMap>,
}

/// The model of a [`SessionInfoFact`].
pub struct SessionInfoView {
    pub session_id: Seq<char>,
    pub title: Option<Seq<char>>,
    pub updated_at: Option<Seq<char>>,
    pub meta: Option<MetaView>,
}

impl View for SessionInfoFact {
    type V = SessionInfoView;

    open spec fn view(&self) -> SessionInfoView {
        SessionInfoView {
            session_id: self.session_id@,
            title: text::opt_text(self.title),
            updated_at: text::opt_text(self.updated_at),
            meta: opt_meta(self.meta),
        }
    }
}

/// What a session has cost so far.
#[derive(Debug)]
pub struct CostFact {
    /// The amount.
    pub amount: JsonNumber,
    /// The currency code.
    pub currency: String,
}

/// How full the context window is.
#[derive(Debug)]
pub struct UsageFact {
    /// The session.
    pub session_id: String,
    /// Tokens in the context.
    pub used: u64,
    /// The size of the context window in tokens.
    pub size: u64,
    /// The cost so far, when pi reports one.
    pub cost: Option<CostFact>,
}

/// The model of a [`UsageFact`]; the cost is its amount and its currency.
pub struct UsageView {
    pub session_id: Seq<char>,
    pub used: u64,
    pub size: u64,
    pub cost: Option<(NumberView, Seq<char>)>,
}

impl View for UsageFact {
    type V = UsageView;

    open spec fn view(&self) -> UsageView {
        UsageView {
            session_id: self.session_id@,
            used: self.used,
            size: self.size,
            cost: match self.cost {
                Some(c) => Some((c.amount@, c.currency@)),
                None => None,
            },
        }
    }
}

/// The session's current mode.
#[derive(Debug)]
pub struct ModeFact {
    /// The session.
    pub session_id: String,
    /// The mode.
    pub mode_id: String,
}

/// What a config option is about.
#[derive(Debug)]
pub enum ConfigCategoryFact {
    /// The session mode.
    Mode,
    /// The model.
    Model,
    /// A parameter of the model.
    ModelConfig,
    /// The reasoning level.
    ThoughtLevel,
    /// Anything else.
    Other(String),
}

/// A value that a config option can take.
#[derive(Debug)]
pub struct ConfigChoiceFact {
    /// The value's id.
    pub value: String,
    /// What the client shows.
    pub name: String,
    /// What the value means.
    pub description: Option<String>,
    /// Value-scoped `_meta`.
    pub meta: Option<JsonMap>,
}

/// The model of a [`ConfigChoiceFact`].
pub struct ConfigChoiceView {
    pub value: Seq<char>,
    pub name: Seq<char>,
    pub description: Option<Seq<char>>,
    pub meta: Option<MetaView>,
}

impl View for ConfigChoiceFact {
    type V = ConfigChoiceView;

    open spec fn view(&self) -> ConfigChoiceView {
        ConfigChoiceView {
            value: self.value@,
            name: self.name@,
            description: text::opt_text(self.description),
            meta: opt_meta(self.meta),
        }
    }
}

/// The model of a [`ConfigCategoryFact`].
pub enum ConfigCategoryView {
    Mode,
    Model,
    ModelConfig,
    ThoughtLevel,
    Other(Seq<char>),
}

impl View for ConfigCategoryFact {
    type V = ConfigCategoryView;

    open spec fn view(&self) -> ConfigCategoryView {
        match self {
            ConfigCategoryFact::Mode => ConfigCategoryView::Mode,
            ConfigCategoryFact::Model => ConfigCategoryView::Model,
            ConfigCategoryFact::ModelConfig => ConfigCategoryView::ModelConfig,
            ConfigCategoryFact::ThoughtLevel => ConfigCategoryView::ThoughtLevel,
            ConfigCategoryFact::Other(s) => ConfigCategoryView::Other(s@),
        }
    }
}

/// A setting that the client can offer as a choice.
#[derive(Debug)]
pub struct ConfigOptionFact {
    /// The option's id.
    pub id: String,
    /// What the client shows.
    pub name: String,
    /// What the option does.
    pub description: Option<String>,
    /// What the option is about.
    pub category: Option<ConfigCategoryFact>,
    /// The value in force.
    pub current_value: String,
    /// The values on offer.
    pub choices: Vec<ConfigChoiceFact>,
    /// Option-scoped `_meta`.
    pub meta: Option<JsonMap>,
}

/// The model of a [`ConfigOptionFact`].
pub struct ConfigOptionView {
    pub id: Seq<char>,
    pub name: Seq<char>,
    pub description: Option<Seq<char>>,
    pub category: Option<ConfigCategoryView>,
    pub current_value: Seq<char>,
    pub choices: Seq<ConfigChoiceView>,
    pub meta: Option<MetaView>,
}

impl View for ConfigOptionFact {
    type V = ConfigOptionView;

    open spec fn view(&self) -> ConfigOptionView {
        ConfigOptionView {
            id: self.id@,
            name: self.name@,
            description: text::opt_text(self.description),
            category: match self.category {
                Some(c) => Some(c@),
                None => None,
            },
            current_value: self.current_value@,
            choices: self.choices@.map_values(|c: ConfigChoiceFact| c@),
            meta: opt_meta(self.meta),
        }
    }
}

/// All config options of a session.
#[derive(Debug)]
pub struct ConfigOptionsFact {
    /// The session.
    pub session_id: String,
    /// The options.
    pub options: Vec<ConfigOptionFact>,
}

/// The models of a list of config options.
pub open spec fn option_views(v: Seq<ConfigOptionFact>) -> Seq<ConfigOptionView> {
    v.map_values(|o: ConfigOptionFact| o@)
}

/// A command the client can offer.
#[derive(Debug)]
pub struct AvailableCommandFact {
    /// The name, without the slash.
    pub name: String,
    /// What the command does.
    pub description: String,
    /// What to type behind the name.
    pub input_hint: Option<String>,
    /// Command-scoped `_meta`.
    pub meta: Option<JsonMap>,
}

/// The model of an [`AvailableCommandFact`].
pub struct AvailableCommandView {
    pub name: Seq<char>,
    pub description: Seq<char>,
    pub input_hint: Option<Seq<char>>,
    pub meta: Option<MetaView>,
}

impl View for AvailableCommandFact {
    type V = AvailableCommandView;

    open spec fn view(&self) -> AvailableCommandView {
        AvailableCommandView {
            name: self.name@,
            description: self.description@,
            input_hint: text::opt_text(self.input_hint),
            meta: opt_meta(self.meta),
        }
    }
}

impl Clone for AvailableCommandFact {
    fn clone(&self) -> (r: AvailableCommandFact)
        ensures
            r@ == self@,
    {
        AvailableCommandFact {
            name: self.name.clone(),
            description: self.description.clone(),
            input_hint: text::clone_opt(&self.input_hint),
            meta: match &self.meta {
                Some(m) => Some(m.clone()),
                None => None,
            },
        }
    }
}

/// The models of a list of commands.
pub open spec fn command_views(v: Seq<AvailableCommandFact>) -> Seq<AvailableCommandView> {
    v.map_values(|c: AvailableCommandFact| c@)
}

/// All commands of a session.
#[derive(Debug)]
pub struct AvailableCommandsFact {
    /// The session.
    pub session_id: String,
    /// The commands.
    pub commands: Vec<AvailableCommandFact>,
}

/// What kind of work a tool does.
#[derive(Debug, PartialEq)]
pub enum ToolKindFact {
    /// Reading files or data.
    Read,
    /// Modifying files or content.
    Edit,
    /// Removing files or data.
    Delete,
    /// Moving or renaming files.
    Move,
    /// Searching for information.
    Search,
    /// Running commands or code.
    Execute,
    /// Reasoning or planning.
    Think,
    /// Retrieving external data.
    Fetch,
    /// Switching the session mode.
    SwitchMode,
    /// Other work.
    Other,
    /// A kind that this adapter does not know.
    Unknown(String),
}

/// Where a tool call is in its life.
#[derive(Debug, PartialEq)]
pub enum ToolStatusFact {
    /// Announced, not yet executed.
    Pending,
    /// Running.
    InProgress,
    /// Ended successfully.
    Completed,
    /// Ended with an error.
    Failed,
    /// A status that this adapter does not know.
    Unknown(String),
}

/// What a tool call produced.
#[derive(Debug, PartialEq)]
pub enum ToolContentFact {
    /// Plain text.
    Text(String),
    /// A changed file.
    Diff {
        /// The path, as pi named it.
        path: String,
        /// The content after the change.
        new_text: String,
        /// The content before the change; `None` for a new file.
        old_text: Option<String>,
    },
}

/// The model of a [`ToolContentFact`].
pub enum ToolContentView {
    Text(Seq<char>),
    Diff { path: Seq<char>, new_text: Seq<char>, old_text: Option<Seq<char>> },
}

impl View for ToolContentFact {
    type V = ToolContentView;

    open spec fn view(&self) -> ToolContentView {
        match self {
            ToolContentFact::Text(s) => ToolContentView::Text(s@),
            ToolContentFact::Diff { path, new_text, old_text } => ToolContentView::Diff {
                path: path@,
                new_text: new_text@,
                old_text: text::opt_text(*old_text),
            },
        }
    }
}

/// A place in a file that a tool call touches.
#[derive(Debug, PartialEq)]
pub struct ToolLocationFact {
    /// The absolute path.
    pub path: String,
    /// The line, counted from one.
    pub line: Option<u32>,
}

/// The models of a list of locations.
pub open spec fn location_views(v: Seq<ToolLocationFact>) -> Seq<(Seq<char>, Option<u32>)> {
    v.map_values(|l: ToolLocationFact| (l.path@, l.line))
}

/// One frame of a tool call other than bash.
#[derive(Debug)]
pub struct ToolCallFact {
    /// The session.
    pub session_id: String,
    /// The call.
    pub tool_call_id: String,
    /// Whether this frame opens the call.
    pub first: bool,
    /// What the client shows.
    pub title: Option<String>,
    /// What kind of work the tool does.
    pub kind: Option<ToolKindFact>,
    /// Where the call is in its life.
    pub status: Option<ToolStatusFact>,
    /// What the call produced.
    pub content: Option<Vec<ToolContentFact>>,
    /// The places the call touches.
    pub locations: Vec<ToolLocationFact>,
    /// The arguments.
    pub raw_input: Option<Json>,
    /// The result.
    pub raw_output: Option<Json>,
    /// Call-scoped `_meta`.
    pub meta: Option<JsonMap>,
}

/// The model of a [`ToolCallFact`].
pub struct ToolCallView {
    pub session_id: Seq<char>,
    pub tool_call_id: Seq<char>,
    pub first: bool,
    pub title: Option<Seq<char>>,
    pub kind: Option<ToolKindFact>,
    pub status: Option<ToolStatusFact>,
    pub content: Option<Seq<ToolContentView>>,
    pub locations: Seq<(Seq<char>, Option<u32>)>,
    pub raw_input: Option<JsonView>,
    pub raw_output: Option<JsonView>,
    pub meta: Option<MetaView>,
}

/// The models of a list of contents.
pub open spec fn content_views(v: Seq<ToolContentFact>) -> Seq<ToolContentView> {
    v.map_values(|c: ToolContentFact| c@)
}

impl View for ToolCallFact {
    type V = ToolCallView;

    open spec fn view(&self) -> ToolCallView {
        ToolCallView {
            session_id: self.session_id@,
            tool_call_id: self.tool_call_id@,
            first: self.first,
            title: text::opt_text(self.title),
            kind: self.kind,
            status: self.status,
            content: match self.content {
                Some(c) => Some(content_views(c@)),
                None => None,
            },
            locations: location_views(self.locations@),
            raw_input: json::opt_view(self.raw_input),
            raw_output: json::opt_view(self.raw_output),
            meta: opt_meta(self.meta),
        }
    }
}

/// A link shown in a message.
#[derive(Debug)]
pub struct LinkChunkFact {
    /// The session.
    pub session_id: String,
    /// The message, when the link has one.
    pub message_id: Option<String>,
    /// The name shown for the link.
    pub name: String,
    /// The target.
    pub uri: String,
    /// The type of the target.
    pub mime_type: Option<String>,
    /// A display title.
    pub title: Option<String>,
}

/// The model of a [`LinkChunkFact`].
pub struct LinkChunkView {
    pub session_id: Seq<char>,
    pub message_id: Option<Seq<char>>,
    pub name: Seq<char>,
    pub uri: Seq<char>,
    pub mime_type: Option<Seq<char>>,
    pub title: Option<Seq<char>>,
}

impl View for LinkChunkFact {
    type V = LinkChunkView;

    open spec fn view(&self) -> LinkChunkView {
        LinkChunkView {
            session_id: self.session_id@,
            message_id: text::opt_text(self.message_id),
            name: self.name@,
            uri: self.uri@,
            mime_type: text::opt_text(self.mime_type),
            title: text::opt_text(self.title),
        }
    }
}

/// How a permission choice is to be treated.
#[derive(Debug, PartialEq)]
pub enum PermissionOptionKindFact {
    /// Approve this request.
    AllowOnce,
    /// Approve this and later requests.
    AllowAlways,
    /// Reject this request.
    RejectOnce,
    /// Reject this and later requests.
    RejectAlways,
    /// A kind that this adapter does not know.
    Unknown(String),
}

/// One choice of a permission request.
#[derive(Debug, PartialEq)]
pub struct PermissionOptionFact {
    /// The id the client answers with.
    pub id: String,
    /// What the client shows.
    pub name: String,
    /// How the choice is to be treated.
    pub kind: PermissionOptionKindFact,
}

/// The models of a list of permission choices: id, name and kind.
pub open spec fn permission_views(v: Seq<PermissionOptionFact>) -> Seq<
    (Seq<char>, Seq<char>, PermissionOptionKindFact),
> {
    v.map_values(|o: PermissionOptionFact| (o.id@, o.name@, o.kind))
}

/// A question to the user.
#[derive(Debug)]
pub struct PermissionRequestFact {
    /// The session.
    pub session_id: String,
    /// The call being approved.
    pub tool_call_id: String,
    /// What the client shows.
    pub title: String,
    /// The raw input behind the question.
    pub raw_input: Json,
    /// The choices.
    pub options: Vec<PermissionOptionFact>,
    /// Request-scoped `_meta`.
    pub meta: Option<JsonMap>,
}

/// The model of a [`PermissionRequestFact`].
pub struct PermissionRequestView {
    pub session_id: Seq<char>,
    pub tool_call_id: Seq<char>,
    pub title: Seq<char>,
    pub raw_input: JsonView,
    pub options: Seq<(Seq<char>, Seq<char>, PermissionOptionKindFact)>,
    pub meta: Option<MetaView>,
}

impl View for PermissionRequestFact {
    type V = PermissionRequestView;

    open spec fn view(&self) -> PermissionRequestView {
        PermissionRequestView {
            session_id: self.session_id@,
            tool_call_id: self.tool_call_id@,
            title: self.title@,
            raw_input: self.raw_input@,
            options: permission_views(self.options@),
            meta: opt_meta(self.meta),
        }
    }
}

/// The user's answer to a question.
#[derive(Debug, PartialEq)]
pub enum PermissionOutcomeFact {
    /// The choice with this id.
    Selected(String),
    /// None of the choices.
    Cancelled,
}

/// Everything a session sends to its client.
#[derive(Debug)]
pub enum OutboundMessage {
    /// A change of the session's title, time or `_meta`.
    SessionInfo(SessionInfoFact),
    /// How full the context window is.
    Usage(UsageFact),
    /// The current mode.
    Mode(ModeFact),
    /// All config options.
    ConfigOptions(ConfigOptionsFact),
    /// All commands.
    AvailableCommands(AvailableCommandsFact),
    /// A tool call other than bash.
    ToolCall(ToolCallFact),
    /// A link.
    LinkChunk(LinkChunkFact),
    /// A streamed piece of text.
    TextChunk(TextChunk),
    /// The complete text of a message.
    MessagePatch(MessagePatch),
    /// What the foreground work is doing.
    Foreground {
        /// The session.
        session_id: String,
        /// The state it is in now.
        state: ForegroundState,
    },
    /// A bash call.
    BashToolCall(BashToolCall),
}

/// The model of an [`OutboundMessage`].
pub enum OutboundView {
    SessionInfo(SessionInfoView),
    Usage(UsageView),
    Mode(Seq<char>, Seq<char>),
    ConfigOptions(Seq<char>, Seq<ConfigOptionView>),
    AvailableCommands(Seq<char>, Seq<AvailableCommandView>),
    ToolCall(ToolCallView),
    LinkChunk(LinkChunkView),
    TextChunk(TextChunkView),
    MessagePatch(MessagePatchView),
    Foreground(Seq<char>, ForegroundState),
    BashToolCall(BashToolCallView),
}

impl View for OutboundMessage {
    type V = OutboundView;

    open spec fn view(&self) -> OutboundView {
        match self {
            OutboundMessage::SessionInfo(f) => OutboundView::SessionInfo(f@),
            OutboundMessage::Usage(f) => OutboundView::Usage(f@),
            OutboundMessage::Mode(f) => OutboundView::Mode(f.session_id@, f.mode_id@),
            OutboundMessage::ConfigOptions(f) => OutboundView::ConfigOptions(
                f.session_id@,
                option_views(f.options@),
            ),
            OutboundMessage::AvailableCommands(f) => OutboundView::AvailableCommands(
                f.session_id@,
                command_views(f.commands@),
            ),
            OutboundMessage::ToolCall(f) => OutboundView::ToolCall(f@),
            OutboundMessage::LinkChunk(f) => OutboundView::LinkChunk(f@),
            OutboundMessage::TextChunk(f) => OutboundView::TextChunk(f@),
            OutboundMessage::MessagePatch(f) => OutboundView::MessagePatch(f@),
            OutboundMessage::Foreground { session_id, state } => OutboundView::Foreground(
                session_id@,
                *state,
            ),
            OutboundMessage::BashToolCall(f) => OutboundView::BashToolCall(f@),
        }
    }
}

} // verus!
