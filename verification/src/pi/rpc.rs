//! The messages that the adapter and pi exchange, one JSON record per line.

use crate::error::AcpxError;
use crate::json;
use crate::json::{Json, JsonMap, JsonNumber, JsonView, NumberView};
use crate::pi::fields;
use crate::text;
use vstd::prelude::*;
use vstd::string::*;

verus! {

// ---------------------------------------------------------------------------
// Enumerations
// ---------------------------------------------------------------------------

/// How pi takes a prompt that arrives while it is streaming.
#[derive(Debug, Clone, Copy, PartialEq, Eq, Structural)]
pub enum StreamingBehavior {
    /// Steer the running turn.
    Steer,
    /// Follow the running turn.
    FollowUp,
}

/// How much pi reasons.
#[derive(Debug, Clone, Copy, PartialEq, Eq, Structural)]
pub enum ThinkingLevel {
    /// Not at all.
    Off,
    /// Hardly.
    Minimal,
    /// A little.
    Low,
    /// Normally.
    Medium,
    /// A lot.
    High,
    /// As much as possible.
    XHigh,
}

/// How pi drains a message queue.
#[derive(Debug, Clone, Copy, PartialEq, Eq, Structural)]
pub enum QueueMode {
    /// All messages at once.
    All,
    /// One message per turn.
    OneAtATime,
    /// A migrated setting.
    Queue,
    /// Any other mode.
    Other,
}

/// Why pi compacts its context.
#[derive(Debug, Clone, Copy, PartialEq, Eq, Structural)]
pub enum CompactionReason {
    /// The user asked for it.
    Manual,
    /// The context is nearly full.
    Threshold,
    /// The context is full.
    Overflow,
}

/// The behaviour's name on the wire.
pub open spec fn behavior_id(b: StreamingBehavior) -> Seq<char> {
    match b {
        StreamingBehavior::Steer => "steer"@,
        StreamingBehavior::FollowUp => "followUp"@,
    }
}

/// The level's name on the wire.
pub open spec fn level_id(l: ThinkingLevel) -> Seq<char> {
    match l {
        ThinkingLevel::Off => "off"@,
        ThinkingLevel::Minimal => "minimal"@,
        ThinkingLevel::Low => "low"@,
        ThinkingLevel::Medium => "medium"@,
        ThinkingLevel::High => "high"@,
        ThinkingLevel::XHigh => "xhigh"@,
    }
}

/// The level with this name.
pub open spec fn level_named(s: Seq<char>) -> Option<ThinkingLevel> {
    if s == "off"@ {
        Some(ThinkingLevel::Off)
    } else if s == "minimal"@ {
        Some(ThinkingLevel::Minimal)
    } else if s == "low"@ {
        Some(ThinkingLevel::Low)
    } else if s == "medium"@ {
        Some(ThinkingLevel::Medium)
    } else if s == "high"@ {
        Some(ThinkingLevel::High)
    } else if s == "xhigh"@ {
        Some(ThinkingLevel::XHigh)
    } else {
        None
    }
}

/// A level is found by its own name.
pub proof fn level_names_round_trip(l: ThinkingLevel)
    ensures
        level_named(level_id(l)) == Some(l),
{
    reveal_strlit("off");
    reveal_strlit("minimal");
    reveal_strlit("low");
    reveal_strlit("medium");
    reveal_strlit("high");
    reveal_strlit("xhigh");
    assert("off"@[1] != "low"@[1]);
    assert("high"@.len() == 4 && "xhigh"@.len() == 5 && "medium"@.len() == 6 && "minimal"@.len()
        == 7 && "off"@.len() == 3 && "low"@.len() == 3);
}

/// The mode's name on the wire.
pub open spec fn mode_id(m: QueueMode) -> Seq<char> {
    match m {
        QueueMode::All => "all"@,
        QueueMode::OneAtATime => "one-at-a-time"@,
        QueueMode::Queue => "queue"@,
        QueueMode::Other => "other"@,
    }
}

/// The mode with this name; names that are not known stand for another mode.
pub open spec fn mode_named(s: Seq<char>) -> QueueMode {
    if s == "all"@ {
        QueueMode::All
    } else if s == "one-at-a-time"@ {
        QueueMode::OneAtATime
    } else if s == "queue"@ {
        QueueMode::Queue
    } else {
        QueueMode::Other
    }
}

/// The reason with this name.
pub open spec fn reason_named(s: Seq<char>) -> Option<CompactionReason> {
    if s == "manual"@ {
        Some(CompactionReason::Manual)
    } else if s == "threshold"@ {
        Some(CompactionReason::Threshold)
    } else if s == "overflow"@ {
        Some(CompactionReason::Overflow)
    } else {
        None
    }
}

impl ThinkingLevel {
    /// The level's name on the wire.
    pub fn id(self) -> (r: &'static str)
        ensures
            r@ == level_id(self),
    {
        match self {
            ThinkingLevel::Off => "off",
            ThinkingLevel::Minimal => "minimal",
            ThinkingLevel::Low => "low",
            ThinkingLevel::Medium => "medium",
            ThinkingLevel::High => "high",
            ThinkingLevel::XHigh => "xhigh",
        }
    }

    /// The level with this name.
    pub fn parse(s: &str) -> (r: Option<ThinkingLevel>)
        ensures
            r == level_named(s@),
    {
        if text::same(s, "off") {
            Some(ThinkingLevel::Off)
        } else if text::same(s, "minimal") {
            Some(ThinkingLevel::Minimal)
        } else if text::same(s, "low") {
            Some(ThinkingLevel::Low)
        } else if text::same(s, "medium") {
            Some(ThinkingLevel::Medium)
        } else if text::same(s, "high") {
            Some(ThinkingLevel::High)
        } else if text::same(s, "xhigh") {
            Some(ThinkingLevel::XHigh)
        } else {
            None
        }
    }

    /// What the client shows for the level.
    pub open spec fn label_view(self) -> Seq<char> {
        match self {
            ThinkingLevel::Off => "Off"@,
            ThinkingLevel::Minimal => "Minimal"@,
            ThinkingLevel::Low => "Low"@,
            ThinkingLevel::Medium => "Medium"@,
            ThinkingLevel::High => "High"@,
            ThinkingLevel::XHigh => "Extra high"@,
        }
    }

    /// What the client shows for the level.
    pub fn label(self) -> (r: &'static str)
        ensures
            r@ == self.label_view(),
    {
        match self {
            ThinkingLevel::Off => "Off",
            ThinkingLevel::Minimal => "Minimal",
            ThinkingLevel::Low => "Low",
            ThinkingLevel::Medium => "Medium",
            ThinkingLevel::High => "High",
            ThinkingLevel::XHigh => "Extra high",
        }
    }

    /// What the level means.
    pub open spec fn description_view(self) -> Seq<char> {
        match self {
            ThinkingLevel::Off => "No reasoning"@,
            ThinkingLevel::Minimal => "Very brief reasoning"@,
            ThinkingLevel::Low => "Light reasoning"@,
            ThinkingLevel::Medium => "Moderate reasoning"@,
            ThinkingLevel::High => "Deep reasoning"@,
            ThinkingLevel::XHigh => "Maximum reasoning"@,
        }
    }

    /// What the level means.
    pub fn description(self) -> (r: &'static str)
        ensures
            r@ == self.description_view(),
    {
        match self {
            ThinkingLevel::Off => "No reasoning",
            ThinkingLevel::Minimal => "Very brief reasoning",
            ThinkingLevel::Low => "Light reasoning",
            ThinkingLevel::Medium => "Moderate reasoning",
            ThinkingLevel::High => "Deep reasoning",
            ThinkingLevel::XHigh => "Maximum reasoning",
        }
    }

    /// Every level, from none to most.
    pub open spec fn ladder() -> Seq<ThinkingLevel> {
        seq![
            ThinkingLevel::Off,
            ThinkingLevel::Minimal,
            ThinkingLevel::Low,
            ThinkingLevel::Medium,
            ThinkingLevel::High,
            ThinkingLevel::XHigh,
        ]
    }

    /// Every level, from none to most.
    pub fn all() -> (r: Vec<ThinkingLevel>)
        ensures
            r@ == ThinkingLevel::ladder(),
    {
        let mut r: Vec<ThinkingLevel> = Vec::new();
        r.push(ThinkingLevel::Off);
        r.push(ThinkingLevel::Minimal);
        r.push(ThinkingLevel::Low);
        r.push(ThinkingLevel::Medium);
        r.push(ThinkingLevel::High);
        r.push(ThinkingLevel::XHigh);
        assert(r@ =~= ThinkingLevel::ladder());
        r
    }
}

impl QueueMode {
    /// The mode's name on the wire.
    pub fn id(self) -> (r: &'static str)
        ensures
            r@ == mode_id(self),
    {
        match self {
            QueueMode::All => "all",
            QueueMode::OneAtATime => "one-at-a-time",
            QueueMode::Queue => "queue",
            QueueMode::Other => "other",
        }
    }

    /// The mode with this name.
    pub fn parse(s: &str) -> (r: QueueMode)
        ensures
            r == mode_named(s@),
    {
        if text::same(s, "all") {
            QueueMode::All
        } else if text::same(s, "one-at-a-time") {
            QueueMode::OneAtATime
        } else if text::same(s, "queue") {
            QueueMode::Queue
        } else {
            QueueMode::Other
        }
    }
}

impl CompactionReason {
    /// The reason with this name.
    pub fn parse(s: &str) -> (r: Option<CompactionReason>)
        ensures
            r == reason_named(s@),
    {
        if text::same(s, "manual") {
            Some(CompactionReason::Manual)
        } else if text::same(s, "threshold") {
            Some(CompactionReason::Threshold)
        } else if text::same(s, "overflow") {
            Some(CompactionReason::Overflow)
        } else {
            None
        }
    }
}

// ---------------------------------------------------------------------------
// Commands
// ---------------------------------------------------------------------------

/// An image attached to a prompt.
#[derive(Debug, PartialEq)]
pub struct ImageContent {
    /// The image, in base64.
    pub data: String,
    /// The image's type.
    pub mime_type: String,
}

/// The models of a list of images: data and type.
pub open spec fn image_views(v: Seq<ImageContent>) -> Seq<(Seq<char>, Seq<char>)> {
    v.map_values(|i: ImageContent| (i.data@, i.mime_type@))
}

/// A command to pi.
#[derive(Debug)]
pub enum RpcCommand {
    /// Start a turn. pi answers as soon as it accepted the prompt; the turn
    /// itself ends with an event.
    Prompt {
        /// The prompt.
        message: String,
        /// Attached images.
        images: Option<Vec<ImageContent>>,
        /// What to do when a turn is running.
        streaming_behavior: Option<StreamingBehavior>,
    },
    /// End the running turn.
    Abort,
    /// Report the session's state.
    GetState,
    /// Report the models.
    GetAvailableModels,
    /// Report the thinking levels of the current model.
    GetAvailableThinkingLevels,
    /// Choose the model.
    SetModel {
        /// The model's provider.
        provider: String,
        /// The model's id.
        model_id: String,
    },
    /// Choose the thinking level.
    SetThinkingLevel {
        /// The level.
        level: ThinkingLevel,
    },
    /// Choose how follow-up messages are drained.
    SetFollowUpMode {
        /// The mode.
        mode: QueueMode,
    },
    /// Choose how steering messages are drained.
    SetSteeringMode {
        /// The mode.
        mode: QueueMode,
    },
    /// Compact the context.
    Compact {
        /// What to keep in mind.
        custom_instructions: Option<String>,
    },
    /// Switch automatic compaction.
    SetAutoCompaction {
        /// Whether it is on.
        enabled: bool,
    },
    /// Report statistics.
    GetSessionStats,
    /// Name the session.
    SetSessionName {
        /// The name.
        name: String,
    },
    /// Write the session as a web page.
    ExportHtml {
        /// Where to.
        output_path: Option<String>,
    },
    /// Continue another session.
    SwitchSession {
        /// Its file.
        session_path: String,
    },
    /// Report the messages.
    GetMessages,
    /// Report the slash commands.
    GetCommands,
}

/// The JSON of an image.
pub open spec fn image_json(i: ImageContent) -> JsonView {
    JsonView::Object(
        json::put(
            json::put(Seq::empty(), "data"@, JsonView::Str(i.data@)),
            "mimeType"@,
            JsonView::Str(i.mime_type@),
        ),
    )
}

impl RpcCommand {
    /// The command's name on the wire.
    pub open spec fn name_view(self) -> Seq<char> {
        match self {
            RpcCommand::Prompt { .. } => "prompt"@,
            RpcCommand::Abort => "abort"@,
            RpcCommand::GetState => "get_state"@,
            RpcCommand::GetAvailableModels => "get_available_models"@,
            RpcCommand::GetAvailableThinkingLevels => "get_available_thinking_levels"@,
            RpcCommand::SetModel { .. } => "set_model"@,
            RpcCommand::SetThinkingLevel { .. } => "set_thinking_level"@,
            RpcCommand::SetFollowUpMode { .. } => "set_follow_up_mode"@,
            RpcCommand::SetSteeringMode { .. } => "set_steering_mode"@,
            RpcCommand::Compact { .. } => "compact"@,
            RpcCommand::SetAutoCompaction { .. } => "set_auto_compaction"@,
            RpcCommand::GetSessionStats => "get_session_stats"@,
            RpcCommand::SetSessionName { .. } => "set_session_name"@,
            RpcCommand::ExportHtml { .. } => "export_html"@,
            RpcCommand::SwitchSession { .. } => "switch_session"@,
            RpcCommand::GetMessages => "get_messages"@,
            RpcCommand::GetCommands => "get_commands"@,
        }
    }

    /// The members of the command's record: its name, then its parameters;
    /// optional parameters that are not given stay off the wire.
    pub open spec fn members(self) -> Seq<(Seq<char>, JsonView)> {
        let base = json::put(Seq::empty(), "type"@, JsonView::Str(self.name_view()));
        match self {
            RpcCommand::Prompt { message, images, streaming_behavior } => {
                let a = json::put(base, "message"@, JsonView::Str(message@));
                let b = match images {
                    Some(v) => json::put(
                        a,
                        "images"@,
                        JsonView::Array(v@.map_values(|i: ImageContent| image_json(i))),
                    ),
                    None => a,
                };
                match streaming_behavior {
                    Some(s) => json::put(b, "streaming_behavior"@, JsonView::Str(behavior_id(s))),
                    None => b,
                }
            },
            RpcCommand::SetModel { provider, model_id } => json::put(
                json::put(base, "provider"@, JsonView::Str(provider@)),
                "modelId"@,
                JsonView::Str(model_id@),
            ),
            RpcCommand::SetThinkingLevel { level } => json::put(
                base,
                "level"@,
                JsonView::Str(level_id(level)),
            ),
            RpcCommand::SetFollowUpMode { mode } => json::put(
                base,
                "mode"@,
                JsonView::Str(mode_id(mode)),
            ),
            RpcCommand::SetSteeringMode { mode } => json::put(
                base,
                "mode"@,
                JsonView::Str(mode_id(mode)),
            ),
            RpcCommand::Compact { custom_instructions } => match custom_instructions {
                Some(s) => json::put(base, "customInstructions"@, JsonView::Str(s@)),
                None => base,
            },
            RpcCommand::SetAutoCompaction { enabled } => json::put(
                base,
                "enabled"@,
                JsonView::Bool(enabled),
            ),
            RpcCommand::SetSessionName { name } => json::put(
                base,
                "name"@,
                JsonView::Str(name@),
            ),
            RpcCommand::ExportHtml { output_path } => match output_path {
                Some(s) => json::put(base, "outputPath"@, JsonView::Str(s@)),
                None => base,
            },
            RpcCommand::SwitchSession { session_path } => json::put(
                base,
                "sessionPath"@,
                JsonView::Str(session_path@),
            ),
            _ => base,
        }
    }

    /// The command's name on the wire.
    pub fn name(&self) -> (r: &'static str)
        ensures
            r@ == self.name_view(),
    {
        match self {
            RpcCommand::Prompt { .. } => "prompt",
            RpcCommand::Abort => "abort",
            RpcCommand::GetState => "get_state",
            RpcCommand::GetAvailableModels => "get_available_models",
            RpcCommand::GetAvailableThinkingLevels => "get_available_thinking_levels",
            RpcCommand::SetModel { .. } => "set_model",
            RpcCommand::SetThinkingLevel { .. } => "set_thinking_level",
            RpcCommand::SetFollowUpMode { .. } => "set_follow_up_mode",
            RpcCommand::SetSteeringMode { .. } => "set_steering_mode",
            RpcCommand::Compact { .. } => "compact",
            RpcCommand::SetAutoCompaction { .. } => "set_auto_compaction",
            RpcCommand::GetSessionStats => "get_session_stats",
            RpcCommand::SetSessionName { .. } => "set_session_name",
            RpcCommand::ExportHtml { .. } => "export_html",
            RpcCommand::SwitchSession { .. } => "switch_session",
            RpcCommand::GetMessages => "get_messages",
            RpcCommand::GetCommands => "get_commands",
        }
    }

    /// The command's record.
    pub fn to_map(&self) -> (r: JsonMap)
        ensures
            r@ == self.members(),
    {
        broadcast use crate::json::json_view;

        let base = JsonMap::new().with("type", Json::text(self.name()));
        match self {
            RpcCommand::Prompt { message, images, streaming_behavior } => {
                let a = base.with("message", Json::text(message.as_str()));
                let b = match images {
                    Some(v) => a.with("images", images_to_json(v)),
                    None => a,
                };
                match streaming_behavior {
                    Some(StreamingBehavior::Steer) => b.with(
                        "streaming_behavior",
                        Json::text("steer"),
                    ),
                    Some(StreamingBehavior::FollowUp) => b.with(
                        "streaming_behavior",
                        Json::text("followUp"),
                    ),
                    None => b,
                }
            },
            RpcCommand::SetModel { provider, model_id } => base.with(
                "provider",
                Json::text(provider.as_str()),
            ).with("modelId", Json::text(model_id.as_str())),
            RpcCommand::SetThinkingLevel { level } => base.with("level", Json::text(level.id())),
            RpcCommand::SetFollowUpMode { mode } => base.with("mode", Json::text(mode.id())),
            RpcCommand::SetSteeringMode { mode } => base.with("mode", Json::text(mode.id())),
            RpcCommand::Compact { custom_instructions } => match custom_instructions {
                Some(s) => base.with("customInstructions", Json::text(s.as_str())),
                None => base,
            },
            RpcCommand::SetAutoCompaction { enabled } => base.with("enabled", Json::Bool(*enabled)),
            RpcCommand::SetSessionName { name } => base.with("name", Json::text(name.as_str())),
            RpcCommand::ExportHtml { output_path } => match output_path {
                Some(s) => base.with("outputPath", Json::text(s.as_str())),
                None => base,
            },
            RpcCommand::SwitchSession { session_path } => base.with(
                "sessionPath",
                Json::text(session_path.as_str()),
            ),
            _ => base,
        }
    }

    /// The command as one line for pi: its record with the request's id.
    pub fn to_line(&self, id: &str) -> (r: String)
        ensures
            ({
                let record = JsonView::Object(
                    json::put(self.members(), "id"@, JsonView::Str(id@)),
                );
                &&& r@ == json::compact_json(record)
                &&& json::reads_as(r@, record)
                &&& !r@.contains('\n')
            }),
    {
        broadcast use crate::json::json_view;

        let record = Json::Object(self.to_map().with("id", Json::text(id)));
        proof {
            command_is_plain(*self);
            json::put_within(self.members(), "id"@, JsonView::Str(id@), 2);
            json::within_more(record@, 3, 127);
        }
        record.compact()
    }
}

proof fn image_is_plain(i: ImageContent)
    ensures
        json::plain_within(image_json(i), 1),
{
    reveal_strlit("data");
    json::short_name("data"@);
    let data = json::put(Seq::empty(), "data"@, JsonView::Str(i.data@));
    assert(json::members_within(data, 0));
    json::put_within(data, "mimeType"@, JsonView::Str(i.mime_type@), 0);
}

/// A command holds texts and switches, and images of such.
proof fn command_is_plain(c: RpcCommand)
    ensures
        json::members_within(c.members(), 2),
        c.members().len() > 0,
        !json::marked(c.members()),
{
    reveal_strlit("type");
    json::short_name("type"@);
    let base = json::put(Seq::empty(), "type"@, JsonView::Str(c.name_view()));
    assert(json::members_within(base, 2));
    match c {
        RpcCommand::Prompt { message, images, streaming_behavior } => {
            json::put_within(base, "message"@, JsonView::Str(message@), 2);
            let a = json::put(base, "message"@, JsonView::Str(message@));
            let b = match images {
                Some(v) => {
                    let shown = v@.map_values(|i: ImageContent| image_json(i));
                    assert forall|k: int| 0 <= k < shown.len() implies json::plain_within(
                        #[trigger] shown[k],
                        1,
                    ) by {
                        image_is_plain(v@[k]);
                    }
                    json::put_within(a, "images"@, JsonView::Array(shown), 2);
                    json::put(a, "images"@, JsonView::Array(shown))
                },
                None => a,
            };
            if let Some(s) = streaming_behavior {
                json::put_within(b, "streaming_behavior"@, JsonView::Str(behavior_id(s)), 2);
            }
        },
        RpcCommand::SetModel { provider, model_id } => {
            json::put_within(base, "provider"@, JsonView::Str(provider@), 2);
            let named = json::put(base, "provider"@, JsonView::Str(provider@));
            json::put_within(named, "modelId"@, JsonView::Str(model_id@), 2);
        },
        RpcCommand::SetThinkingLevel { level } => {
            json::put_within(base, "level"@, JsonView::Str(level_id(level)), 2);
        },
        RpcCommand::SetFollowUpMode { mode } => {
            json::put_within(base, "mode"@, JsonView::Str(mode_id(mode)), 2);
        },
        RpcCommand::SetSteeringMode { mode } => {
            json::put_within(base, "mode"@, JsonView::Str(mode_id(mode)), 2);
        },
        RpcCommand::Compact { custom_instructions } => {
            if let Some(s) = custom_instructions {
                json::put_within(base, "customInstructions"@, JsonView::Str(s@), 2);
            }
        },
        RpcCommand::SetAutoCompaction { enabled } => {
            json::put_within(base, "enabled"@, JsonView::Bool(enabled), 2);
        },
        RpcCommand::SetSessionName { name } => {
            json::put_within(base, "name"@, JsonView::Str(name@), 2);
        },
        RpcCommand::ExportHtml { output_path } => {
            if let Some(s) = output_path {
                json::put_within(base, "outputPath"@, JsonView::Str(s@), 2);
            }
        },
        RpcCommand::SwitchSession { session_path } => {
            json::put_within(base, "sessionPath"@, JsonView::Str(session_path@), 2);
        },
        _ => {},
    }
}

fn images_to_json(v: &Vec<ImageContent>) -> (r: Json)
    ensures
        r@ == JsonView::Array(v@.map_values(|i: ImageContent| image_json(i))),
{
    broadcast use crate::json::json_view;

    let mut out: Vec<Json> = Vec::new();
    let mut i: usize = 0;
    while i < v.len()
        invariant
            i <= v@.len(),
            out@.len() == i,
            forall|k: int| 0 <= k < i ==> (#[trigger] out@[k])@ == image_json(v@[k]),
        decreases v.len() - i,
    {
        let record = JsonMap::new().with("data", Json::text(v[i].data.as_str())).with(
            "mimeType",
            Json::text(v[i].mime_type.as_str()),
        );
        let item = Json::Object(record);
        proof {
            json::json_view(item);
        }
        out.push(item);
        i += 1;
    }
    assert(json::items_view(out@) =~= v@.map_values(|i: ImageContent| image_json(i)));
    Json::Array(out)
}

/// The answer to an extension's question.
#[derive(Debug)]
pub enum ExtensionUiResponse {
    /// A chosen or entered value.
    Value {
        /// The question.
        id: String,
        /// The value.
        value: String,
    },
    /// Yes or no.
    Confirmed {
        /// The question.
        id: String,
        /// Whether it was yes.
        confirmed: bool,
    },
    /// No answer.
    Cancelled {
        /// The question.
        id: String,
        /// Always true.
        cancelled: bool,
    },
}

impl ExtensionUiResponse {
    /// The members of the answer's record.
    pub open spec fn members(self) -> Seq<(Seq<char>, JsonView)> {
        let base = json::put(Seq::empty(), "type"@, JsonView::Str("extension_ui_response"@));
        match self {
            ExtensionUiResponse::Value { id, value } => json::put(
                json::put(base, "id"@, JsonView::Str(id@)),
                "value"@,
                JsonView::Str(value@),
            ),
            ExtensionUiResponse::Confirmed { id, confirmed } => json::put(
                json::put(base, "id"@, JsonView::Str(id@)),
                "confirmed"@,
                JsonView::Bool(confirmed),
            ),
            ExtensionUiResponse::Cancelled { id, cancelled } => json::put(
                json::put(base, "id"@, JsonView::Str(id@)),
                "cancelled"@,
                JsonView::Bool(cancelled),
            ),
        }
    }

    /// The answer's record.
    pub fn to_map(&self) -> (r: JsonMap)
        ensures
            r@ == self.members(),
    {
        broadcast use crate::json::json_view;

        let base = JsonMap::new().with("type", Json::text("extension_ui_response"));
        match self {
            ExtensionUiResponse::Value { id, value } => base.with(
                "id",
                Json::text(id.as_str()),
            ).with("value", Json::text(value.as_str())),
            ExtensionUiResponse::Confirmed { id, confirmed } => base.with(
                "id",
                Json::text(id.as_str()),
            ).with("confirmed", Json::Bool(*confirmed)),
            ExtensionUiResponse::Cancelled { id, cancelled } => base.with(
                "id",
                Json::text(id.as_str()),
            ).with("cancelled", Json::Bool(*cancelled)),
        }
    }

    /// The answer as one line for pi.
    pub fn to_line(&self) -> (r: String)
        ensures
            r@ == json::compact_json(JsonView::Object(self.members())),
            json::reads_as(r@, JsonView::Object(self.members())),
            !r@.contains('\n'),
    {
        broadcast use crate::json::json_view;

        let record = Json::Object(self.to_map());
        proof {
            reveal_strlit("type");
            json::short_name("type"@);
            let base = json::put(Seq::empty(), "type"@, JsonView::Str("extension_ui_response"@));
            assert(json::members_within(base, 0));
            match self {
                ExtensionUiResponse::Value { id, value } => {
                    json::put_within(base, "id"@, JsonView::Str(id@), 0);
                    let named = json::put(base, "id"@, JsonView::Str(id@));
                    json::put_within(named, "value"@, JsonView::Str(value@), 0);
                },
                ExtensionUiResponse::Confirmed { id, confirmed } => {
                    json::put_within(base, "id"@, JsonView::Str(id@), 0);
                    let named = json::put(base, "id"@, JsonView::Str(id@));
                    json::put_within(named, "confirmed"@, JsonView::Bool(*confirmed), 0);
                },
                ExtensionUiResponse::Cancelled { id, cancelled } => {
                    json::put_within(base, "id"@, JsonView::Str(id@), 0);
                    let named = json::put(base, "id"@, JsonView::Str(id@));
                    json::put_within(named, "cancelled"@, JsonView::Bool(*cancelled), 0);
                },
            }
            json::within_more(record@, 1, 127);
        }
        record.compact()
    }
}

// ---------------------------------------------------------------------------
// Responses
// ---------------------------------------------------------------------------

/// pi's answer to a command.
#[derive(Debug)]
pub struct RpcResponse {
    /// The request it answers; missing when pi could not read the request.
    pub id: Option<String>,
    /// The record's type tag.
    pub kind: String,
    /// The command it answers.
    pub command: String,
    /// Whether the command succeeded.
    pub success: bool,
    /// The result.
    pub data: Option<Json>,
    /// Why the command failed.
    pub error: Option<String>,
}

/// The fields of a response, in order.
pub open spec fn response_fields() -> Seq<Seq<char>> {
    seq![
        "id"@,
        "type"@,
        "command"@,
        "success"@,
        "data"@,
        "error"@,
    ]
}

/// The record of a response: a list stands for its fields.
pub open spec fn response_record(v: JsonView) -> JsonView {
    fields::as_record(v, response_fields(), 4)
}

/// The type tag of a response: empty when missing.
pub open spec fn response_kind(v: JsonView) -> Option<Seq<char>> {
    match json::member(v, "type"@) {
        None => Some(Seq::empty()),
        Some(x) => json::str_of(x),
    }
}

/// Whether a record has the shape of a response.
pub open spec fn readable_response(v: JsonView) -> bool {
    let v = response_record(v);
    &&& v is Object
    &&& fields::optional_text(v, "id"@) is Some
    &&& response_kind(v) is Some
    &&& json::str_member(v, "command"@) is Some
    &&& json::bool_member(v, "success"@) is Some
    &&& fields::optional_text(v, "error"@) is Some
}

impl RpcResponse {
    /// The response holds what the record holds.
    pub open spec fn reads(self, v: JsonView) -> bool {
        let v = response_record(v);
        &&& fields::optional_text(v, "id"@) == Some(text::opt_text(self.id))
        &&& response_kind(v) == Some(self.kind@)
        &&& json::str_member(v, "command"@) == Some(self.command@)
        &&& json::bool_member(v, "success"@) == Some(self.success)
        &&& fields::optional_value(v, "data"@) == json::opt_view(self.data)
        &&& fields::optional_text(v, "error"@) == Some(text::opt_text(self.error))
    }

    /// Read a response; `None` when the record has another shape.
    pub fn from_json(v: &Json) -> (r: Option<RpcResponse>)
        ensures
            match r {
                Some(x) => readable_response(v@) && x.reads(v@),
                None => !readable_response(v@),
            },
    {
        let names = [
            "id",
            "type",
            "command",
            "success",
            "data",
            "error",
        ];
        assert(fields::names_view(names@) =~= response_fields());
        match fields::read_record(v, &names, 4) {
            Some(x) => RpcResponse::from_record(&x),
            None => RpcResponse::from_record(v),
        }
    }

    fn from_record(v: &Json) -> (r: Option<RpcResponse>)
        requires
            !(v@ is Array),
        ensures
            match r {
                Some(x) => readable_response(v@) && x.reads(v@),
                None => !readable_response(v@),
            },
    {
        if !v.is_object() {
            return None;
        }
        let kind = match v.get("type") {
            None => Some(String::new()),
            Some(x) => match x.as_str() {
                Some(s) => Some(s.to_owned()),
                None => None,
            },
        };
        match (
            fields::read_optional_text(v, "id"),
            kind,
            fields::read_text(v, "command"),
            v.get_bool("success"),
            fields::read_optional_text(v, "error"),
        ) {
            (Some(id), Some(kind), Some(command), Some(success), Some(error)) => Some(
                RpcResponse {
                    id,
                    kind,
                    command,
                    success,
                    data: fields::read_optional_value(v, "data"),
                    error,
                },
            ),
            _ => None,
        }
    }

    /// What a command returned: its data when it succeeded (`null` when it had
    /// none), the failure otherwise.
    pub fn ok(self) -> (r: Result<Json, AcpxError>)
        ensures
            match r {
                Ok(d) => self.success && d@ == (match json::opt_view(self.data) {
                    Some(x) => x,
                    None => JsonView::Null,
                }),
                Err(e) => !self.success && e@ == (AcpxError::<Seq<char>>::RpcFailed {
                    command: self.command@,
                    message: match text::opt_text(self.error) {
                        Some(m) => m,
                        None => "no error message"@,
                    },
                }),
            },
    {
        broadcast use crate::json::json_view;

        if self.success {
            match self.data {
                Some(d) => Ok(d),
                None => Ok(Json::Null),
            }
        } else {
            let message = match self.error {
                Some(m) => m,
                None => "no error message".to_owned(),
            };
            Err(AcpxError::RpcFailed { command: self.command, message })
        }
    }
}

// ---------------------------------------------------------------------------
// State
// ---------------------------------------------------------------------------

/// A command in pi's list of commands.
#[derive(Debug)]
pub struct RpcSlashCommand {
    /// Its name, without the slash.
    pub name: String,
    /// What it does.
    pub description: Option<String>,
    /// Where it comes from: `extension`, `prompt` or `skill`.
    pub source: String,
    /// More of where it comes from.
    pub source_info: Option<Json>,
}

/// The fields of a command in the list, in order.
pub open spec fn slash_command_fields() -> Seq<Seq<char>> {
    seq![
        "name"@,
        "description"@,
        "source"@,
        "sourceInfo"@,
    ]
}

/// The record of a command in the list: a list stands for its fields.
pub open spec fn slash_command_record(v: JsonView) -> JsonView {
    fields::as_record(v, slash_command_fields(), 3)
}

/// Whether a record has the shape of a command in the list.
pub open spec fn readable_slash_command(v: JsonView) -> bool {
    let v = slash_command_record(v);
    &&& json::str_member(v, "name"@) is Some
    &&& fields::optional_text(v, "description"@) is Some
    &&& json::str_member(v, "source"@) is Some
}

impl RpcSlashCommand {
    /// The command holds what the record holds.
    pub open spec fn reads(self, v: JsonView) -> bool {
        let v = slash_command_record(v);
        &&& json::str_member(v, "name"@) == Some(self.name@)
        &&& fields::optional_text(v, "description"@) == Some(text::opt_text(self.description))
        &&& json::str_member(v, "source"@) == Some(self.source@)
        &&& fields::optional_value(v, "sourceInfo"@) == json::opt_view(self.source_info)
    }

    /// Read a command; `None` when the record has another shape.
    pub fn from_json(v: &Json) -> (r: Option<RpcSlashCommand>)
        ensures
            match r {
                Some(x) => readable_slash_command(v@) && x.reads(v@),
                None => !readable_slash_command(v@),
            },
    {
        let names = [
            "name",
            "description",
            "source",
            "sourceInfo",
        ];
        assert(fields::names_view(names@) =~= slash_command_fields());
        match fields::read_record(v, &names, 3) {
            Some(x) => RpcSlashCommand::from_record(&x),
            None => RpcSlashCommand::from_record(v),
        }
    }

    fn from_record(v: &Json) -> (r: Option<RpcSlashCommand>)
        requires
            !(v@ is Array),
        ensures
            match r {
                Some(x) => readable_slash_command(v@) && x.reads(v@),
                None => !readable_slash_command(v@),
            },
    {
        match (
            fields::read_text(v, "name"),
            fields::read_optional_text(v, "description"),
            fields::read_text(v, "source"),
        ) {
            (Some(name), Some(description), Some(source)) => Some(
                RpcSlashCommand {
                    name,
                    description,
                    source,
                    source_info: fields::read_optional_value(v, "sourceInfo"),
                },
            ),
            _ => None,
        }
    }
}

/// A model that pi offers.
#[derive(Debug)]
pub struct Model {
    /// The id.
    pub id: String,
    /// The name shown.
    pub name: String,
    /// The provider.
    pub provider: String,
    /// Whether the model can reason.
    pub reasoning: bool,
    /// The provider's address.
    pub base_url: Option<String>,
    /// The size of the context window in tokens.
    pub context_window: Option<u64>,
    /// The longest answer in tokens.
    pub max_tokens: Option<u64>,
    /// The kinds of input.
    pub input: Option<Vec<String>>,
}

/// The fields of a model, in order.
pub open spec fn model_fields() -> Seq<Seq<char>> {
    seq![
        "id"@,
        "name"@,
        "provider"@,
        "reasoning"@,
        "baseUrl"@,
        "contextWindow"@,
        "maxTokens"@,
        "input"@,
    ]
}

/// The record of a model: a list stands for its fields.
pub open spec fn model_record(v: JsonView) -> JsonView {
    fields::as_record(v, model_fields(), 3)
}

/// Whether a record has the shape of a model.
pub open spec fn readable_model(v: JsonView) -> bool {
    let v = model_record(v);
    &&& json::str_member(v, "id"@) is Some
    &&& json::str_member(v, "name"@) is Some
    &&& json::str_member(v, "provider"@) is Some
    &&& fields::flag(v, "reasoning"@) is Some
    &&& fields::optional_text(v, "baseUrl"@) is Some
    &&& fields::optional_count(v, "contextWindow"@) is Some
    &&& fields::optional_count(v, "maxTokens"@) is Some
    &&& fields::optional_text_list(v, "input"@) is Some
}

impl Model {
    /// The model holds what the record holds.
    pub open spec fn reads(self, v: JsonView) -> bool {
        let v = model_record(v);
        &&& json::str_member(v, "id"@) == Some(self.id@)
        &&& json::str_member(v, "name"@) == Some(self.name@)
        &&& json::str_member(v, "provider"@) == Some(self.provider@)
        &&& fields::flag(v, "reasoning"@) == Some(self.reasoning)
        &&& fields::optional_text(v, "baseUrl"@) == Some(text::opt_text(self.base_url))
        &&& fields::optional_count(v, "contextWindow"@) == Some(self.context_window)
        &&& fields::optional_count(v, "maxTokens"@) == Some(self.max_tokens)
        &&& fields::optional_text_list(v, "input"@) == Some(fields::opt_texts(self.input))
    }

    /// Read a model; `None` when the record has another shape.
    pub fn from_json(v: &Json) -> (r: Option<Model>)
        ensures
            match r {
                Some(x) => readable_model(v@) && x.reads(v@),
                None => !readable_model(v@),
            },
    {
        let names = [
            "id",
            "name",
            "provider",
            "reasoning",
            "baseUrl",
            "contextWindow",
            "maxTokens",
            "input",
        ];
        assert(fields::names_view(names@) =~= model_fields());
        match fields::read_record(v, &names, 3) {
            Some(x) => Model::from_record(&x),
            None => Model::from_record(v),
        }
    }

    fn from_record(v: &Json) -> (r: Option<Model>)
        requires
            !(v@ is Array),
        ensures
            match r {
                Some(x) => readable_model(v@) && x.reads(v@),
                None => !readable_model(v@),
            },
    {
        match (
            fields::read_text(v, "id"),
            fields::read_text(v, "name"),
            fields::read_text(v, "provider"),
            fields::read_flag(v, "reasoning"),
            fields::read_optional_text(v, "baseUrl"),
            fields::read_optional_count(v, "contextWindow"),
            fields::read_optional_count(v, "maxTokens"),
            fields::read_optional_text_list(v, "input"),
        ) {
            (
                Some(id),
                Some(name),
                Some(provider),
                Some(reasoning),
                Some(base_url),
                Some(context_window),
                Some(max_tokens),
                Some(input),
            ) => Some(
                Model {
                    id,
                    name,
                    provider,
                    reasoning,
                    base_url,
                    context_window,
                    max_tokens,
                    input,
                },
            ),
            _ => None,
        }
    }
}

/// The models in a list, in order; `None` when an item is none.
pub open spec fn readable_models(items: Seq<JsonView>) -> bool {
    forall|i: int| 0 <= i < items.len() ==> readable_model(#[trigger] items[i])
}

/// The models hold what the list holds.
pub open spec fn models_read(models: Seq<Model>, items: Seq<JsonView>) -> bool {
    &&& models.len() == items.len()
    &&& forall|i: int| 0 <= i < items.len() ==> (#[trigger] models[i]).reads(items[i])
}

/// Read a list of models; `None` when an item is none.
pub fn read_models(items: &Vec<Json>) -> (r: Option<Vec<Model>>)
    ensures
        match r {
            Some(x) => readable_models(json::items_view(items@)) && models_read(
                x@,
                json::items_view(items@),
            ),
            None => !readable_models(json::items_view(items@)),
        },
{
    let ghost model = json::items_view(items@);
    let mut r: Vec<Model> = Vec::new();
    let mut i: usize = 0;
    while i < items.len()
        invariant
            i <= items@.len(),
            model == json::items_view(items@),
            r@.len() == i,
            forall|k: int| 0 <= k < i ==> readable_model(#[trigger] model[k]),
            forall|k: int| 0 <= k < i ==> (#[trigger] r@[k]).reads(model[k]),
        decreases items.len() - i,
    {
        assert(model[i as int] == items@[i as int]@);
        match Model::from_json(&items[i]) {
            Some(m) => r.push(m),
            None => return None,
        }
        i += 1;
    }
    Some(r)
}

/// The list of models in the answer to a request for models.
pub open spec fn listed_models(data: JsonView) -> Option<Seq<JsonView>> {
    match json::member(data, "models"@) {
        Some(JsonView::Array(items)) => if readable_models(items) {
            Some(items)
        } else {
            None
        },
        _ => None,
    }
}

/// The models in the answer to a request for models: a failed request when the
/// answer has no list, a shape error when the list is none of models. `refusal`
/// is what the JSON reader says of such a list.
pub fn available_models(data: &Json, refusal: &str) -> (r: Result<Vec<Model>, AcpxError>)
    ensures
        match r {
            Ok(m) => listed_models(data@) is Some && models_read(m@, listed_models(data@)->0),
            Err(e) => if json::member(data@, "models"@) is None {
                e@ == (AcpxError::<Seq<char>>::RpcFailed {
                    command: "get_available_models"@,
                    message: "response missing data.models"@,
                })
            } else {
                listed_models(data@) is None && e@ == AcpxError::<Seq<char>>::Json(refusal@)
            },
        },
{
    match data.get("models") {
        None => Err(
            AcpxError::RpcFailed {
                command: "get_available_models".to_owned(),
                message: "response missing data.models".to_owned(),
            },
        ),
        Some(x) => {
            if let Some(items) = x.as_array() {
                if let Some(models) = read_models(items) {
                    return Ok(models);
                }
            }
            Err(AcpxError::Json(refusal.to_owned()))
        },
    }
}

/// The state that pi reports of its session.
#[derive(Debug)]
pub struct RpcSessionState {
    /// The model in use.
    pub model: Option<Model>,
    /// The thinking level.
    pub thinking_level: ThinkingLevel,
    /// Whether pi is answering.
    pub is_streaming: bool,
    /// Whether pi is compacting.
    pub is_compacting: bool,
    /// How steering messages are drained.
    pub steering_mode: QueueMode,
    /// How follow-up messages are drained.
    pub follow_up_mode: QueueMode,
    /// The session's file.
    pub session_file: Option<String>,
    /// The session's id.
    pub session_id: String,
    /// The session's name.
    pub session_name: Option<String>,
    /// Whether automatic compaction is on.
    pub auto_compaction_enabled: bool,
    /// How many messages the session has.
    pub message_count: u64,
    /// How many messages wait.
    pub pending_message_count: u64,
}

/// The fields of a session state, in order.
pub open spec fn state_fields() -> Seq<Seq<char>> {
    seq![
        "model"@,
        "thinkingLevel"@,
        "isStreaming"@,
        "isCompacting"@,
        "steeringMode"@,
        "followUpMode"@,
        "sessionFile"@,
        "sessionId"@,
        "sessionName"@,
        "autoCompactionEnabled"@,
        "messageCount"@,
        "pendingMessageCount"@,
    ]
}

/// The record of a session state: a list stands for its fields.
pub open spec fn state_record(v: JsonView) -> JsonView {
    fields::as_record(v, state_fields(), 12)
}

/// A thinking level member.
pub open spec fn level_member(v: JsonView, name: Seq<char>) -> Option<ThinkingLevel> {
    match json::member(v, name) {
        Some(x) => match fields::choice(x) {
            Some(s) => level_named(s),
            None => None,
        },
        None => None,
    }
}

/// A queue mode member.
pub open spec fn mode_member(v: JsonView, name: Seq<char>) -> Option<QueueMode> {
    match json::member(v, name) {
        Some(x) => match fields::choice(x) {
            Some(s) => Some(mode_named(s)),
            None => None,
        },
        None => None,
    }
}

/// Whether the optional member `model` has its shape.
pub open spec fn readable_model_member(v: JsonView) -> bool {
    match fields::optional_value(v, "model"@) {
        Some(m) => readable_model(m),
        None => true,
    }
}

/// Whether a record has the shape of a session state.
pub open spec fn readable_state(v: JsonView) -> bool {
    let v = state_record(v);
    &&& readable_model_member(v)
    &&& level_member(v, "thinkingLevel"@) is Some
    &&& json::bool_member(v, "isStreaming"@) is Some
    &&& json::bool_member(v, "isCompacting"@) is Some
    &&& mode_member(v, "steeringMode"@) is Some
    &&& mode_member(v, "followUpMode"@) is Some
    &&& fields::optional_text(v, "sessionFile"@) is Some
    &&& json::str_member(v, "sessionId"@) is Some
    &&& fields::optional_text(v, "sessionName"@) is Some
    &&& json::bool_member(v, "autoCompactionEnabled"@) is Some
    &&& json::u64_member(v, "messageCount"@) is Some
    &&& json::u64_member(v, "pendingMessageCount"@) is Some
}

fn read_level(v: &Json, name: &str) -> (r: Option<ThinkingLevel>)
    ensures
        r == level_member(v@, name@),
{
    match v.get(name) {
        Some(x) => match fields::read_choice(x) {
            Some(s) => ThinkingLevel::parse(s),
            None => None,
        },
        None => None,
    }
}

fn read_mode(v: &Json, name: &str) -> (r: Option<QueueMode>)
    ensures
        r == mode_member(v@, name@),
{
    match v.get(name) {
        Some(x) => match fields::read_choice(x) {
            Some(s) => Some(QueueMode::parse(s)),
            None => None,
        },
        None => None,
    }
}

fn read_model_member(v: &Json) -> (r: Option<Option<Model>>)
    ensures
        match r {
            Some(Some(m)) => readable_model_member(v@) && fields::optional_value(v@, "model"@)
                is Some && m.reads(fields::optional_value(v@, "model"@)->0),
            Some(None) => fields::optional_value(v@, "model"@) is None,
            None => !readable_model_member(v@),
        },
{
    match v.get("model") {
        None => Some(None),
        Some(x) => if x.is_null() {
            Some(None)
        } else {
            match Model::from_json(x) {
                Some(m) => Some(Some(m)),
                None => None,
            }
        },
    }
}

impl RpcSessionState {
    /// The state holds what the record holds.
    pub open spec fn reads(self, v: JsonView) -> bool {
        let v = state_record(v);
        &&& match (self.model, fields::optional_value(v, "model"@)) {
            (Some(m), Some(x)) => m.reads(x),
            (None, None) => true,
            _ => false,
        }
        &&& level_member(v, "thinkingLevel"@) == Some(self.thinking_level)
        &&& json::bool_member(v, "isStreaming"@) == Some(self.is_streaming)
        &&& json::bool_member(v, "isCompacting"@) == Some(self.is_compacting)
        &&& mode_member(v, "steeringMode"@) == Some(self.steering_mode)
        &&& mode_member(v, "followUpMode"@) == Some(self.follow_up_mode)
        &&& fields::optional_text(v, "sessionFile"@) == Some(text::opt_text(self.session_file))
        &&& json::str_member(v, "sessionId"@) == Some(self.session_id@)
        &&& fields::optional_text(v, "sessionName"@) == Some(text::opt_text(self.session_name))
        &&& json::bool_member(v, "autoCompactionEnabled"@) == Some(self.auto_compaction_enabled)
        &&& json::u64_member(v, "messageCount"@) == Some(self.message_count)
        &&& json::u64_member(v, "pendingMessageCount"@) == Some(self.pending_message_count)
    }

    /// Read a session state; `None` when the record has another shape.
    pub fn from_json(v: &Json) -> (r: Option<RpcSessionState>)
        ensures
            match r {
                Some(x) => readable_state(v@) && x.reads(v@),
                None => !readable_state(v@),
            },
    {
        let names = [
            "model",
            "thinkingLevel",
            "isStreaming",
            "isCompacting",
            "steeringMode",
            "followUpMode",
            "sessionFile",
            "sessionId",
            "sessionName",
            "autoCompactionEnabled",
            "messageCount",
            "pendingMessageCount",
        ];
        assert(fields::names_view(names@) =~= state_fields());
        match fields::read_record(v, &names, 12) {
            Some(x) => RpcSessionState::from_record(&x),
            None => RpcSessionState::from_record(v),
        }
    }

    fn from_record(v: &Json) -> (r: Option<RpcSessionState>)
        requires
            !(v@ is Array),
        ensures
            match r {
                Some(x) => readable_state(v@) && x.reads(v@),
                None => !readable_state(v@),
            },
    {
        let model = match read_model_member(v) {
            Some(m) => m,
            None => return None,
        };
        match (
            read_level(v, "thinkingLevel"),
            v.get_bool("isStreaming"),
            v.get_bool("isCompacting"),
            read_mode(v, "steeringMode"),
            read_mode(v, "followUpMode"),
        ) {
            (
                Some(thinking_level),
                Some(is_streaming),
                Some(is_compacting),
                Some(steering_mode),
                Some(follow_up_mode),
            ) => {
                match (
                    fields::read_optional_text(v, "sessionFile"),
                    fields::read_text(v, "sessionId"),
                    fields::read_optional_text(v, "sessionName"),
                    v.get_bool("autoCompactionEnabled"),
                    v.get_u64("messageCount"),
                    v.get_u64("pendingMessageCount"),
                ) {
                    (
                        Some(session_file),
                        Some(session_id),
                        Some(session_name),
                        Some(auto_compaction_enabled),
                        Some(message_count),
                        Some(pending_message_count),
                    ) => Some(
                        RpcSessionState {
                            model,
                            thinking_level,
                            is_streaming,
                            is_compacting,
                            steering_mode,
                            follow_up_mode,
                            session_file,
                            session_id,
                            session_name,
                            auto_compaction_enabled,
                            message_count,
                            pending_message_count,
                        },
                    ),
                    _ => None,
                }
            },
            _ => None,
        }
    }
}

// ---------------------------------------------------------------------------
// Usage
// ---------------------------------------------------------------------------

/// What a turn cost, in dollars.
#[derive(Debug)]
pub struct Cost {
    /// For the input.
    pub input: JsonNumber,
    /// For the output.
    pub output: JsonNumber,
    /// For reading the cache.
    pub cache_read: JsonNumber,
    /// For writing the cache.
    pub cache_write: JsonNumber,
    /// Together.
    pub total: JsonNumber,
}

/// Tokens and cost of a turn.
#[derive(Debug)]
pub struct Usage {
    /// Input tokens.
    pub input: u64,
    /// Output tokens.
    pub output: u64,
    /// Tokens read from the cache.
    pub cache_read: u64,
    /// Tokens written to the cache.
    pub cache_write: u64,
    /// Of those, the ones kept for an hour.
    pub cache_write_1h: Option<u64>,
    /// Reasoning tokens.
    pub reasoning: Option<u64>,
    /// All tokens.
    pub total_tokens: u64,
    /// The cost.
    pub cost: Option<Cost>,
}

/// The fields of a cost, in order.
pub open spec fn cost_fields() -> Seq<Seq<char>> {
    seq![
        "input"@,
        "output"@,
        "cacheRead"@,
        "cacheWrite"@,
        "total"@,
    ]
}

/// The record of a cost: a list stands for its fields.
pub open spec fn cost_record(v: JsonView) -> JsonView {
    fields::as_record(v, cost_fields(), 0)
}

/// Whether a record has the shape of a cost.
pub open spec fn readable_cost(v: JsonView) -> bool {
    let v = cost_record(v);
    &&& v is Object
    &&& fields::number(v, "input"@) is Some
    &&& fields::number(v, "output"@) is Some
    &&& fields::number(v, "cacheRead"@) is Some
    &&& fields::number(v, "cacheWrite"@) is Some
    &&& fields::number(v, "total"@) is Some
}

impl Cost {
    /// The cost holds what the record holds.
    pub open spec fn reads(self, v: JsonView) -> bool {
        let v = cost_record(v);
        &&& fields::number(v, "input"@) == Some(self.input@)
        &&& fields::number(v, "output"@) == Some(self.output@)
        &&& fields::number(v, "cacheRead"@) == Some(self.cache_read@)
        &&& fields::number(v, "cacheWrite"@) == Some(self.cache_write@)
        &&& fields::number(v, "total"@) == Some(self.total@)
    }

    /// Read a cost; `None` when the record has another shape.
    pub fn from_json(v: &Json) -> (r: Option<Cost>)
        ensures
            match r {
                Some(x) => readable_cost(v@) && x.reads(v@),
                None => !readable_cost(v@),
            },
    {
        let names = [
            "input",
            "output",
            "cacheRead",
            "cacheWrite",
            "total",
        ];
        assert(fields::names_view(names@) =~= cost_fields());
        match fields::read_record(v, &names, 0) {
            Some(x) => Cost::from_record(&x),
            None => Cost::from_record(v),
        }
    }

    fn from_record(v: &Json) -> (r: Option<Cost>)
        requires
            !(v@ is Array),
        ensures
            match r {
                Some(x) => readable_cost(v@) && x.reads(v@),
                None => !readable_cost(v@),
            },
    {
        if !v.is_object() {
            return None;
        }
        match (
            fields::read_number(v, "input"),
            fields::read_number(v, "output"),
            fields::read_number(v, "cacheRead"),
            fields::read_number(v, "cacheWrite"),
            fields::read_number(v, "total"),
        ) {
            (Some(input), Some(output), Some(cache_read), Some(cache_write), Some(total)) => Some(
                Cost { input, output, cache_read, cache_write, total },
            ),
            _ => None,
        }
    }
}

/// The fields of a usage report, in order.
pub open spec fn usage_fields() -> Seq<Seq<char>> {
    seq![
        "input"@,
        "output"@,
        "cacheRead"@,
        "cacheWrite"@,
        "cacheWrite1h"@,
        "reasoning"@,
        "totalTokens"@,
        "cost"@,
    ]
}

/// The record of a usage report: a list stands for its fields.
pub open spec fn usage_record(v: JsonView) -> JsonView {
    fields::as_record(v, usage_fields(), 0)
}

/// Whether the optional member `cost` has its shape.
pub open spec fn readable_cost_member(v: JsonView) -> bool {
    match fields::optional_value(v, "cost"@) {
        Some(c) => readable_cost(c),
        None => true,
    }
}

/// Whether a record has the shape of a usage report.
pub open spec fn readable_usage(v: JsonView) -> bool {
    let v = usage_record(v);
    &&& v is Object
    &&& fields::count(v, "input"@) is Some
    &&& fields::count(v, "output"@) is Some
    &&& fields::count(v, "cacheRead"@) is Some
    &&& fields::count(v, "cacheWrite"@) is Some
    &&& fields::optional_count(v, "cacheWrite1h"@) is Some
    &&& fields::optional_count(v, "reasoning"@) is Some
    &&& fields::count(v, "totalTokens"@) is Some
    &&& readable_cost_member(v)
}

fn read_cost_member(v: &Json) -> (r: Option<Option<Cost>>)
    ensures
        match r {
            Some(Some(c)) => readable_cost_member(v@) && fields::optional_value(v@, "cost"@) is Some
                && c.reads(fields::optional_value(v@, "cost"@)->0),
            Some(None) => fields::optional_value(v@, "cost"@) is None,
            None => !readable_cost_member(v@),
        },
{
    match v.get("cost") {
        None => Some(None),
        Some(x) => if x.is_null() {
            Some(None)
        } else {
            match Cost::from_json(x) {
                Some(c) => Some(Some(c)),
                None => None,
            }
        },
    }
}

impl Usage {
    /// The report holds what the record holds.
    pub open spec fn reads(self, v: JsonView) -> bool {
        let v = usage_record(v);
        &&& fields::count(v, "input"@) == Some(self.input)
        &&& fields::count(v, "output"@) == Some(self.output)
        &&& fields::count(v, "cacheRead"@) == Some(self.cache_read)
        &&& fields::count(v, "cacheWrite"@) == Some(self.cache_write)
        &&& fields::optional_count(v, "cacheWrite1h"@) == Some(self.cache_write_1h)
        &&& fields::optional_count(v, "reasoning"@) == Some(self.reasoning)
        &&& fields::count(v, "totalTokens"@) == Some(self.total_tokens)
        &&& match (self.cost, fields::optional_value(v, "cost"@)) {
            (Some(c), Some(x)) => c.reads(x),
            (None, None) => true,
            _ => false,
        }
    }

    /// Read a usage report; `None` when the record has another shape.
    pub fn from_json(v: &Json) -> (r: Option<Usage>)
        ensures
            match r {
                Some(x) => readable_usage(v@) && x.reads(v@),
                None => !readable_usage(v@),
            },
    {
        let names = [
            "input",
            "output",
            "cacheRead",
            "cacheWrite",
            "cacheWrite1h",
            "reasoning",
            "totalTokens",
            "cost",
        ];
        assert(fields::names_view(names@) =~= usage_fields());
        match fields::read_record(v, &names, 0) {
            Some(x) => Usage::from_record(&x),
            None => Usage::from_record(v),
        }
    }

    fn from_record(v: &Json) -> (r: Option<Usage>)
        requires
            !(v@ is Array),
        ensures
            match r {
                Some(x) => readable_usage(v@) && x.reads(v@),
                None => !readable_usage(v@),
            },
    {
        if !v.is_object() {
            return None;
        }
        let cost = match read_cost_member(v) {
            Some(c) => c,
            None => return None,
        };
        match (
            fields::read_count(v, "input"),
            fields::read_count(v, "output"),
            fields::read_count(v, "cacheRead"),
            fields::read_count(v, "cacheWrite"),
            fields::read_optional_count(v, "cacheWrite1h"),
            fields::read_optional_count(v, "reasoning"),
            fields::read_count(v, "totalTokens"),
        ) {
            (
                Some(input),
                Some(output),
                Some(cache_read),
                Some(cache_write),
                Some(cache_write_1h),
                Some(reasoning),
                Some(total_tokens),
            ) => Some(
                Usage {
                    input,
                    output,
                    cache_read,
                    cache_write,
                    cache_write_1h,
                    reasoning,
                    total_tokens,
                    cost,
                },
            ),
            _ => None,
        }
    }
}

/// Whether a number is above zero. A number that is no integer prints with a
/// minus sign when it is negative, and as `0.0` when it is zero.
pub open spec fn positive(n: NumberView) -> bool {
    match n {
        NumberView::Int(i) => i > 0,
        NumberView::Real(t) => t.len() > 0 && t[0] != '-' && t != "0.0"@,
    }
}

/// Whether a number is above zero.
pub fn is_positive(n: &JsonNumber) -> (r: bool)
    ensures
        r == positive(n@),
{
    match n {
        JsonNumber::Unsigned(i) => *i > 0,
        JsonNumber::Signed(i) => *i > 0,
        JsonNumber::Real(x) => {
            let t = x.text();
            let n = t.unicode_len();
            n > 0 && t.get_char(0) != '-' && !text::same(t, "0.0")
        },
    }
}

} // verus!
