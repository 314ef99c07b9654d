//! The events that pi reports while it works.

use crate::json;
use crate::json::{Json, JsonMap, JsonView};
use crate::pi::fields;
use crate::pi::rpc;
use crate::pi::rpc::{CompactionReason, ThinkingLevel, Usage};
use crate::text;
use vstd::prelude::*;
use vstd::string::*;

verus! {

/// A compaction reason member.
pub open spec fn reason_member(v: JsonView, name: Seq<char>) -> Option<CompactionReason> {
    match json::member(v, name) {
        Some(x) => match fields::event_choice(x) {
            Some(s) => rpc::reason_named(s),
            None => None,
        },
        None => None,
    }
}

/// A thinking level member.
pub open spec fn level_member(v: JsonView, name: Seq<char>) -> Option<ThinkingLevel> {
    match json::member(v, name) {
        Some(x) => match fields::event_choice(x) {
            Some(s) => rpc::level_named(s),
            None => None,
        },
        None => None,
    }
}

fn read_level(v: &Json, name: &str) -> (r: Option<ThinkingLevel>)
    ensures
        r == level_member(v@, name@),
{
    match v.get(name) {
        Some(x) => match fields::read_event_choice(x) {
            Some(s) => ThinkingLevel::parse(s),
            None => None,
        },
        None => None,
    }
}

/// An optional compaction reason member.
pub open spec fn optional_reason(v: JsonView, name: Seq<char>) -> Option<
    Option<CompactionReason>,
> {
    match fields::optional_value(v, name) {
        None => Some(None),
        Some(_) => match reason_member(v, name) {
            Some(r) => Some(Some(r)),
            None => None,
        },
    }
}

fn read_reason(v: &Json, name: &str) -> (r: Option<CompactionReason>)
    ensures
        r == reason_member(v@, name@),
{
    match v.get(name) {
        Some(x) => match fields::read_event_choice(x) {
            Some(s) => CompactionReason::parse(s),
            None => None,
        },
        None => None,
    }
}

fn read_optional_reason(v: &Json, name: &str) -> (r: Option<Option<CompactionReason>>)
    ensures
        r == optional_reason(v@, name@),
{
    match v.get(name) {
        None => Some(None),
        Some(x) => if x.is_null() {
            Some(None)
        } else {
            match read_reason(v, name) {
                Some(r) => Some(Some(r)),
                None => None,
            }
        },
    }
}

// ---------------------------------------------------------------------------
// Parts of a message
// ---------------------------------------------------------------------------

/// What happened to the message that the assistant is writing.
#[derive(Debug)]
pub enum AssistantMessageEvent {
    /// The message began.
    Start {
        /// The content block it is about.
        content_index: u32,
    },
    /// A text block began.
    TextStart {
        /// The content block it is about.
        content_index: u32,
    },
    /// A text block grew.
    TextDelta {
        /// The content block it is about.
        content_index: u32,
        /// What was added.
        delta: String,
    },
    /// A text block ended.
    TextEnd {
        /// The content block it is about.
        content_index: u32,
        /// The whole block.
        content: String,
    },
    /// A reasoning block began.
    ThinkingStart {
        /// The content block it is about.
        content_index: u32,
    },
    /// A reasoning block grew.
    ThinkingDelta {
        /// The content block it is about.
        content_index: u32,
        /// What was added.
        delta: String,
    },
    /// A reasoning block ended.
    ThinkingEnd {
        /// The content block it is about.
        content_index: u32,
        /// The whole block.
        content: String,
    },
    /// A tool call began.
    ToolcallStart {
        /// The content block it is about.
        content_index: u32,
        /// The call.
        id: String,
        /// The tool.
        tool_name: String,
    },
    /// The arguments of a tool call grew.
    ToolcallDelta {
        /// The content block it is about.
        content_index: u32,
        /// What was added.
        delta: String,
    },
    /// A tool call is complete.
    ToolcallEnd {
        /// The content block it is about.
        content_index: u32,
        /// The call.
        tool_call: Json,
    },
    /// The message ended.
    Done {
        /// Why.
        reason: String,
        /// The whole message.
        message: Json,
    },
    /// The message failed.
    Error {
        /// Why.
        reason: String,
        /// The error.
        error: Json,
    },
}

/// The fields of the message part with a tag, in order, and how many of them must
/// be there.
pub open spec fn part_fields(tag: Seq<char>) -> Option<(Seq<Seq<char>>, nat)> {
    if tag == "start"@ || tag == "text_start"@ || tag == "thinking_start"@ {
        Some((seq!["contentIndex"@], 1))
    } else if tag == "text_delta"@ || tag == "thinking_delta"@ || tag == "toolcall_delta"@ {
        Some((seq!["contentIndex"@, "delta"@], 2))
    } else if tag == "text_end"@ || tag == "thinking_end"@ {
        Some((seq!["contentIndex"@, "content"@], 2))
    } else if tag == "toolcall_start"@ {
        Some((seq!["contentIndex"@, "id"@, "toolName"@], 3))
    } else if tag == "toolcall_end"@ {
        Some((seq!["contentIndex"@, "toolCall"@], 2))
    } else if tag == "done"@ {
        Some((seq!["reason"@, "message"@], 2))
    } else if tag == "error"@ {
        Some((seq!["reason"@, "error"@], 2))
    } else {
        None
    }
}

fn read_part_fields(tag: &str) -> (r: Option<(Vec<&'static str>, usize)>)
    ensures
        match r {
            Some((names, needed)) => part_fields(tag@) == Some(
                (fields::names_view(names@), needed as nat),
            ),
            None => part_fields(tag@) is None,
        },
{
    if text::same(tag, "start") || text::same(tag, "text_start")
        || text::same(tag, "thinking_start")
    {
        let names: Vec<&'static str> = vec!["contentIndex"];
        assert(fields::names_view(names@) =~= seq!["contentIndex"@]);
        return Some((names, 1));
    }
    if text::same(tag, "text_delta") || text::same(tag, "thinking_delta")
        || text::same(tag, "toolcall_delta")
    {
        let names: Vec<&'static str> = vec!["contentIndex", "delta"];
        assert(fields::names_view(names@) =~= seq!["contentIndex"@, "delta"@]);
        return Some((names, 2));
    }
    if text::same(tag, "text_end") || text::same(tag, "thinking_end") {
        let names: Vec<&'static str> = vec!["contentIndex", "content"];
        assert(fields::names_view(names@) =~= seq!["contentIndex"@, "content"@]);
        return Some((names, 2));
    }
    if text::same(tag, "toolcall_start") {
        let names: Vec<&'static str> = vec!["contentIndex", "id", "toolName"];
        assert(fields::names_view(names@) =~= seq!["contentIndex"@, "id"@, "toolName"@]);
        return Some((names, 3));
    }
    if text::same(tag, "toolcall_end") {
        let names: Vec<&'static str> = vec!["contentIndex", "toolCall"];
        assert(fields::names_view(names@) =~= seq!["contentIndex"@, "toolCall"@]);
        return Some((names, 2));
    }
    if text::same(tag, "done") {
        let names: Vec<&'static str> = vec!["reason", "message"];
        assert(fields::names_view(names@) =~= seq!["reason"@, "message"@]);
        return Some((names, 2));
    }
    if text::same(tag, "error") {
        let names: Vec<&'static str> = vec!["reason", "error"];
        assert(fields::names_view(names@) =~= seq!["reason"@, "error"@]);
        return Some((names, 2));
    }
    None
}

/// The tag that a number stands for.
pub open spec fn part_tag(n: u64) -> Option<Seq<char>> {
    if n == 0 {
        Some("start"@)
    } else if n == 1 {
        Some("text_start"@)
    } else if n == 2 {
        Some("text_delta"@)
    } else if n == 3 {
        Some("text_end"@)
    } else if n == 4 {
        Some("thinking_start"@)
    } else if n == 5 {
        Some("thinking_delta"@)
    } else if n == 6 {
        Some("thinking_end"@)
    } else if n == 7 {
        Some("toolcall_start"@)
    } else if n == 8 {
        Some("toolcall_delta"@)
    } else if n == 9 {
        Some("toolcall_end"@)
    } else if n == 10 {
        Some("done"@)
    } else if n == 11 {
        Some("error"@)
    } else {
        None
    }
}

fn read_part_tag(n: u64) -> (r: Option<&'static str>)
    ensures
        text::opt_str(r) == part_tag(n),
{
    if n == 0 {
        return Some("start");
    }
    if n == 1 {
        return Some("text_start");
    }
    if n == 2 {
        return Some("text_delta");
    }
    if n == 3 {
        return Some("text_end");
    }
    if n == 4 {
        return Some("thinking_start");
    }
    if n == 5 {
        return Some("thinking_delta");
    }
    if n == 6 {
        return Some("thinking_end");
    }
    if n == 7 {
        return Some("toolcall_start");
    }
    if n == 8 {
        return Some("toolcall_delta");
    }
    if n == 9 {
        return Some("toolcall_end");
    }
    if n == 10 {
        return Some("done");
    }
    if n == 11 {
        return Some("error");
    }
    None
}

/// The tag that a value is: its name or its number.
pub open spec fn part_tag_in(v: JsonView) -> Option<Seq<char>> {
    match json::u64_of(v) {
        Some(n) => part_tag(n),
        None => json::str_of(v),
    }
}

/// The record of a message part as it stands in an event. Its tag may be a
/// number, and a list stands for the tag and the fields.
pub open spec fn part_record(v: JsonView) -> JsonView {
    match v {
        JsonView::Array(items) => if items.len() == 0 {
            JsonView::Null
        } else {
            match part_tag_in(items[0]) {
                Some(tag) => match part_fields(tag) {
                    Some((names, needed)) => fields::listed(
                        seq![("type"@, JsonView::Str(tag))],
                        names,
                        needed,
                        items.skip(1),
                    ),
                    None => JsonView::Null,
                },
                None => JsonView::Null,
            }
        },
        JsonView::Object(es) => match json::u64_member(v, "type"@) {
            Some(n) => match part_tag(n) {
                Some(tag) => JsonView::Object(json::put(es, "type"@, JsonView::Str(tag))),
                None => JsonView::Null,
            },
            None => v,
        },
        _ => v,
    }
}

fn with_tag(tag: &str) -> (r: JsonMap)
    ensures
        r@ == seq![("type"@, JsonView::Str(tag@))],
{
    let r = JsonMap::new().with("type", Json::text(tag));
    assert(r@ =~= seq![("type"@, JsonView::Str(tag@))]);
    r
}

fn read_listed_part(items: &Vec<Json>) -> (r: Json)
    ensures
        r@ == part_record(JsonView::Array(json::items_view(items@))),
{
    broadcast use json::json_view;

    if items.len() == 0 {
        return Json::Null;
    }
    assert(json::items_view(items@)[0] == items@[0]@);
    let tag = match items[0].as_u64() {
        Some(n) => read_part_tag(n),
        None => items[0].as_str(),
    };
    match tag {
        Some(tag) => match read_part_fields(tag) {
            Some((names, needed)) => fields::read_listed(
                with_tag(tag),
                names.as_slice(),
                needed,
                items,
                1,
            ),
            None => Json::Null,
        },
        None => Json::Null,
    }
}

/// The record of a message part, where it is not the value itself.
fn read_part_record(v: &Json) -> (r: Option<Json>)
    ensures
        match r {
            Some(x) => x@ == part_record(v@),
            None => part_record(v@) == v@,
        },
{
    broadcast use json::json_view;

    match v {
        Json::Array(items) => Some(read_listed_part(items)),
        Json::Object(m) => match v.get_u64("type") {
            Some(n) => match read_part_tag(n) {
                Some(tag) => Some(Json::Object(m.clone().with("type", Json::text(tag)))),
                None => Some(Json::Null),
            },
            None => None,
        },
        _ => None,
    }
}

/// Whether a record has the shape of a message part.
pub open spec fn readable_part_record(v: JsonView) -> bool {
    if fields::tag(v) == Some("start"@) {
        &&& fields::small(v, "contentIndex"@) is Some
    } else if fields::tag(v) == Some("text_start"@) {
        &&& fields::small(v, "contentIndex"@) is Some
    } else if fields::tag(v) == Some("text_delta"@) {
        &&& fields::small(v, "contentIndex"@) is Some
        &&& json::str_member(v, "delta"@) is Some
    } else if fields::tag(v) == Some("text_end"@) {
        &&& fields::small(v, "contentIndex"@) is Some
        &&& json::str_member(v, "content"@) is Some
    } else if fields::tag(v) == Some("thinking_start"@) {
        &&& fields::small(v, "contentIndex"@) is Some
    } else if fields::tag(v) == Some("thinking_delta"@) {
        &&& fields::small(v, "contentIndex"@) is Some
        &&& json::str_member(v, "delta"@) is Some
    } else if fields::tag(v) == Some("thinking_end"@) {
        &&& fields::small(v, "contentIndex"@) is Some
        &&& json::str_member(v, "content"@) is Some
    } else if fields::tag(v) == Some("toolcall_start"@) {
        &&& fields::small(v, "contentIndex"@) is Some
        &&& json::str_member(v, "id"@) is Some
        &&& json::str_member(v, "toolName"@) is Some
    } else if fields::tag(v) == Some("toolcall_delta"@) {
        &&& fields::small(v, "contentIndex"@) is Some
        &&& json::str_member(v, "delta"@) is Some
    } else if fields::tag(v) == Some("toolcall_end"@) {
        &&& fields::small(v, "contentIndex"@) is Some
        &&& json::member(v, "toolCall"@) is Some
    } else if fields::tag(v) == Some("done"@) {
        &&& json::str_member(v, "reason"@) is Some
        &&& json::member(v, "message"@) is Some
    } else if fields::tag(v) == Some("error"@) {
        &&& json::str_member(v, "reason"@) is Some
        &&& json::member(v, "error"@) is Some
    } else {
        false
    }
}

/// Whether a value is a message part.
pub open spec fn readable_part(v: JsonView) -> bool {
    readable_part_record(part_record(v))
}

impl AssistantMessageEvent {
    /// The event holds what the record holds.
    pub open spec fn reads_record(self, v: JsonView) -> bool {
        match self {
            AssistantMessageEvent::Start { content_index } => {
                &&& fields::tag(v) == Some("start"@)
                &&& fields::small(v, "contentIndex"@) == Some(content_index)
            },
            AssistantMessageEvent::TextStart { content_index } => {
                &&& fields::tag(v) == Some("text_start"@)
                &&& fields::small(v, "contentIndex"@) == Some(content_index)
            },
            AssistantMessageEvent::TextDelta { content_index, delta } => {
                &&& fields::tag(v) == Some("text_delta"@)
                &&& fields::small(v, "contentIndex"@) == Some(content_index)
                &&& json::str_member(v, "delta"@) == Some(delta@)
            },
            AssistantMessageEvent::TextEnd { content_index, content } => {
                &&& fields::tag(v) == Some("text_end"@)
                &&& fields::small(v, "contentIndex"@) == Some(content_index)
                &&& json::str_member(v, "content"@) == Some(content@)
            },
            AssistantMessageEvent::ThinkingStart { content_index } => {
                &&& fields::tag(v) == Some("thinking_start"@)
                &&& fields::small(v, "contentIndex"@) == Some(content_index)
            },
            AssistantMessageEvent::ThinkingDelta { content_index, delta } => {
                &&& fields::tag(v) == Some("thinking_delta"@)
                &&& fields::small(v, "contentIndex"@) == Some(content_index)
                &&& json::str_member(v, "delta"@) == Some(delta@)
            },
            AssistantMessageEvent::ThinkingEnd { content_index, content } => {
                &&& fields::tag(v) == Some("thinking_end"@)
                &&& fields::small(v, "contentIndex"@) == Some(content_index)
                &&& json::str_member(v, "content"@) == Some(content@)
            },
            AssistantMessageEvent::ToolcallStart { content_index, id, tool_name } => {
                &&& fields::tag(v) == Some("toolcall_start"@)
                &&& fields::small(v, "contentIndex"@) == Some(content_index)
                &&& json::str_member(v, "id"@) == Some(id@)
                &&& json::str_member(v, "toolName"@) == Some(tool_name@)
            },
            AssistantMessageEvent::ToolcallDelta { content_index, delta } => {
                &&& fields::tag(v) == Some("toolcall_delta"@)
                &&& fields::small(v, "contentIndex"@) == Some(content_index)
                &&& json::str_member(v, "delta"@) == Some(delta@)
            },
            AssistantMessageEvent::ToolcallEnd { content_index, tool_call } => {
                &&& fields::tag(v) == Some("toolcall_end"@)
                &&& fields::small(v, "contentIndex"@) == Some(content_index)
                &&& json::member(v, "toolCall"@) == Some(tool_call@)
            },
            AssistantMessageEvent::Done { reason, message } => {
                &&& fields::tag(v) == Some("done"@)
                &&& json::str_member(v, "reason"@) == Some(reason@)
                &&& json::member(v, "message"@) == Some(message@)
            },
            AssistantMessageEvent::Error { reason, error } => {
                &&& fields::tag(v) == Some("error"@)
                &&& json::str_member(v, "reason"@) == Some(reason@)
                &&& json::member(v, "error"@) == Some(error@)
            },
        }
    }

    /// The same, of a value that may have another form.
    pub open spec fn reads(self, v: JsonView) -> bool {
        self.reads_record(part_record(v))
    }

    /// Read a message part; `None` when the record has another shape.
    pub fn from_json(v: &Json) -> (r: Option<AssistantMessageEvent>)
        ensures
            match r {
                Some(x) => readable_part(v@) && x.reads(v@),
                None => !readable_part(v@),
            },
    {
        match read_part_record(v) {
            Some(x) => AssistantMessageEvent::from_record(&x),
            None => AssistantMessageEvent::from_record(v),
        }
    }

    fn from_record(v: &Json) -> (r: Option<AssistantMessageEvent>)
        ensures
            match r {
                Some(x) => readable_part_record(v@) && x.reads_record(v@),
                None => !readable_part_record(v@),
            },
    {
        let kind = match v.get_str("type") {
            Some(k) => k,
            None => return None,
        };
        if text::same(kind, "start") {
            return match fields::read_small(v, "contentIndex") {
                Some(content_index) => Some(AssistantMessageEvent::Start { content_index }),
                None => None,
            };
        }
        if text::same(kind, "text_start") {
            return match fields::read_small(v, "contentIndex") {
                Some(content_index) => Some(AssistantMessageEvent::TextStart { content_index }),
                None => None,
            };
        }
        if text::same(kind, "text_delta") {
            return match (
                fields::read_small(v, "contentIndex"),
                fields::read_text(v, "delta"),
            ) {
                (Some(content_index), Some(delta)) => Some(
                    AssistantMessageEvent::TextDelta { content_index, delta },
                ),
                _ => None,
            };
        }
        if text::same(kind, "text_end") {
            return match (
                fields::read_small(v, "contentIndex"),
                fields::read_text(v, "content"),
            ) {
                (Some(content_index), Some(content)) => Some(
                    AssistantMessageEvent::TextEnd { content_index, content },
                ),
                _ => None,
            };
        }
        if text::same(kind, "thinking_start") {
            return match fields::read_small(v, "contentIndex") {
                Some(content_index) => Some(AssistantMessageEvent::ThinkingStart { content_index }),
                None => None,
            };
        }
        if text::same(kind, "thinking_delta") {
            return match (
                fields::read_small(v, "contentIndex"),
                fields::read_text(v, "delta"),
            ) {
                (Some(content_index), Some(delta)) => Some(
                    AssistantMessageEvent::ThinkingDelta { content_index, delta },
                ),
                _ => None,
            };
        }
        if text::same(kind, "thinking_end") {
            return match (
                fields::read_small(v, "contentIndex"),
                fields::read_text(v, "content"),
            ) {
                (Some(content_index), Some(content)) => Some(
                    AssistantMessageEvent::ThinkingEnd { content_index, content },
                ),
                _ => None,
            };
        }
        if text::same(kind, "toolcall_start") {
            return match (
                fields::read_small(v, "contentIndex"),
                fields::read_text(v, "id"),
                fields::read_text(v, "toolName"),
            ) {
                (Some(content_index), Some(id), Some(tool_name)) => Some(
                    AssistantMessageEvent::ToolcallStart { content_index, id, tool_name },
                ),
                _ => None,
            };
        }
        if text::same(kind, "toolcall_delta") {
            return match (
                fields::read_small(v, "contentIndex"),
                fields::read_text(v, "delta"),
            ) {
                (Some(content_index), Some(delta)) => Some(
                    AssistantMessageEvent::ToolcallDelta { content_index, delta },
                ),
                _ => None,
            };
        }
        if text::same(kind, "toolcall_end") {
            return match (
                fields::read_small(v, "contentIndex"),
                fields::read_value(v, "toolCall"),
            ) {
                (Some(content_index), Some(tool_call)) => Some(
                    AssistantMessageEvent::ToolcallEnd { content_index, tool_call },
                ),
                _ => None,
            };
        }
        if text::same(kind, "done") {
            return match (
                fields::read_text(v, "reason"),
                fields::read_value(v, "message"),
            ) {
                (Some(reason), Some(message)) => Some(
                    AssistantMessageEvent::Done { reason, message },
                ),
                _ => None,
            };
        }
        if text::same(kind, "error") {
            return match (
                fields::read_text(v, "reason"),
                fields::read_value(v, "error"),
            ) {
                (Some(reason), Some(error)) => Some(
                    AssistantMessageEvent::Error { reason, error },
                ),
                _ => None,
            };
        }
        None
    }

    /// The text that was added to the answer.
    pub fn text_delta(&self) -> (r: Option<&str>)
        ensures
            text::opt_str(r) == (match self {
                AssistantMessageEvent::TextDelta { delta, .. } => Some(delta@),
                _ => None,
            }),
    {
        match self {
            AssistantMessageEvent::TextDelta { delta, .. } => Some(delta.as_str()),
            _ => None,
        }
    }

    /// The content block that the event is about; the first when it is about
    /// the whole message.
    pub open spec fn block(self) -> u32 {
        match self {
            AssistantMessageEvent::Start { content_index } => content_index,
            AssistantMessageEvent::TextStart { content_index } => content_index,
            AssistantMessageEvent::TextDelta { content_index, .. } => content_index,
            AssistantMessageEvent::TextEnd { content_index, .. } => content_index,
            AssistantMessageEvent::ThinkingStart { content_index } => content_index,
            AssistantMessageEvent::ThinkingDelta { content_index, .. } => content_index,
            AssistantMessageEvent::ThinkingEnd { content_index, .. } => content_index,
            AssistantMessageEvent::ToolcallStart { content_index, .. } => content_index,
            AssistantMessageEvent::ToolcallDelta { content_index, .. } => content_index,
            AssistantMessageEvent::ToolcallEnd { content_index, .. } => content_index,
            AssistantMessageEvent::Done { .. } => 0,
            AssistantMessageEvent::Error { .. } => 0,
        }
    }

    /// The content block that the event is about.
    pub fn content_index(&self) -> (r: u32)
        ensures
            r == self.block(),
    {
        match self {
            AssistantMessageEvent::Start { content_index } => *content_index,
            AssistantMessageEvent::TextStart { content_index } => *content_index,
            AssistantMessageEvent::TextDelta { content_index, .. } => *content_index,
            AssistantMessageEvent::TextEnd { content_index, .. } => *content_index,
            AssistantMessageEvent::ThinkingStart { content_index } => *content_index,
            AssistantMessageEvent::ThinkingDelta { content_index, .. } => *content_index,
            AssistantMessageEvent::ThinkingEnd { content_index, .. } => *content_index,
            AssistantMessageEvent::ToolcallStart { content_index, .. } => *content_index,
            AssistantMessageEvent::ToolcallDelta { content_index, .. } => *content_index,
            AssistantMessageEvent::ToolcallEnd { content_index, .. } => *content_index,
            AssistantMessageEvent::Done { .. } => 0,
            AssistantMessageEvent::Error { .. } => 0,
        }
    }
}

// ---------------------------------------------------------------------------
// Questions of extensions
// ---------------------------------------------------------------------------

/// What an extension of pi asks of the user interface.
#[derive(Debug)]
pub enum ExtensionUiRequest {
    /// Choose one of several values.
    Select {
        /// The question.
        id: String,
        /// What is asked.
        title: String,
        /// The values.
        options: Vec<String>,
        /// How long to wait, in milliseconds.
        timeout: Option<u64>,
    },
    /// Answer yes or no.
    Confirm {
        /// The question.
        id: String,
        /// What is asked.
        title: String,
        /// The details.
        message: String,
        /// How long to wait, in milliseconds.
        timeout: Option<u64>,
    },
    /// Enter a line.
    Input {
        /// The question.
        id: String,
        /// What is asked.
        title: String,
        /// A hint.
        placeholder: Option<String>,
        /// How long to wait, in milliseconds.
        timeout: Option<u64>,
    },
    /// Edit a text.
    Editor {
        /// The question.
        id: String,
        /// What is asked.
        title: String,
        /// The text to start from.
        prefill: Option<String>,
    },
    /// Show a message.
    Notify {
        /// The question.
        id: String,
        /// The message.
        message: String,
        /// Its level.
        notify_type: Option<String>,
    },
    /// Show a status.
    SetStatus {
        /// The question.
        id: String,
        /// Which one.
        status_key: String,
        /// Its text.
        status_text: Option<String>,
    },
    /// Show a widget.
    SetWidget {
        /// The question.
        id: String,
        /// Which one.
        widget_key: String,
        /// Its lines.
        widget_lines: Option<Vec<String>>,
        /// Where.
        widget_placement: Option<String>,
    },
    /// Show a title.
    SetTitle {
        /// The question.
        id: String,
        /// The title.
        title: String,
    },
    /// Fill the editor.
    SetEditorText {
        /// The question.
        id: String,
        /// The text.
        text: String,
    },
}

/// The method tag of a question.
pub open spec fn method(v: JsonView) -> Option<Seq<char>> {
    json::str_member(v, "method"@)
}

/// The method that a number stands for.
pub open spec fn method_tag(n: u64) -> Option<Seq<char>> {
    if n == 0 {
        Some("select"@)
    } else if n == 1 {
        Some("confirm"@)
    } else if n == 2 {
        Some("input"@)
    } else if n == 3 {
        Some("editor"@)
    } else if n == 4 {
        Some("notify"@)
    } else if n == 5 {
        Some("setStatus"@)
    } else if n == 6 {
        Some("setWidget"@)
    } else if n == 7 {
        Some("setTitle"@)
    } else if n == 8 {
        Some("set_editor_text"@)
    } else {
        None
    }
}

fn read_method_tag(n: u64) -> (r: Option<&'static str>)
    ensures
        text::opt_str(r) == method_tag(n),
{
    if n == 0 {
        return Some("select");
    }
    if n == 1 {
        return Some("confirm");
    }
    if n == 2 {
        return Some("input");
    }
    if n == 3 {
        return Some("editor");
    }
    if n == 4 {
        return Some("notify");
    }
    if n == 5 {
        return Some("setStatus");
    }
    if n == 6 {
        return Some("setWidget");
    }
    if n == 7 {
        return Some("setTitle");
    }
    if n == 8 {
        return Some("set_editor_text");
    }
    None
}

/// The record of a question as it stands in an event: its method may be a
/// number.
pub open spec fn question_record(v: JsonView) -> JsonView {
    match (v, json::u64_member(v, "method"@)) {
        (JsonView::Object(es), Some(n)) => match method_tag(n) {
            Some(name) => JsonView::Object(json::put(es, "method"@, JsonView::Str(name))),
            None => JsonView::Null,
        },
        _ => v,
    }
}

/// The record of a question, where it is not the value itself.
fn read_question_record(v: &Json) -> (r: Option<Json>)
    ensures
        match r {
            Some(x) => x@ == question_record(v@),
            None => question_record(v@) == v@,
        },
{
    broadcast use json::json_view;

    match (v, v.get_u64("method")) {
        (Json::Object(m), Some(n)) => match read_method_tag(n) {
            Some(name) => Some(Json::Object(m.clone().with("method", Json::text(name)))),
            None => Some(Json::Null),
        },
        _ => None,
    }
}

/// Whether a record has the shape of a question.
pub open spec fn readable_question_record(v: JsonView) -> bool {
    if method(v) == Some("select"@) {
        &&& json::str_member(v, "id"@) is Some
        &&& json::str_member(v, "title"@) is Some
        &&& fields::text_list(v, "options"@) is Some
        &&& fields::optional_count(v, "timeout"@) is Some
    } else if method(v) == Some("confirm"@) {
        &&& json::str_member(v, "id"@) is Some
        &&& json::str_member(v, "title"@) is Some
        &&& json::str_member(v, "message"@) is Some
        &&& fields::optional_count(v, "timeout"@) is Some
    } else if method(v) == Some("input"@) {
        &&& json::str_member(v, "id"@) is Some
        &&& json::str_member(v, "title"@) is Some
        &&& fields::optional_text(v, "placeholder"@) is Some
        &&& fields::optional_count(v, "timeout"@) is Some
    } else if method(v) == Some("editor"@) {
        &&& json::str_member(v, "id"@) is Some
        &&& json::str_member(v, "title"@) is Some
        &&& fields::optional_text(v, "prefill"@) is Some
    } else if method(v) == Some("notify"@) {
        &&& json::str_member(v, "id"@) is Some
        &&& json::str_member(v, "message"@) is Some
        &&& fields::optional_text(v, "notifyType"@) is Some
    } else if method(v) == Some("setStatus"@) {
        &&& json::str_member(v, "id"@) is Some
        &&& json::str_member(v, "statusKey"@) is Some
        &&& fields::optional_text(v, "statusText"@) is Some
    } else if method(v) == Some("setWidget"@) {
        &&& json::str_member(v, "id"@) is Some
        &&& json::str_member(v, "widgetKey"@) is Some
        &&& fields::optional_text_list(v, "widgetLines"@) is Some
        &&& fields::optional_text(v, "widgetPlacement"@) is Some
    } else if method(v) == Some("setTitle"@) {
        &&& json::str_member(v, "id"@) is Some
        &&& json::str_member(v, "title"@) is Some
    } else if method(v) == Some("set_editor_text"@) {
        &&& json::str_member(v, "id"@) is Some
        &&& json::str_member(v, "text"@) is Some
    } else {
        false
    }
}

/// Whether a value is a question.
pub open spec fn readable_question(v: JsonView) -> bool {
    readable_question_record(question_record(v))
}

impl ExtensionUiRequest {
    /// The question holds what the record holds.
    pub open spec fn reads_record(self, v: JsonView) -> bool {
        match self {
            ExtensionUiRequest::Select { id, title, options, timeout } => {
                &&& method(v) == Some("select"@)
                &&& json::str_member(v, "id"@) == Some(id@)
                &&& json::str_member(v, "title"@) == Some(title@)
                &&& fields::text_list(v, "options"@) == Some(text::texts(options@))
                &&& fields::optional_count(v, "timeout"@) == Some(timeout)
            },
            ExtensionUiRequest::Confirm { id, title, message, timeout } => {
                &&& method(v) == Some("confirm"@)
                &&& json::str_member(v, "id"@) == Some(id@)
                &&& json::str_member(v, "title"@) == Some(title@)
                &&& json::str_member(v, "message"@) == Some(message@)
                &&& fields::optional_count(v, "timeout"@) == Some(timeout)
            },
            ExtensionUiRequest::Input { id, title, placeholder, timeout } => {
                &&& method(v) == Some("input"@)
                &&& json::str_member(v, "id"@) == Some(id@)
                &&& json::str_member(v, "title"@) == Some(title@)
                &&& fields::optional_text(v, "placeholder"@) == Some(text::opt_text(placeholder))
                &&& fields::optional_count(v, "timeout"@) == Some(timeout)
            },
            ExtensionUiRequest::Editor { id, title, prefill } => {
                &&& method(v) == Some("editor"@)
                &&& json::str_member(v, "id"@) == Some(id@)
                &&& json::str_member(v, "title"@) == Some(title@)
                &&& fields::optional_text(v, "prefill"@) == Some(text::opt_text(prefill))
            },
            ExtensionUiRequest::Notify { id, message, notify_type } => {
                &&& method(v) == Some("notify"@)
                &&& json::str_member(v, "id"@) == Some(id@)
                &&& json::str_member(v, "message"@) == Some(message@)
                &&& fields::optional_text(v, "notifyType"@) == Some(text::opt_text(notify_type))
            },
            ExtensionUiRequest::SetStatus { id, status_key, status_text } => {
                &&& method(v) == Some("setStatus"@)
                &&& json::str_member(v, "id"@) == Some(id@)
                &&& json::str_member(v, "statusKey"@) == Some(status_key@)
                &&& fields::optional_text(v, "statusText"@) == Some(text::opt_text(status_text))
            },
            ExtensionUiRequest::SetWidget { id, widget_key, widget_lines, widget_placement } => {
                &&& method(v) == Some("setWidget"@)
                &&& json::str_member(v, "id"@) == Some(id@)
                &&& json::str_member(v, "widgetKey"@) == Some(widget_key@)
                &&& fields::optional_text_list(v, "widgetLines"@) == Some(fields::opt_texts(widget_lines))
                &&& fields::optional_text(v, "widgetPlacement"@) == Some(text::opt_text(widget_placement))
            },
            ExtensionUiRequest::SetTitle { id, title } => {
                &&& method(v) == Some("setTitle"@)
                &&& json::str_member(v, "id"@) == Some(id@)
                &&& json::str_member(v, "title"@) == Some(title@)
            },
            ExtensionUiRequest::SetEditorText { id, text } => {
                &&& method(v) == Some("set_editor_text"@)
                &&& json::str_member(v, "id"@) == Some(id@)
                &&& json::str_member(v, "text"@) == Some(text@)
            },
        }
    }

    /// The same, of a value that may have another form.
    pub open spec fn reads(self, v: JsonView) -> bool {
        self.reads_record(question_record(v))
    }

    /// Read a question; `None` when the record has another shape.
    pub fn from_json(v: &Json) -> (r: Option<ExtensionUiRequest>)
        ensures
            match r {
                Some(x) => readable_question(v@) && x.reads(v@),
                None => !readable_question(v@),
            },
    {
        match read_question_record(v) {
            Some(x) => ExtensionUiRequest::from_record(&x),
            None => ExtensionUiRequest::from_record(v),
        }
    }

    fn from_record(v: &Json) -> (r: Option<ExtensionUiRequest>)
        ensures
            match r {
                Some(x) => readable_question_record(v@) && x.reads_record(v@),
                None => !readable_question_record(v@),
            },
    {
        let kind = match v.get_str("method") {
            Some(k) => k,
            None => return None,
        };
        if text::same(kind, "select") {
            return match (
                fields::read_text(v, "id"),
                fields::read_text(v, "title"),
                fields::read_text_list(v, "options"),
                fields::read_optional_count(v, "timeout"),
            ) {
                (Some(id), Some(title), Some(options), Some(timeout)) => Some(
                    ExtensionUiRequest::Select { id, title, options, timeout },
                ),
                _ => None,
            };
        }
        if text::same(kind, "confirm") {
            return match (
                fields::read_text(v, "id"),
                fields::read_text(v, "title"),
                fields::read_text(v, "message"),
                fields::read_optional_count(v, "timeout"),
            ) {
                (Some(id), Some(title), Some(message), Some(timeout)) => Some(
                    ExtensionUiRequest::Confirm { id, title, message, timeout },
                ),
                _ => None,
            };
        }
        if text::same(kind, "input") {
            return match (
                fields::read_text(v, "id"),
                fields::read_text(v, "title"),
                fields::read_optional_text(v, "placeholder"),
                fields::read_optional_count(v, "timeout"),
            ) {
                (Some(id), Some(title), Some(placeholder), Some(timeout)) => Some(
                    ExtensionUiRequest::Input { id, title, placeholder, timeout },
                ),
                _ => None,
            };
        }
        if text::same(kind, "editor") {
            return match (
                fields::read_text(v, "id"),
                fields::read_text(v, "title"),
                fields::read_optional_text(v, "prefill"),
            ) {
                (Some(id), Some(title), Some(prefill)) => Some(
                    ExtensionUiRequest::Editor { id, title, prefill },
                ),
                _ => None,
            };
        }
        if text::same(kind, "notify") {
            return match (
                fields::read_text(v, "id"),
                fields::read_text(v, "message"),
                fields::read_optional_text(v, "notifyType"),
            ) {
                (Some(id), Some(message), Some(notify_type)) => Some(
                    ExtensionUiRequest::Notify { id, message, notify_type },
                ),
                _ => None,
            };
        }
        if text::same(kind, "setStatus") {
            return match (
                fields::read_text(v, "id"),
                fields::read_text(v, "statusKey"),
                fields::read_optional_text(v, "statusText"),
            ) {
                (Some(id), Some(status_key), Some(status_text)) => Some(
                    ExtensionUiRequest::SetStatus { id, status_key, status_text },
                ),
                _ => None,
            };
        }
        if text::same(kind, "setWidget") {
            return match (
                fields::read_text(v, "id"),
                fields::read_text(v, "widgetKey"),
                fields::read_optional_text_list(v, "widgetLines"),
                fields::read_optional_text(v, "widgetPlacement"),
            ) {
                (Some(id), Some(widget_key), Some(widget_lines), Some(widget_placement)) => Some(
                    ExtensionUiRequest::SetWidget { id, widget_key, widget_lines, widget_placement },
                ),
                _ => None,
            };
        }
        if text::same(kind, "setTitle") {
            return match (
                fields::read_text(v, "id"),
                fields::read_text(v, "title"),
            ) {
                (Some(id), Some(title)) => Some(
                    ExtensionUiRequest::SetTitle { id, title },
                ),
                _ => None,
            };
        }
        if text::same(kind, "set_editor_text") {
            return match (
                fields::read_text(v, "id"),
                fields::read_text(v, "text"),
            ) {
                (Some(id), Some(text)) => Some(
                    ExtensionUiRequest::SetEditorText { id, text },
                ),
                _ => None,
            };
        }
        None
    }
}

// ---------------------------------------------------------------------------
// Events
// ---------------------------------------------------------------------------

/// What pi reports.
#[derive(Debug)]
#[allow(inconsistent_fields)]
pub enum RpcEvent {
    /// The agent loop began.
    AgentStart,
    /// The agent loop ended; it may begin again within the same turn.
    AgentEnd {
        /// The messages.
        messages: Vec<Json>,
        /// Whether it begins again.
        will_retry: bool,
    },
    /// A step of the loop began.
    TurnStart,
    /// A step of the loop ended.
    TurnEnd {
        /// Its message.
        message: Json,
        /// Its tool results.
        tool_results: Vec<Json>,
    },
    /// A message began.
    MessageStart {
        /// The message.
        message: Json,
    },
    /// A message is complete.
    MessageEnd {
        /// The message.
        message: Json,
    },
    /// A tool begins to run.
    ToolExecutionStart {
        /// The call.
        tool_call_id: String,
        /// The tool.
        tool_name: String,
        /// Its arguments.
        args: Json,
    },
    /// A tool has something to show.
    ToolExecutionUpdate {
        /// The call.
        tool_call_id: String,
        /// The tool.
        tool_name: String,
        /// Its arguments.
        args: Json,
        /// The result so far.
        partial_result: Json,
    },
    /// A tool ended.
    ToolExecutionEnd {
        /// The call.
        tool_call_id: String,
        /// The tool.
        tool_name: String,
        /// The result.
        result: Json,
        /// Whether it failed.
        is_error: bool,
    },
    /// The turn is over.
    AgentSettled,
    /// The message queues changed.
    QueueUpdate {
        /// Steering messages.
        steering: Vec<String>,
        /// Follow-up messages.
        follow_up: Vec<String>,
    },
    /// A compaction began.
    CompactionStart {
        /// Why.
        reason: CompactionReason,
    },
    /// The session file grew.
    EntryAppended {
        /// The entry.
        entry: Json,
    },
    /// The session was renamed.
    SessionInfoChanged {
        /// The name.
        name: Option<String>,
    },
    /// The thinking level changed.
    ThinkingLevelChanged {
        /// The level.
        level: ThinkingLevel,
    },
    /// A compaction ended.
    CompactionEnd {
        /// Why it began.
        reason: CompactionReason,
        /// The result.
        result: Option<Json>,
        /// Whether it was given up.
        aborted: bool,
        /// Whether it is tried again.
        will_retry: bool,
        /// Why it failed.
        error_message: Option<String>,
    },
    /// A failed request is tried again.
    AutoRetryStart {
        /// Which attempt.
        attempt: u32,
        /// Of how many.
        max_attempts: u32,
        /// After how long.
        delay_ms: u64,
        /// Why it failed.
        error_message: String,
    },
    /// The retries ended.
    AutoRetryEnd {
        /// Whether one succeeded.
        success: bool,
        /// Which attempt.
        attempt: u32,
        /// Why the last failed.
        final_error: Option<String>,
    },
    /// A failed summary is tried again.
    SummarizationRetryScheduled {
        /// Which attempt.
        attempt: u32,
        /// Of how many.
        max_attempts: u32,
        /// After how long.
        delay_ms: u64,
        /// Why it failed.
        error_message: String,
    },
    /// A summary is being tried again.
    SummarizationRetryAttemptStart {
        /// What asked for it.
        source: String,
        /// Why.
        reason: Option<CompactionReason>,
    },
    /// The summary retries ended.
    SummarizationRetryFinished,
    /// A bash call printed something.
    BashExecutionUpdate {
        /// The call.
        id: Option<String>,
        /// What was printed.
        delta: String,
    },
    /// An extension failed.
    ExtensionError {
        /// Which one.
        extension_path: String,
        /// At what.
        event: String,
        /// Why.
        error: String,
    },
    /// The message that is being written changed.
    MessageUpdate {
        /// Tokens and cost so far.
        usage: Usage,
        /// What happened.
        assistant_message_event: AssistantMessageEvent,
    },
    /// An extension asks the user something.
    ExtensionUiRequest {
        /// The question.
        inner: ExtensionUiRequest,
    },
    /// An answer to a request that nobody waits for.
    UnmatchedResponse {
        /// The record.
        raw: Json,
    },
    /// A record of unknown shape.
    Unknown {
        /// The record.
        raw: Json,
    },
}

/// The fields of the event with a tag, in order, and how many of them must be
/// there. A question of an extension is no list.
pub open spec fn event_fields(tag: Seq<char>) -> Option<(Seq<Seq<char>>, nat)> {
    if tag == "agent_start"@ || tag == "turn_start"@ || tag == "agent_settled"@
        || tag == "summarization_retry_finished"@
    {
        Some((Seq::empty(), 0))
    } else if tag == "agent_end"@ {
        Some((seq!["messages"@, "willRetry"@], 1))
    } else if tag == "turn_end"@ {
        Some((seq!["message"@, "toolResults"@], 1))
    } else if tag == "message_start"@ || tag == "message_end"@ {
        Some((seq!["message"@], 1))
    } else if tag == "message_update"@ {
        Some((seq!["usage"@, "assistantMessageEvent"@], 2))
    } else if tag == "tool_execution_start"@ {
        Some((seq!["toolCallId"@, "toolName"@, "args"@], 3))
    } else if tag == "tool_execution_update"@ {
        Some((seq!["toolCallId"@, "toolName"@, "args"@, "partialResult"@], 4))
    } else if tag == "tool_execution_end"@ {
        Some((seq!["toolCallId"@, "toolName"@, "result"@, "isError"@], 4))
    } else if tag == "queue_update"@ {
        Some((seq!["steering"@, "followUp"@], 2))
    } else if tag == "compaction_start"@ {
        Some((seq!["reason"@], 1))
    } else if tag == "entry_appended"@ {
        Some((seq!["entry"@], 1))
    } else if tag == "session_info_changed"@ {
        Some((seq!["name"@], 0))
    } else if tag == "thinking_level_changed"@ {
        Some((seq!["level"@], 1))
    } else if tag == "compaction_end"@ {
        Some((seq!["reason"@, "result"@, "aborted"@, "willRetry"@, "errorMessage"@], 4))
    } else if tag == "auto_retry_start"@ || tag == "summarization_retry_scheduled"@ {
        Some((seq!["attempt"@, "maxAttempts"@, "delayMs"@, "errorMessage"@], 4))
    } else if tag == "auto_retry_end"@ {
        Some((seq!["success"@, "attempt"@, "finalError"@], 2))
    } else if tag == "summarization_retry_attempt_start"@ {
        Some((seq!["source"@, "reason"@], 1))
    } else if tag == "bash_execution_update"@ {
        Some((seq!["id"@, "delta"@], 2))
    } else if tag == "extension_error"@ {
        Some((seq!["extensionPath"@, "event"@, "error"@], 3))
    } else if tag == "unmatched_response"@ || tag == "unknown"@ {
        Some((seq!["raw"@], 1))
    } else {
        None
    }
}

fn read_event_fields(tag: &str) -> (r: Option<(Vec<&'static str>, usize)>)
    ensures
        match r {
            Some((names, needed)) => event_fields(tag@) == Some(
                (fields::names_view(names@), needed as nat),
            ),
            None => event_fields(tag@) is None,
        },
{
    if text::same(tag, "agent_start") || text::same(tag, "turn_start")
        || text::same(tag, "agent_settled") || text::same(tag, "summarization_retry_finished")
    {
        let names: Vec<&'static str> = Vec::new();
        assert(fields::names_view(names@) =~= Seq::<Seq<char>>::empty());
        return Some((names, 0));
    }
    if text::same(tag, "agent_end") {
        let names: Vec<&'static str> = vec!["messages", "willRetry"];
        assert(fields::names_view(names@) =~= seq!["messages"@, "willRetry"@]);
        return Some((names, 1));
    }
    if text::same(tag, "turn_end") {
        let names: Vec<&'static str> = vec!["message", "toolResults"];
        assert(fields::names_view(names@) =~= seq!["message"@, "toolResults"@]);
        return Some((names, 1));
    }
    if text::same(tag, "message_start") || text::same(tag, "message_end") {
        let names: Vec<&'static str> = vec!["message"];
        assert(fields::names_view(names@) =~= seq!["message"@]);
        return Some((names, 1));
    }
    if text::same(tag, "message_update") {
        let names: Vec<&'static str> = vec!["usage", "assistantMessageEvent"];
        assert(fields::names_view(names@) =~= seq!["usage"@, "assistantMessageEvent"@]);
        return Some((names, 2));
    }
    if text::same(tag, "tool_execution_start") {
        let names: Vec<&'static str> = vec!["toolCallId", "toolName", "args"];
        assert(fields::names_view(names@) =~= seq!["toolCallId"@, "toolName"@, "args"@]);
        return Some((names, 3));
    }
    if text::same(tag, "tool_execution_update") {
        let names: Vec<&'static str> = vec!["toolCallId", "toolName", "args", "partialResult"];
        assert(fields::names_view(names@) =~= seq!["toolCallId"@, "toolName"@, "args"@, "partialResult"@]);
        return Some((names, 4));
    }
    if text::same(tag, "tool_execution_end") {
        let names: Vec<&'static str> = vec!["toolCallId", "toolName", "result", "isError"];
        assert(fields::names_view(names@) =~= seq!["toolCallId"@, "toolName"@, "result"@, "isError"@]);
        return Some((names, 4));
    }
    if text::same(tag, "queue_update") {
        let names: Vec<&'static str> = vec!["steering", "followUp"];
        assert(fields::names_view(names@) =~= seq!["steering"@, "followUp"@]);
        return Some((names, 2));
    }
    if text::same(tag, "compaction_start") {
        let names: Vec<&'static str> = vec!["reason"];
        assert(fields::names_view(names@) =~= seq!["reason"@]);
        return Some((names, 1));
    }
    if text::same(tag, "entry_appended") {
        let names: Vec<&'static str> = vec!["entry"];
        assert(fields::names_view(names@) =~= seq!["entry"@]);
        return Some((names, 1));
    }
    if text::same(tag, "session_info_changed") {
        let names: Vec<&'static str> = vec!["name"];
        assert(fields::names_view(names@) =~= seq!["name"@]);
        return Some((names, 0));
    }
    if text::same(tag, "thinking_level_changed") {
        let names: Vec<&'static str> = vec!["level"];
        assert(fields::names_view(names@) =~= seq!["level"@]);
        return Some((names, 1));
    }
    if text::same(tag, "compaction_end") {
        let names: Vec<&'static str> = vec!["reason", "result", "aborted", "willRetry", "errorMessage"];
        assert(fields::names_view(names@) =~= seq!["reason"@, "result"@, "aborted"@, "willRetry"@, "errorMessage"@]);
        return Some((names, 4));
    }
    if text::same(tag, "auto_retry_start") || text::same(tag, "summarization_retry_scheduled") {
        let names: Vec<&'static str> = vec!["attempt", "maxAttempts", "delayMs", "errorMessage"];
        assert(fields::names_view(names@) =~= seq!["attempt"@, "maxAttempts"@, "delayMs"@, "errorMessage"@]);
        return Some((names, 4));
    }
    if text::same(tag, "auto_retry_end") {
        let names: Vec<&'static str> = vec!["success", "attempt", "finalError"];
        assert(fields::names_view(names@) =~= seq!["success"@, "attempt"@, "finalError"@]);
        return Some((names, 2));
    }
    if text::same(tag, "summarization_retry_attempt_start") {
        let names: Vec<&'static str> = vec!["source", "reason"];
        assert(fields::names_view(names@) =~= seq!["source"@, "reason"@]);
        return Some((names, 1));
    }
    if text::same(tag, "bash_execution_update") {
        let names: Vec<&'static str> = vec!["id", "delta"];
        assert(fields::names_view(names@) =~= seq!["id"@, "delta"@]);
        return Some((names, 2));
    }
    if text::same(tag, "extension_error") {
        let names: Vec<&'static str> = vec!["extensionPath", "event", "error"];
        assert(fields::names_view(names@) =~= seq!["extensionPath"@, "event"@, "error"@]);
        return Some((names, 3));
    }
    if text::same(tag, "unmatched_response") || text::same(tag, "unknown") {
        let names: Vec<&'static str> = vec!["raw"];
        assert(fields::names_view(names@) =~= seq!["raw"@]);
        return Some((names, 1));
    }
    None
}

/// The record of an event: a list stands for the tag and the fields.
pub open spec fn event_record(v: JsonView) -> JsonView {
    match v {
        JsonView::Array(items) => if items.len() == 0 {
            JsonView::Null
        } else {
            match json::str_of(items[0]) {
                Some(tag) => match event_fields(tag) {
                    Some((names, needed)) => fields::listed(
                        seq![("type"@, JsonView::Str(tag))],
                        names,
                        needed,
                        items.skip(1),
                    ),
                    None => JsonView::Null,
                },
                None => JsonView::Null,
            }
        },
        _ => v,
    }
}

fn read_listed_event(items: &Vec<Json>) -> (r: Json)
    ensures
        r@ == event_record(JsonView::Array(json::items_view(items@))),
{
    broadcast use json::json_view;

    if items.len() == 0 {
        return Json::Null;
    }
    assert(json::items_view(items@)[0] == items@[0]@);
    match items[0].as_str() {
        Some(tag) => match read_event_fields(tag) {
            Some((names, needed)) => fields::read_listed(
                with_tag(tag),
                names.as_slice(),
                needed,
                items,
                1,
            ),
            None => Json::Null,
        },
        None => Json::Null,
    }
}

/// Whether a record has the shape of an event.
pub open spec fn readable_event_record(v: JsonView) -> bool {
    if fields::tag(v) == Some("agent_start"@) {
        true
    } else if fields::tag(v) == Some("agent_end"@) {
        &&& json::array_member(v, "messages"@) is Some
        &&& fields::flag(v, "willRetry"@) is Some
    } else if fields::tag(v) == Some("turn_start"@) {
        true
    } else if fields::tag(v) == Some("turn_end"@) {
        &&& json::member(v, "message"@) is Some
        &&& fields::list(v, "toolResults"@) is Some
    } else if fields::tag(v) == Some("message_start"@) {
        &&& json::member(v, "message"@) is Some
    } else if fields::tag(v) == Some("message_end"@) {
        &&& json::member(v, "message"@) is Some
    } else if fields::tag(v) == Some("tool_execution_start"@) {
        &&& json::str_member(v, "toolCallId"@) is Some
        &&& json::str_member(v, "toolName"@) is Some
        &&& json::member(v, "args"@) is Some
    } else if fields::tag(v) == Some("tool_execution_update"@) {
        &&& json::str_member(v, "toolCallId"@) is Some
        &&& json::str_member(v, "toolName"@) is Some
        &&& json::member(v, "args"@) is Some
        &&& json::member(v, "partialResult"@) is Some
    } else if fields::tag(v) == Some("tool_execution_end"@) {
        &&& json::str_member(v, "toolCallId"@) is Some
        &&& json::str_member(v, "toolName"@) is Some
        &&& json::member(v, "result"@) is Some
        &&& json::bool_member(v, "isError"@) is Some
    } else if fields::tag(v) == Some("agent_settled"@) {
        true
    } else if fields::tag(v) == Some("queue_update"@) {
        &&& fields::text_list(v, "steering"@) is Some
        &&& fields::text_list(v, "followUp"@) is Some
    } else if fields::tag(v) == Some("compaction_start"@) {
        &&& reason_member(v, "reason"@) is Some
    } else if fields::tag(v) == Some("entry_appended"@) {
        &&& json::member(v, "entry"@) is Some
    } else if fields::tag(v) == Some("session_info_changed"@) {
        &&& fields::optional_text(v, "name"@) is Some
    } else if fields::tag(v) == Some("thinking_level_changed"@) {
        &&& level_member(v, "level"@) is Some
    } else if fields::tag(v) == Some("compaction_end"@) {
        &&& reason_member(v, "reason"@) is Some
        &&& json::bool_member(v, "aborted"@) is Some
        &&& json::bool_member(v, "willRetry"@) is Some
        &&& fields::optional_text(v, "errorMessage"@) is Some
    } else if fields::tag(v) == Some("auto_retry_start"@) {
        &&& fields::small(v, "attempt"@) is Some
        &&& fields::small(v, "maxAttempts"@) is Some
        &&& json::u64_member(v, "delayMs"@) is Some
        &&& json::str_member(v, "errorMessage"@) is Some
    } else if fields::tag(v) == Some("auto_retry_end"@) {
        &&& json::bool_member(v, "success"@) is Some
        &&& fields::small(v, "attempt"@) is Some
        &&& fields::optional_text(v, "finalError"@) is Some
    } else if fields::tag(v) == Some("summarization_retry_scheduled"@) {
        &&& fields::small(v, "attempt"@) is Some
        &&& fields::small(v, "maxAttempts"@) is Some
        &&& json::u64_member(v, "delayMs"@) is Some
        &&& json::str_member(v, "errorMessage"@) is Some
    } else if fields::tag(v) == Some("summarization_retry_attempt_start"@) {
        &&& json::str_member(v, "source"@) is Some
        &&& optional_reason(v, "reason"@) is Some
    } else if fields::tag(v) == Some("summarization_retry_finished"@) {
        true
    } else if fields::tag(v) == Some("bash_execution_update"@) {
        &&& fields::optional_text(v, "id"@) is Some
        &&& json::str_member(v, "delta"@) is Some
    } else if fields::tag(v) == Some("extension_error"@) {
        &&& json::str_member(v, "extensionPath"@) is Some
        &&& json::str_member(v, "event"@) is Some
        &&& json::str_member(v, "error"@) is Some
    } else if fields::tag(v) == Some("message_update"@) {
        match (json::member(v, "usage"@), json::member(v, "assistantMessageEvent"@)) {
            (Some(u), Some(e)) => rpc::readable_usage(u) && readable_part(e),
            _ => false,
        }
    } else if fields::tag(v) == Some("extension_ui_request"@) {
        readable_question(v)
    } else if fields::tag(v) == Some("unmatched_response"@) {
        json::member(v, "raw"@) is Some
    } else if fields::tag(v) == Some("unknown"@) {
        json::member(v, "raw"@) is Some
    } else {
        false
    }
}

/// Whether a value is an event.
pub open spec fn readable_event(v: JsonView) -> bool {
    readable_event_record(event_record(v))
}

impl RpcEvent {
    /// The event holds what the record holds.
    pub open spec fn reads_record(self, v: JsonView) -> bool {
        match self {
            RpcEvent::AgentStart => fields::tag(v) == Some("agent_start"@),
            RpcEvent::AgentEnd { messages, will_retry } => {
                &&& fields::tag(v) == Some("agent_end"@)
                &&& json::array_member(v, "messages"@) == Some(json::items_view(messages@))
                &&& fields::flag(v, "willRetry"@) == Some(will_retry)
            },
            RpcEvent::TurnStart => fields::tag(v) == Some("turn_start"@),
            RpcEvent::TurnEnd { message, tool_results } => {
                &&& fields::tag(v) == Some("turn_end"@)
                &&& json::member(v, "message"@) == Some(message@)
                &&& fields::list(v, "toolResults"@) == Some(json::items_view(tool_results@))
            },
            RpcEvent::MessageStart { message } => {
                &&& fields::tag(v) == Some("message_start"@)
                &&& json::member(v, "message"@) == Some(message@)
            },
            RpcEvent::MessageEnd { message } => {
                &&& fields::tag(v) == Some("message_end"@)
                &&& json::member(v, "message"@) == Some(message@)
            },
            RpcEvent::ToolExecutionStart { tool_call_id, tool_name, args } => {
                &&& fields::tag(v) == Some("tool_execution_start"@)
                &&& json::str_member(v, "toolCallId"@) == Some(tool_call_id@)
                &&& json::str_member(v, "toolName"@) == Some(tool_name@)
                &&& json::member(v, "args"@) == Some(args@)
            },
            RpcEvent::ToolExecutionUpdate { tool_call_id, tool_name, args, partial_result } => {
                &&& fields::tag(v) == Some("tool_execution_update"@)
                &&& json::str_member(v, "toolCallId"@) == Some(tool_call_id@)
                &&& json::str_member(v, "toolName"@) == Some(tool_name@)
                &&& json::member(v, "args"@) == Some(args@)
                &&& json::member(v, "partialResult"@) == Some(partial_result@)
            },
            RpcEvent::ToolExecutionEnd { tool_call_id, tool_name, result, is_error } => {
                &&& fields::tag(v) == Some("tool_execution_end"@)
                &&& json::str_member(v, "toolCallId"@) == Some(tool_call_id@)
                &&& json::str_member(v, "toolName"@) == Some(tool_name@)
                &&& json::member(v, "result"@) == Some(result@)
                &&& json::bool_member(v, "isError"@) == Some(is_error)
            },
            RpcEvent::AgentSettled => fields::tag(v) == Some("agent_settled"@),
            RpcEvent::QueueUpdate { steering, follow_up } => {
                &&& fields::tag(v) == Some("queue_update"@)
                &&& fields::text_list(v, "steering"@) == Some(text::texts(steering@))
                &&& fields::text_list(v, "followUp"@) == Some(text::texts(follow_up@))
            },
            RpcEvent::CompactionStart { reason } => {
                &&& fields::tag(v) == Some("compaction_start"@)
                &&& reason_member(v, "reason"@) == Some(reason)
            },
            RpcEvent::EntryAppended { entry } => {
                &&& fields::tag(v) == Some("entry_appended"@)
                &&& json::member(v, "entry"@) == Some(entry@)
            },
            RpcEvent::SessionInfoChanged { name } => {
                &&& fields::tag(v) == Some("session_info_changed"@)
                &&& fields::optional_text(v, "name"@) == Some(text::opt_text(name))
            },
            RpcEvent::ThinkingLevelChanged { level } => {
                &&& fields::tag(v) == Some("thinking_level_changed"@)
                &&& level_member(v, "level"@) == Some(level)
            },
            RpcEvent::CompactionEnd { reason, result, aborted, will_retry, error_message } => {
                &&& fields::tag(v) == Some("compaction_end"@)
                &&& reason_member(v, "reason"@) == Some(reason)
                &&& fields::optional_value(v, "result"@) == json::opt_view(result)
                &&& json::bool_member(v, "aborted"@) == Some(aborted)
                &&& json::bool_member(v, "willRetry"@) == Some(will_retry)
                &&& fields::optional_text(v, "errorMessage"@) == Some(text::opt_text(error_message))
            },
            RpcEvent::AutoRetryStart { attempt, max_attempts, delay_ms, error_message } => {
                &&& fields::tag(v) == Some("auto_retry_start"@)
                &&& fields::small(v, "attempt"@) == Some(attempt)
                &&& fields::small(v, "maxAttempts"@) == Some(max_attempts)
                &&& json::u64_member(v, "delayMs"@) == Some(delay_ms)
                &&& json::str_member(v, "errorMessage"@) == Some(error_message@)
            },
            RpcEvent::AutoRetryEnd { success, attempt, final_error } => {
                &&& fields::tag(v) == Some("auto_retry_end"@)
                &&& json::bool_member(v, "success"@) == Some(success)
                &&& fields::small(v, "attempt"@) == Some(attempt)
                &&& fields::optional_text(v, "finalError"@) == Some(text::opt_text(final_error))
            },
            RpcEvent::SummarizationRetryScheduled { attempt, max_attempts, delay_ms, error_message } => {
                &&& fields::tag(v) == Some("summarization_retry_scheduled"@)
                &&& fields::small(v, "attempt"@) == Some(attempt)
                &&& fields::small(v, "maxAttempts"@) == Some(max_attempts)
                &&& json::u64_member(v, "delayMs"@) == Some(delay_ms)
                &&& json::str_member(v, "errorMessage"@) == Some(error_message@)
            },
            RpcEvent::SummarizationRetryAttemptStart { source, reason } => {
                &&& fields::tag(v) == Some("summarization_retry_attempt_start"@)
                &&& json::str_member(v, "source"@) == Some(source@)
                &&& optional_reason(v, "reason"@) == Some(reason)
            },
            RpcEvent::SummarizationRetryFinished => fields::tag(v) == Some("summarization_retry_finished"@),
            RpcEvent::BashExecutionUpdate { id, delta } => {
                &&& fields::tag(v) == Some("bash_execution_update"@)
                &&& fields::optional_text(v, "id"@) == Some(text::opt_text(id))
                &&& json::str_member(v, "delta"@) == Some(delta@)
            },
            RpcEvent::ExtensionError { extension_path, event, error } => {
                &&& fields::tag(v) == Some("extension_error"@)
                &&& json::str_member(v, "extensionPath"@) == Some(extension_path@)
                &&& json::str_member(v, "event"@) == Some(event@)
                &&& json::str_member(v, "error"@) == Some(error@)
            },
            RpcEvent::MessageUpdate { usage, assistant_message_event } => {
                &&& fields::tag(v) == Some("message_update"@)
                &&& json::member(v, "usage"@) matches Some(u) && usage.reads(u)
                &&& json::member(v, "assistantMessageEvent"@) matches Some(e)
                    && assistant_message_event.reads(e)
            },
            RpcEvent::ExtensionUiRequest { inner } => {
                &&& fields::tag(v) == Some("extension_ui_request"@)
                &&& inner.reads(v)
            },
            RpcEvent::UnmatchedResponse { raw } => {
                &&& fields::tag(v) == Some("unmatched_response"@)
                &&& json::member(v, "raw"@) == Some(raw@)
            },
            RpcEvent::Unknown { raw } => {
                &&& fields::tag(v) == Some("unknown"@)
                &&& json::member(v, "raw"@) == Some(raw@)
            },
        }
    }

    /// The same, of a value that may have another form.
    pub open spec fn reads(self, v: JsonView) -> bool {
        self.reads_record(event_record(v))
    }

    /// Read an event; `None` when the record has another shape.
    pub fn from_json(v: &Json) -> (r: Option<RpcEvent>)
        ensures
            match r {
                Some(x) => readable_event(v@) && x.reads(v@),
                None => !readable_event(v@),
            },
    {
        broadcast use json::json_view;

        match v {
            Json::Array(items) => RpcEvent::from_record(&read_listed_event(items)),
            _ => RpcEvent::from_record(v),
        }
    }

    fn from_record(v: &Json) -> (r: Option<RpcEvent>)
        ensures
            match r {
                Some(x) => readable_event_record(v@) && x.reads_record(v@),
                None => !readable_event_record(v@),
            },
    {
        let kind = match v.get_str("type") {
            Some(k) => k,
            None => return None,
        };
        if text::same(kind, "agent_start") {
            return Some(RpcEvent::AgentStart);
        }
        if text::same(kind, "agent_end") {
            return match (
                fields::read_items(v, "messages"),
                fields::read_flag(v, "willRetry"),
            ) {
                (Some(messages), Some(will_retry)) => Some(
                    RpcEvent::AgentEnd { messages, will_retry },
                ),
                _ => None,
            };
        }
        if text::same(kind, "turn_start") {
            return Some(RpcEvent::TurnStart);
        }
        if text::same(kind, "turn_end") {
            return match (
                fields::read_value(v, "message"),
                fields::read_list(v, "toolResults"),
            ) {
                (Some(message), Some(tool_results)) => Some(
                    RpcEvent::TurnEnd { message, tool_results },
                ),
                _ => None,
            };
        }
        if text::same(kind, "message_start") {
            return match fields::read_value(v, "message") {
                Some(message) => Some(RpcEvent::MessageStart { message }),
                None => None,
            };
        }
        if text::same(kind, "message_end") {
            return match fields::read_value(v, "message") {
                Some(message) => Some(RpcEvent::MessageEnd { message }),
                None => None,
            };
        }
        if text::same(kind, "tool_execution_start") {
            return match (
                fields::read_text(v, "toolCallId"),
                fields::read_text(v, "toolName"),
                fields::read_value(v, "args"),
            ) {
                (Some(tool_call_id), Some(tool_name), Some(args)) => Some(
                    RpcEvent::ToolExecutionStart { tool_call_id, tool_name, args },
                ),
                _ => None,
            };
        }
        if text::same(kind, "tool_execution_update") {
            return match (
                fields::read_text(v, "toolCallId"),
                fields::read_text(v, "toolName"),
                fields::read_value(v, "args"),
                fields::read_value(v, "partialResult"),
            ) {
                (Some(tool_call_id), Some(tool_name), Some(args), Some(partial_result)) => Some(
                    RpcEvent::ToolExecutionUpdate { tool_call_id, tool_name, args, partial_result },
                ),
                _ => None,
            };
        }
        if text::same(kind, "tool_execution_end") {
            return match (
                fields::read_text(v, "toolCallId"),
                fields::read_text(v, "toolName"),
                fields::read_value(v, "result"),
                v.get_bool("isError"),
            ) {
                (Some(tool_call_id), Some(tool_name), Some(result), Some(is_error)) => Some(
                    RpcEvent::ToolExecutionEnd { tool_call_id, tool_name, result, is_error },
                ),
                _ => None,
            };
        }
        if text::same(kind, "agent_settled") {
            return Some(RpcEvent::AgentSettled);
        }
        if text::same(kind, "queue_update") {
            return match (
                fields::read_text_list(v, "steering"),
                fields::read_text_list(v, "followUp"),
            ) {
                (Some(steering), Some(follow_up)) => Some(
                    RpcEvent::QueueUpdate { steering, follow_up },
                ),
                _ => None,
            };
        }
        if text::same(kind, "compaction_start") {
            return match read_reason(v, "reason") {
                Some(reason) => Some(RpcEvent::CompactionStart { reason }),
                None => None,
            };
        }
        if text::same(kind, "entry_appended") {
            return match fields::read_value(v, "entry") {
                Some(entry) => Some(RpcEvent::EntryAppended { entry }),
                None => None,
            };
        }
        if text::same(kind, "session_info_changed") {
            return match fields::read_optional_text(v, "name") {
                Some(name) => Some(RpcEvent::SessionInfoChanged { name }),
                None => None,
            };
        }
        if text::same(kind, "thinking_level_changed") {
            return match read_level(v, "level") {
                Some(level) => Some(RpcEvent::ThinkingLevelChanged { level }),
                None => None,
            };
        }
        if text::same(kind, "compaction_end") {
            let result = fields::read_optional_value(v, "result");
            return match (
                read_reason(v, "reason"),
                v.get_bool("aborted"),
                v.get_bool("willRetry"),
                fields::read_optional_text(v, "errorMessage"),
            ) {
                (Some(reason), Some(aborted), Some(will_retry), Some(error_message)) => Some(
                    RpcEvent::CompactionEnd { reason, result, aborted, will_retry, error_message },
                ),
                _ => None,
            };
        }
        if text::same(kind, "auto_retry_start") {
            return match (
                fields::read_small(v, "attempt"),
                fields::read_small(v, "maxAttempts"),
                v.get_u64("delayMs"),
                fields::read_text(v, "errorMessage"),
            ) {
                (Some(attempt), Some(max_attempts), Some(delay_ms), Some(error_message)) => Some(
                    RpcEvent::AutoRetryStart { attempt, max_attempts, delay_ms, error_message },
                ),
                _ => None,
            };
        }
        if text::same(kind, "auto_retry_end") {
            return match (
                v.get_bool("success"),
                fields::read_small(v, "attempt"),
                fields::read_optional_text(v, "finalError"),
            ) {
                (Some(success), Some(attempt), Some(final_error)) => Some(
                    RpcEvent::AutoRetryEnd { success, attempt, final_error },
                ),
                _ => None,
            };
        }
        if text::same(kind, "summarization_retry_scheduled") {
            return match (
                fields::read_small(v, "attempt"),
                fields::read_small(v, "maxAttempts"),
                v.get_u64("delayMs"),
                fields::read_text(v, "errorMessage"),
            ) {
                (Some(attempt), Some(max_attempts), Some(delay_ms), Some(error_message)) => Some(
                    RpcEvent::SummarizationRetryScheduled { attempt, max_attempts, delay_ms, error_message },
                ),
                _ => None,
            };
        }
        if text::same(kind, "summarization_retry_attempt_start") {
            return match (
                fields::read_text(v, "source"),
                read_optional_reason(v, "reason"),
            ) {
                (Some(source), Some(reason)) => Some(
                    RpcEvent::SummarizationRetryAttemptStart { source, reason },
                ),
                _ => None,
            };
        }
        if text::same(kind, "summarization_retry_finished") {
            return Some(RpcEvent::SummarizationRetryFinished);
        }
        if text::same(kind, "bash_execution_update") {
            return match (
                fields::read_optional_text(v, "id"),
                fields::read_text(v, "delta"),
            ) {
                (Some(id), Some(delta)) => Some(
                    RpcEvent::BashExecutionUpdate { id, delta },
                ),
                _ => None,
            };
        }
        if text::same(kind, "extension_error") {
            return match (
                fields::read_text(v, "extensionPath"),
                fields::read_text(v, "event"),
                fields::read_text(v, "error"),
            ) {
                (Some(extension_path), Some(event), Some(error)) => Some(
                    RpcEvent::ExtensionError { extension_path, event, error },
                ),
                _ => None,
            };
        }
        if text::same(kind, "message_update") {
            return match (v.get("usage"), v.get("assistantMessageEvent")) {
                (Some(u), Some(e)) => match (Usage::from_json(u), AssistantMessageEvent::from_json(e)) {
                    (Some(usage), Some(assistant_message_event)) => Some(
                        RpcEvent::MessageUpdate { usage, assistant_message_event },
                    ),
                    _ => None,
                },
                _ => None,
            };
        }
        if text::same(kind, "extension_ui_request") {
            return match ExtensionUiRequest::from_json(v) {
                Some(inner) => Some(RpcEvent::ExtensionUiRequest { inner }),
                None => None,
            };
        }
        if text::same(kind, "unmatched_response") {
            return match fields::read_value(v, "raw") {
                Some(raw) => Some(RpcEvent::UnmatchedResponse { raw }),
                None => None,
            };
        }
        if text::same(kind, "unknown") {
            return match fields::read_value(v, "raw") {
                Some(raw) => Some(RpcEvent::Unknown { raw }),
                None => None,
            };
        }
        None
    }
}

} // verus!
