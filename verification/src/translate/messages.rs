//! The messages of an earlier conversation, as they are shown again.

use crate::json;
use crate::json::{Json, JsonView};
use crate::text;
use crate::translate::bash;
use crate::translate::blocks;
use crate::translate::tools;
use vstd::prelude::*;
use vstd::string::*;

verus! {

/// The texts of the text blocks, joined.
pub open spec fn blocks_text(items: Seq<JsonView>) -> Seq<char> {
    text::joined(blocks::block_texts(items), ""@)
}

/// The text of a message of the user.
pub open spec fn user_text(content: JsonView) -> Seq<char> {
    match content {
        JsonView::Str(s) => s,
        JsonView::Array(items) => blocks_text(items),
        _ => Seq::empty(),
    }
}

/// The text of a message of the assistant.
pub open spec fn assistant_text(content: JsonView) -> Seq<char> {
    match content {
        JsonView::Array(items) => blocks_text(items),
        _ => Seq::empty(),
    }
}

fn join_text_blocks(items: &Vec<Json>) -> (r: String)
    ensures
        r@ == blocks_text(json::items_view(items@)),
{
    let texts = blocks::texts_of_blocks(items);
    text::join(&texts, "")
}

/// The text of a message of the user.
pub fn normalize_pi_message_text(content: &Json) -> (r: String)
    ensures
        r@ == user_text(content@),
{
    broadcast use json::json_view;

    match content {
        Json::Str(s) => s.clone(),
        Json::Array(items) => join_text_blocks(items),
        _ => String::new(),
    }
}

/// The text of a message of the assistant.
pub fn normalize_pi_assistant_text(content: &Json) -> (r: String)
    ensures
        r@ == assistant_text(content@),
{
    broadcast use json::json_view;

    match content {
        Json::Array(items) => join_text_blocks(items),
        _ => String::new(),
    }
}

/// The result of a tool, as it is shown again.
#[derive(Debug, PartialEq)]
pub struct ToolResultReplay {
    /// The tool.
    pub tool_name: String,
    /// The call, when it is known.
    pub tool_call_id: Option<String>,
    /// Whether the call failed.
    pub is_error: bool,
    /// Whether it is shown as a terminal.
    pub is_bash: bool,
    /// The title.
    pub title: String,
    /// The text.
    pub text: String,
    /// The message.
    pub raw: Json,
}

/// A message, as it is shown again.
#[derive(Debug, PartialEq)]
pub enum ReplayMessage {
    /// The user's text.
    UserText(String),
    /// The assistant's text.
    AssistantText(String),
    /// The result of a tool.
    ToolResult(ToolResultReplay),
}

/// The model of a [`ToolResultReplay`].
pub struct ToolReplayView {
    pub tool_name: Seq<char>,
    pub tool_call_id: Option<Seq<char>>,
    pub is_error: bool,
    pub is_bash: bool,
    pub title: Seq<char>,
    pub text: Seq<char>,
    pub raw: JsonView,
}

/// The model of a [`ReplayMessage`].
pub enum ReplayView {
    UserText(Seq<char>),
    AssistantText(Seq<char>),
    ToolResult(ToolReplayView),
}

impl View for ToolResultReplay {
    type V = ToolReplayView;

    open spec fn view(&self) -> ToolReplayView {
        ToolReplayView {
            tool_name: self.tool_name@,
            tool_call_id: text::opt_text(self.tool_call_id),
            is_error: self.is_error,
            is_bash: self.is_bash,
            title: self.title@,
            text: self.text@,
            raw: self.raw@,
        }
    }
}

impl View for ReplayMessage {
    type V = ReplayView;

    open spec fn view(&self) -> ReplayView {
        match self {
            ReplayMessage::UserText(t) => ReplayView::UserText(t@),
            ReplayMessage::AssistantText(t) => ReplayView::AssistantText(t@),
            ReplayMessage::ToolResult(r) => ReplayView::ToolResult(r@),
        }
    }
}

/// The model of an optional message.
pub open spec fn opt_replay(o: Option<ReplayMessage>) -> Option<ReplayView> {
    match o {
        Some(m) => Some(m@),
        None => None,
    }
}

/// The result of a tool, as it is shown again.
pub open spec fn tool_replay(message: JsonView) -> ToolReplayView {
    let tool_name = match json::str_member(message, "toolName"@) {
        Some(n) => n,
        None => "tool"@,
    };
    let is_bash = bash::names_bash(tool_name);
    ToolReplayView {
        tool_name,
        tool_call_id: json::str_member(message, "toolCallId"@),
        is_error: json::bool_member(message, "isError"@) == Some(true),
        is_bash,
        title: if is_bash {
            match bash::command_of(message) {
                Some(c) => c,
                None => tool_name,
            }
        } else {
            tool_name
        },
        text: if is_bash {
            bash::terminal_text(message)
        } else {
            tools::result_text(message)
        },
        raw: message,
    }
}

/// A message, as it is shown again. Messages without text are not shown; the
/// result of a tool always is.
pub open spec fn replayed(message: JsonView) -> Option<ReplayView> {
    let content = match json::member(message, "content"@) {
        Some(c) => c,
        None => JsonView::Null,
    };
    match json::str_member(message, "role"@) {
        None => None,
        Some(role) => if role == "user"@ {
            if user_text(content).len() > 0 {
                Some(ReplayView::UserText(user_text(content)))
            } else {
                None
            }
        } else if role == "assistant"@ {
            if assistant_text(content).len() > 0 {
                Some(ReplayView::AssistantText(assistant_text(content)))
            } else {
                None
            }
        } else if role == "toolResult"@ {
            Some(ReplayView::ToolResult(tool_replay(message)))
        } else {
            None
        },
    }
}

fn replay_tool(message: &Json) -> (r: ToolResultReplay)
    ensures
        r@ == tool_replay(message@),
{
    let tool_name = match message.get_str("toolName") {
        Some(n) => n.to_owned(),
        None => "tool".to_owned(),
    };
    let tool_call_id = match message.get_str("toolCallId") {
        Some(n) => Some(n.to_owned()),
        None => None,
    };
    let is_error = match message.get_bool("isError") {
        Some(b) => b,
        None => false,
    };
    let is_bash = bash::is_bash_tool(tool_name.as_str());
    let title = if is_bash {
        match bash::bash_command(message) {
            Some(c) => c,
            None => tool_name.clone(),
        }
    } else {
        tool_name.clone()
    };
    let text = if is_bash {
        bash::bash_result_text(message)
    } else {
        tools::tool_result_to_text(message)
    };
    ToolResultReplay {
        tool_name,
        tool_call_id,
        is_error,
        is_bash,
        title,
        text,
        raw: message.clone(),
    }
}

/// Make of a message what is shown again.
pub fn replay_message(message: &Json) -> (r: Option<ReplayMessage>)
    ensures
        opt_replay(r) == replayed(message@),
{
    broadcast use json::json_view;

    let role = match message.get_str("role") {
        Some(x) => x,
        None => return None,
    };
    let none = Json::Null;
    let content = match message.get("content") {
        Some(c) => c,
        None => &none,
    };
    if text::same(role, "user") {
        let t = normalize_pi_message_text(content);
        if t.as_str().unicode_len() > 0 {
            Some(ReplayMessage::UserText(t))
        } else {
            None
        }
    } else if text::same(role, "assistant") {
        let t = normalize_pi_assistant_text(content);
        if t.as_str().unicode_len() > 0 {
            Some(ReplayMessage::AssistantText(t))
        } else {
            None
        }
    } else if text::same(role, "toolResult") {
        Some(ReplayMessage::ToolResult(replay_tool(message)))
    } else {
        None
    }
}

} // verus!
