//! The error texts in pi's messages and events.

use crate::json;
use crate::json::{Json, JsonView};
use crate::text;
use crate::translate::bash;
use crate::translate::blocks;
use vstd::prelude::*;
use vstd::string::*;

verus! {

/// What is said of an error that explains nothing.
pub const GENERIC_PI_ERROR: &'static str = "Pi reported an assistant error.";

/// A text without surrounding whitespace, when anything is left.
pub open spec fn said(s: Seq<char>) -> Option<Seq<char>> {
    if text::trimmed(s).len() > 0 {
        Some(text::trimmed(s))
    } else {
        None
    }
}

/// A text without surrounding whitespace, when anything is left.
pub fn non_empty_text(s: &str) -> (r: Option<String>)
    ensures
        text::opt_text(r) == said(s@),
{
    let t = text::trim(s);
    if t.is_empty() {
        None
    } else {
        Some(t.to_owned())
    }
}

/// The error text that the member `name` of a record holds.
pub open spec fn error_text_under(v: JsonView, name: Seq<char>, depth: nat) -> Option<Seq<char>>
    decreases
            (if depth <= 4 {
                5 - depth
            } else {
                0
            }), 0nat,
{
    match json::member(v, name) {
        Some(x) => if depth <= 4 {
            error_text(x, depth + 1)
        } else {
            None
        },
        None => None,
    }
}

/// The useful text in an error value: a string, the text blocks of a list, or
/// the first member of a record that holds one. Records nested more than four
/// deep hold none.
pub open spec fn error_text(v: JsonView, depth: nat) -> Option<Seq<char>>
    decreases
            (if depth <= 4 {
                5 - depth
            } else {
                0
            }), 1nat,
{
    if depth > 4 {
        None
    } else {
        match v {
            JsonView::Str(s) => said(s),
            JsonView::Array(items) => said(text::joined(blocks::block_texts(items), ""@)),
            JsonView::Object(_) => bash::either(
                error_text_under(v, "errorMessage"@, depth),
                bash::either(
                    error_text_under(v, "error_message"@, depth),
                    bash::either(
                        error_text_under(v, "message"@, depth),
                        bash::either(
                            error_text_under(v, "error"@, depth),
                            bash::either(
                                error_text_under(v, "detail"@, depth),
                                bash::either(
                                    error_text_under(v, "details"@, depth),
                                    error_text_under(v, "content"@, depth),
                                ),
                            ),
                        ),
                    ),
                ),
            ),
            _ => None,
        }
    }
}

fn value_error_text_under(value: &Json, name: &str, depth: u8) -> (r: Option<String>)
    requires
        depth <= 4,
    ensures
        text::opt_text(r) == error_text_under(value@, name@, depth as nat),
    decreases 5 - depth, 0nat,
{
    match value.get(name) {
        Some(x) => value_error_text(x, depth + 1),
        None => None,
    }
}

/// The useful text in an error value.
pub fn value_error_text(value: &Json, depth: u8) -> (r: Option<String>)
    ensures
        text::opt_text(r) == error_text(value@, depth as nat),
    decreases
            (if depth <= 4 {
                5 - depth
            } else {
                0
            }), 1nat,
{
    broadcast use crate::json::json_view;

    if depth > 4 {
        return None;
    }
    match value {
        Json::Str(s) => non_empty_text(s.as_str()),
        Json::Array(items) => {
            let texts = blocks::texts_of_blocks(items);
            let all = text::join(&texts, "");
            non_empty_text(all.as_str())
        },
        Json::Object(_) => {
            if let Some(t) = value_error_text_under(value, "errorMessage", depth) {
                return Some(t);
            }
            if let Some(t) = value_error_text_under(value, "error_message", depth) {
                return Some(t);
            }
            if let Some(t) = value_error_text_under(value, "message", depth) {
                return Some(t);
            }
            if let Some(t) = value_error_text_under(value, "error", depth) {
                return Some(t);
            }
            if let Some(t) = value_error_text_under(value, "detail", depth) {
                return Some(t);
            }
            if let Some(t) = value_error_text_under(value, "details", depth) {
                return Some(t);
            }
            value_error_text_under(value, "content", depth)
        },
        _ => None,
    }
}

/// A stop reason that explains something: not blank, and not just the word
/// `error` or `aborted`.
pub open spec fn meaningful(reason: Seq<char>) -> Option<Seq<char>> {
    match said(reason) {
        Some(r) => if text::ascii_lowered(r) == "error"@ || text::ascii_lowered(r) == "aborted"@ {
            None
        } else {
            Some(r)
        },
        None => None,
    }
}

/// A stop reason that explains something.
pub fn meaningful_error_reason(reason: &str) -> (r: Option<String>)
    ensures
        text::opt_text(r) == meaningful(reason@),
{
    match non_empty_text(reason) {
        Some(r) => {
            let low = text::to_ascii_lower(r.as_str());
            if text::same(low.as_str(), "error") || text::same(low.as_str(), "aborted") {
                None
            } else {
                Some(r)
            }
        },
        None => None,
    }
}

/// The error text in the member `name` of a record.
pub open spec fn member_error(v: JsonView, name: Seq<char>) -> Option<Seq<char>> {
    match json::member(v, name) {
        Some(x) => error_text(x, 0),
        None => None,
    }
}

/// The error text in the error members of a record.
pub open spec fn detail_of(v: JsonView) -> Option<Seq<char>> {
    bash::either(
        member_error(v, "errorMessage"@),
        bash::either(member_error(v, "error_message"@), member_error(v, "error"@)),
    )
}

fn member_error_text(v: &Json, name: &str) -> (r: Option<String>)
    ensures
        text::opt_text(r) == member_error(v@, name@),
{
    match v.get(name) {
        Some(x) => value_error_text(x, 0),
        None => None,
    }
}

/// The error text in the error members of a record.
pub fn error_detail(value: &Json) -> (r: Option<String>)
    ensures
        text::opt_text(r) == detail_of(value@),
{
    if let Some(t) = member_error_text(value, "errorMessage") {
        return Some(t);
    }
    if let Some(t) = member_error_text(value, "error_message") {
        return Some(t);
    }
    member_error_text(value, "error")
}

/// The text, or the generic one when there is none.
pub open spec fn or_generic(t: Option<Seq<char>>) -> Seq<char> {
    match t {
        Some(s) => s,
        None => GENERIC_PI_ERROR@,
    }
}

fn or_generic_text(t: Option<String>) -> (r: String)
    ensures
        r@ == or_generic(text::opt_text(t)),
{
    match t {
        Some(s) => s,
        None => GENERIC_PI_ERROR.to_owned(),
    }
}

/// What is said of an assistant error: the error's text, else its reason.
pub open spec fn assistant_error(reason: Seq<char>, error: JsonView) -> Seq<char> {
    or_generic(bash::either(error_text(error, 0), meaningful(reason)))
}

/// What is said of an assistant error.
pub fn assistant_error_text(reason: &str, error: &Json) -> (r: String)
    ensures
        r@ == assistant_error(reason@, error@),
{
    match value_error_text(error, 0) {
        Some(t) => t,
        None => or_generic_text(meaningful_error_reason(reason)),
    }
}

/// Whether a message is the assistant's.
pub open spec fn from_assistant(message: JsonView) -> bool {
    json::str_member(message, "role"@) == Some("assistant"@)
}

/// Whether a message is the assistant's.
pub fn is_from_assistant(message: &Json) -> (r: bool)
    ensures
        r == from_assistant(message@),
{
    match message.get_str("role") {
        Some(role) => text::same(role, "assistant"),
        None => false,
    }
}

/// The text blocks of an assistant message, one after the other.
pub open spec fn message_text(message: JsonView) -> Seq<char> {
    if from_assistant(message) {
        text::joined(bash::content_texts(message), ""@)
    } else {
        Seq::empty()
    }
}

/// The text blocks of an assistant message, one after the other.
pub fn assistant_message_text(message: &Json) -> (r: String)
    ensures
        r@ == message_text(message@),
{
    if !is_from_assistant(message) {
        return String::new();
    }
    let texts = bash::content_block_texts(message);
    text::join(&texts, "")
}

/// Why an assistant message stopped.
pub open spec fn stop_reason_of(message: JsonView) -> Option<Seq<char>> {
    bash::either(
        json::str_member(message, "stopReason"@),
        bash::either(
            json::str_member(message, "stop_reason"@),
            json::str_member(message, "status"@),
        ),
    )
}

/// Whether an assistant message reports a failure: by a flag, by its stop
/// reason, or by an error text.
pub open spec fn reports_failure(message: JsonView) -> bool {
    ||| json::bool_member(message, "isError"@) == Some(true)
    ||| json::bool_member(message, "is_error"@) == Some(true)
    ||| match stop_reason_of(message) {
        Some(r) => text::ascii_lowered(r) == text::ascii_lowered("error"@),
        None => false,
    }
    ||| detail_of(message) is Some
}

/// The failure that a finished message reports, if it is the assistant's.
pub open spec fn message_error(message: JsonView) -> Option<Seq<char>> {
    if from_assistant(message) && reports_failure(message) {
        Some(or_generic(bash::either(detail_of(message), member_error(message, "content"@))))
    } else {
        None
    }
}

/// The failure that a finished message reports.
pub fn assistant_message_error_text(message: &Json) -> (r: Option<String>)
    ensures
        text::opt_text(r) == message_error(message@),
{
    if !is_from_assistant(message) {
        return None;
    }
    let stop_reason = match message.get_str("stopReason") {
        Some(s) => Some(s),
        None => match message.get_str("stop_reason") {
            Some(s) => Some(s),
            None => message.get_str("status"),
        },
    };
    let stop_is_error = match stop_reason {
        Some(s) => text::same_ignoring_ascii_case(s, "error"),
        None => false,
    };
    let flagged = message.get_bool("isError") == Some(true) || message.get_bool("is_error") == Some(
        true,
    );
    let detail = error_detail(message);
    if !(flagged || stop_is_error || detail.is_some()) {
        return None;
    }
    match detail {
        Some(t) => Some(t),
        None => Some(or_generic_text(member_error_text(message, "content"))),
    }
}

/// Whether an event is tagged as an error.
pub open spec fn tagged_error(v: JsonView) -> bool {
    json::str_member(v, "type"@) == Some("error"@) || json::str_member(v, "type"@) == Some(
        "agent_error"@,
    )
}

/// The error event inside an event of unknown shape.
pub open spec fn unknown_error_event(raw: JsonView) -> Option<JsonView> {
    let event = if json::str_member(raw, "type"@) == Some("message_update"@) {
        json::member(raw, "assistantMessageEvent"@)
    } else if tagged_error(raw) {
        Some(raw)
    } else {
        None
    };
    match event {
        Some(e) => if tagged_error(e) {
            Some(e)
        } else {
            None
        },
        None => None,
    }
}

/// What an event of unknown shape says of an error, when it is tagged as one.
pub open spec fn unknown_error(raw: JsonView) -> Option<Seq<char>> {
    match unknown_error_event(raw) {
        Some(e) => Some(
            or_generic(
                bash::either(
                    detail_of(e),
                    bash::either(
                        member_error(e, "content"@),
                        bash::either(
                            member_error(e, "message"@),
                            meaningful(
                                match json::str_member(e, "reason"@) {
                                    Some(r) => r,
                                    None => Seq::empty(),
                                },
                            ),
                        ),
                    ),
                ),
            ),
        ),
        None => None,
    }
}

fn is_tagged_error(v: &Json) -> (r: bool)
    ensures
        r == tagged_error(v@),
{
    match v.get_str("type") {
        Some(t) => text::same(t, "error") || text::same(t, "agent_error"),
        None => false,
    }
}

fn find_unknown_error_event<'a>(raw: &'a Json) -> (r: Option<&'a Json>)
    ensures
        json::opt_ref(r) == unknown_error_event(raw@),
{
    let is_update = match raw.get_str("type") {
        Some(t) => text::same(t, "message_update"),
        None => false,
    };
    let event = if is_update {
        raw.get("assistantMessageEvent")
    } else if is_tagged_error(raw) {
        Some(raw)
    } else {
        None
    };
    match event {
        Some(e) => if is_tagged_error(e) {
            Some(e)
        } else {
            None
        },
        None => None,
    }
}

/// What an event of unknown shape says of an error, when it is tagged as one.
pub fn unknown_message_error_text(raw: &Json) -> (r: Option<String>)
    ensures
        text::opt_text(r) == unknown_error(raw@),
{
    match find_unknown_error_event(raw) {
        Some(e) => {
            if let Some(t) = error_detail(e) {
                return Some(t);
            }
            if let Some(t) = member_error_text(e, "content") {
                return Some(t);
            }
            if let Some(t) = member_error_text(e, "message") {
                return Some(t);
            }
            let reason = match e.get_str("reason") {
                Some(s) => meaningful_error_reason(s),
                None => {
                    proof {
                        assert(text::trimmed_start(Seq::<char>::empty()) =~= Seq::<char>::empty());
                        assert(text::trimmed_end(Seq::<char>::empty()) =~= Seq::<char>::empty());
                    }
                    None
                },
            };
            Some(or_generic_text(reason))
        },
        None => None,
    }
}

// ---------------------------------------------------------------------------
// Laws
// ---------------------------------------------------------------------------

/// An error that is a text is that text, without the blanks round it.
pub proof fn a_text_is_the_error(t: Seq<char>)
    requires
        text::trimmed(t).len() > 0,
    ensures
        error_text(JsonView::Str(t), 0) == Some(text::trimmed(t)),
{
}

/// The text of an error record is that of its message, under the name that
/// comes first.
pub proof fn the_message_is_the_error(v: JsonView, t: Seq<char>)
    requires
        v is Object,
        text::trimmed(t).len() > 0,
    ensures
        json::member(v, "errorMessage"@) == Some(JsonView::Str(t)) ==> error_text(v, 0) == Some(
            text::trimmed(t),
        ),
        json::member(v, "errorMessage"@) is None && json::member(v, "error_message"@) is None
            && json::member(v, "message"@) == Some(JsonView::Str(t)) ==> error_text(v, 0) == Some(
            text::trimmed(t),
        ),
        json::member(v, "errorMessage"@) is None && json::member(v, "error_message"@) is None
            && json::member(v, "message"@) is None && json::member(v, "error"@) == Some(
            JsonView::Str(t),
        ) ==> error_text(v, 0) == Some(text::trimmed(t)),
{
    reveal_with_fuel(error_text, 3);
    reveal_with_fuel(error_text_under, 3);
}

/// An error of the assistant is told by its text; without one by the reason it
/// stopped for, when that says more than that it failed; else in general.
pub proof fn errors_are_told_by_their_text(reason: Seq<char>, error: JsonView, t: Seq<char>)
    ensures
        error_text(error, 0) == Some(t) ==> assistant_error(reason, error) == t,
        error_text(error, 0) is None && text::trimmed(reason).len() > 0 && text::ascii_lowered(
            text::trimmed(reason),
        ) != "error"@ && text::ascii_lowered(text::trimmed(reason)) != "aborted"@
            ==> assistant_error(reason, error) == text::trimmed(reason),
        error_text(error, 0) is None && text::trimmed(reason).len() == 0 ==> assistant_error(
            reason,
            error,
        ) == "Pi reported an assistant error."@,
{
}

/// A message of the assistant that names an error tells it; one that names
/// none, and that did not fail, tells nothing, and neither does one of others.
pub proof fn failed_messages_tell_their_error(message: JsonView, t: Seq<char>)
    requires
        json::member(message, "role"@) == Some(JsonView::Str("assistant"@)),
        text::trimmed(t).len() > 0,
    ensures
        json::member(message, "errorMessage"@) == Some(JsonView::Str(t)) ==> message_error(message)
            == Some(text::trimmed(t)),
        json::member(message, "errorMessage"@) is None && json::member(message, "error_message"@)
            is None && json::member(message, "error"@) is None && json::member(
            message,
            "isError"@,
        ) is None && json::member(message, "is_error"@) is None && json::member(
            message,
            "stopReason"@,
        ) is None && json::member(message, "stop_reason"@) is None && json::member(
            message,
            "status"@,
        ) is None ==> message_error(message) is None,
{
}

/// Only the assistant's messages tell errors.
pub proof fn only_the_assistant_fails(message: JsonView)
    requires
        json::member(message, "role"@) != Some(JsonView::Str("assistant"@)),
    ensures
        message_error(message) is None,
        message_text(message).len() == 0,
{
}

} // verus!
