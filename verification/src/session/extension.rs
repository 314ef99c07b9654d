//! The questions of pi's extensions: how they are put to the user, and what
//! the extension is told of the user's choice.

use crate::error::AcpxError;
use crate::json;
use crate::json::{Json, JsonMap, JsonView};
use crate::pi::events::ExtensionUiRequest;
use crate::pi::rpc::ExtensionUiResponse;
use crate::session::facts::{
    MetaView, PermissionOptionFact, PermissionOptionKindFact, PermissionOutcomeFact,
    PermissionRequestFact, PermissionRequestView, TextChunk, TextChunkKind, TextChunkView,
};
use crate::session::facts;
use crate::text;
use vstd::prelude::*;
use vstd::string::*;

verus! {

// ---------------------------------------------------------------------------
// Reading a question
// ---------------------------------------------------------------------------

impl ExtensionUiRequest {
    /// The wire name of the method.
    pub open spec fn method(self) -> Seq<char> {
        match self {
            ExtensionUiRequest::Select { .. } => "select"@,
            ExtensionUiRequest::Confirm { .. } => "confirm"@,
            ExtensionUiRequest::Input { .. } => "input"@,
            ExtensionUiRequest::Editor { .. } => "editor"@,
            ExtensionUiRequest::Notify { .. } => "notify"@,
            ExtensionUiRequest::SetStatus { .. } => "setStatus"@,
            ExtensionUiRequest::SetWidget { .. } => "setWidget"@,
            ExtensionUiRequest::SetTitle { .. } => "setTitle"@,
            ExtensionUiRequest::SetEditorText { .. } => "set_editor_text"@,
        }
    }

    /// The question's id.
    pub open spec fn question(self) -> Seq<char> {
        match self {
            ExtensionUiRequest::Select { id, .. } => id@,
            ExtensionUiRequest::Confirm { id, .. } => id@,
            ExtensionUiRequest::Input { id, .. } => id@,
            ExtensionUiRequest::Editor { id, .. } => id@,
            ExtensionUiRequest::Notify { id, .. } => id@,
            ExtensionUiRequest::SetStatus { id, .. } => id@,
            ExtensionUiRequest::SetWidget { id, .. } => id@,
            ExtensionUiRequest::SetTitle { id, .. } => id@,
            ExtensionUiRequest::SetEditorText { id, .. } => id@,
        }
    }

    /// What is asked, of a question that waits for the user.
    pub open spec fn asked(self) -> Option<Seq<char>> {
        match self {
            ExtensionUiRequest::Select { title, .. } => Some(title@),
            ExtensionUiRequest::Confirm { title, .. } => Some(title@),
            ExtensionUiRequest::Input { title, .. } => Some(title@),
            ExtensionUiRequest::Editor { title, .. } => Some(title@),
            _ => None,
        }
    }

    /// How long the extension waits, in milliseconds.
    pub open spec fn patience(self) -> Option<u64> {
        match self {
            ExtensionUiRequest::Select { timeout, .. } => timeout,
            ExtensionUiRequest::Confirm { timeout, .. } => timeout,
            ExtensionUiRequest::Input { timeout, .. } => timeout,
            _ => None,
        }
    }

    /// The wire name of the method.
    pub fn method_name(&self) -> (r: &'static str)
        ensures
            r@ == self.method(),
    {
        match self {
            ExtensionUiRequest::Select { .. } => "select",
            ExtensionUiRequest::Confirm { .. } => "confirm",
            ExtensionUiRequest::Input { .. } => "input",
            ExtensionUiRequest::Editor { .. } => "editor",
            ExtensionUiRequest::Notify { .. } => "notify",
            ExtensionUiRequest::SetStatus { .. } => "setStatus",
            ExtensionUiRequest::SetWidget { .. } => "setWidget",
            ExtensionUiRequest::SetTitle { .. } => "setTitle",
            ExtensionUiRequest::SetEditorText { .. } => "set_editor_text",
        }
    }

    /// The question's id.
    pub fn id(&self) -> (r: &str)
        ensures
            r@ == self.question(),
    {
        match self {
            ExtensionUiRequest::Select { id, .. } => id.as_str(),
            ExtensionUiRequest::Confirm { id, .. } => id.as_str(),
            ExtensionUiRequest::Input { id, .. } => id.as_str(),
            ExtensionUiRequest::Editor { id, .. } => id.as_str(),
            ExtensionUiRequest::Notify { id, .. } => id.as_str(),
            ExtensionUiRequest::SetStatus { id, .. } => id.as_str(),
            ExtensionUiRequest::SetWidget { id, .. } => id.as_str(),
            ExtensionUiRequest::SetTitle { id, .. } => id.as_str(),
            ExtensionUiRequest::SetEditorText { id, .. } => id.as_str(),
        }
    }

    /// What is asked, of a question that waits for the user.
    pub fn title(&self) -> (r: Option<&str>)
        ensures
            text::opt_str(r) == self.asked(),
    {
        match self {
            ExtensionUiRequest::Select { title, .. } => Some(title.as_str()),
            ExtensionUiRequest::Confirm { title, .. } => Some(title.as_str()),
            ExtensionUiRequest::Input { title, .. } => Some(title.as_str()),
            ExtensionUiRequest::Editor { title, .. } => Some(title.as_str()),
            _ => None,
        }
    }

    /// How long the extension waits, in milliseconds.
    pub fn timeout_ms(&self) -> (r: Option<u64>)
        ensures
            r == self.patience(),
    {
        match self {
            ExtensionUiRequest::Select { timeout, .. } => *timeout,
            ExtensionUiRequest::Confirm { timeout, .. } => *timeout,
            ExtensionUiRequest::Input { timeout, .. } => *timeout,
            _ => None,
        }
    }
}

/// The fields of a question that its permission call carries: the method and
/// what is asked, then what is particular to the method.
pub open spec fn raw_input(req: ExtensionUiRequest) -> MetaView {
    let base = json::put_opt(
        json::put(Seq::empty(), "method"@, JsonView::Str(req.method())),
        "title"@,
        json::opt_string(req.asked()),
    );
    match req {
        ExtensionUiRequest::Select { options, .. } => json::put(
            base,
            "options"@,
            JsonView::Array(text::texts(options@).map_values(|s: Seq<char>| JsonView::Str(s))),
        ),
        ExtensionUiRequest::Confirm { message, .. } => json::put(
            base,
            "message"@,
            JsonView::Str(message@),
        ),
        ExtensionUiRequest::Input { placeholder, .. } => json::put_opt(
            base,
            "placeholder"@,
            json::opt_string(text::opt_text(placeholder)),
        ),
        ExtensionUiRequest::Editor { prefill, .. } => json::put_opt(
            base,
            "prefill"@,
            json::opt_string(text::opt_text(prefill)),
        ),
        _ => base,
    }
}

/// The raw input that the permission call of a question carries.
pub fn extension_ui_raw_input(req: &ExtensionUiRequest) -> (r: Json)
    ensures
        r@ == JsonView::Object(raw_input(*req)),
{
    broadcast use crate::json::json_view;

    let title = match req.title() {
        Some(t) => Some(Json::text(t)),
        None => None,
    };
    let base = JsonMap::new().with("method", Json::text(req.method_name())).with_opt(
        "title",
        title,
    );
    match req {
        ExtensionUiRequest::Select { options, .. } => Json::Object(
            base.with("options", Json::text_list(options)),
        ),
        ExtensionUiRequest::Confirm { message, .. } => Json::Object(
            base.with("message", Json::text(message.as_str())),
        ),
        ExtensionUiRequest::Input { placeholder, .. } => Json::Object(
            base.with_text("placeholder", placeholder),
        ),
        ExtensionUiRequest::Editor { prefill, .. } => Json::Object(
            base.with_text("prefill", prefill),
        ),
        _ => Json::Object(base),
    }
}

// ---------------------------------------------------------------------------
// Choices
// ---------------------------------------------------------------------------

/// The id of the choice with the given position.
pub open spec fn choice_id(i: nat) -> Seq<char> {
    "choice-"@ + text::decimal(i)
}

/// The position in the id of a choice; only the canonical decimal form is one.
pub open spec fn choice_at(option_id: Seq<char>) -> Option<nat> {
    match text::after_prefix(option_id, "choice-"@) {
        Some(raw) => match text::number_in(raw, usize::MAX as nat) {
            Some(n) => if text::decimal(n) == raw {
                Some(n)
            } else {
                None
            },
            None => None,
        },
        None => None,
    }
}

/// The position in the id of a choice.
pub fn option_index(option_id: &str) -> (r: Option<usize>)
    ensures
        match r {
            Some(i) => choice_at(option_id@) == Some(i as nat),
            None => choice_at(option_id@) is None,
        },
{
    let raw = match text::strip_prefix(option_id, "choice-") {
        Some(raw) => raw,
        None => return None,
    };
    match text::read_number(raw, usize::MAX as u64) {
        Some(n) => {
            let shown = text::decimal_text(n);
            if text::same(shown.as_str(), raw) {
                Some(n as usize)
            } else {
                None
            }
        },
        None => None,
    }
}

/// The choices of a question with several values.
pub open spec fn choices(options: Seq<Seq<char>>) -> Seq<
    (Seq<char>, Seq<char>, PermissionOptionKindFact),
> {
    Seq::new(
        options.len(),
        |i: int| (choice_id(i as nat), options[i], PermissionOptionKindFact::AllowOnce),
    )
}

fn choice_list(options: &Vec<String>) -> (r: Vec<PermissionOptionFact>)
    ensures
        facts::permission_views(r@) == choices(text::texts(options@)),
{
    let mut out: Vec<PermissionOptionFact> = Vec::new();
    let mut i: usize = 0;
    while i < options.len()
        invariant
            i <= options@.len(),
            out@.len() == i,
            forall|k: int|
                0 <= k < i ==> {
                    &&& (#[trigger] out@[k]).id@ == choice_id(k as nat)
                    &&& out@[k].name@ == options@[k]@
                    &&& out@[k].kind == PermissionOptionKindFact::AllowOnce
                },
        decreases options.len() - i,
    {
        let number = text::decimal_text(i as u64);
        out.push(
            PermissionOptionFact {
                id: text::cat2("choice-", number.as_str()),
                name: options[i].clone(),
                kind: PermissionOptionKindFact::AllowOnce,
            },
        );
        i += 1;
    }
    assert(facts::permission_views(out@) =~= choices(text::texts(options@)));
    out
}

/// The choices of a question for yes or no.
pub open spec fn yes_or_no() -> Seq<(Seq<char>, Seq<char>, PermissionOptionKindFact)> {
    seq![
        ("yes"@, "Yes"@, PermissionOptionKindFact::AllowOnce),
        ("no"@, "No"@, PermissionOptionKindFact::RejectOnce),
    ]
}

fn yes_or_no_list() -> (r: Vec<PermissionOptionFact>)
    ensures
        facts::permission_views(r@) == yes_or_no(),
{
    let mut out: Vec<PermissionOptionFact> = Vec::new();
    out.push(
        PermissionOptionFact {
            id: "yes".to_owned(),
            name: "Yes".to_owned(),
            kind: PermissionOptionKindFact::AllowOnce,
        },
    );
    out.push(
        PermissionOptionFact {
            id: "no".to_owned(),
            name: "No".to_owned(),
            kind: PermissionOptionKindFact::RejectOnce,
        },
    );
    assert(facts::permission_views(out@) =~= yes_or_no());
    out
}

// ---------------------------------------------------------------------------
// Putting the question
// ---------------------------------------------------------------------------

/// The model of an answer to an extension.
pub enum ResponseView {
    Value { id: Seq<char>, value: Seq<char> },
    Confirmed { id: Seq<char>, confirmed: bool },
    Cancelled { id: Seq<char>, cancelled: bool },
}

impl View for ExtensionUiResponse {
    type V = ResponseView;

    open spec fn view(&self) -> ResponseView {
        match self {
            ExtensionUiResponse::Value { id, value } => ResponseView::Value {
                id: id@,
                value: value@,
            },
            ExtensionUiResponse::Confirmed { id, confirmed } => ResponseView::Confirmed {
                id: id@,
                confirmed: *confirmed,
            },
            ExtensionUiResponse::Cancelled { id, cancelled } => ResponseView::Cancelled {
                id: id@,
                cancelled: *cancelled,
            },
        }
    }
}

/// What to do about a question of an extension.
#[derive(Debug)]
pub enum Treatment {
    /// Put it to the user, and answer with [`extension_answer`].
    Ask(PermissionRequestFact),
    /// Answer it, after showing a notice when there is one.
    Answer {
        /// What the user is shown.
        notice: Option<TextChunk>,
        /// What the extension is told.
        response: ExtensionUiResponse,
    },
}

/// The model of a [`Treatment`].
pub enum TreatmentView {
    Ask(PermissionRequestView),
    Answer { notice: Option<TextChunkView>, response: ResponseView },
}

impl View for Treatment {
    type V = TreatmentView;

    open spec fn view(&self) -> TreatmentView {
        match self {
            Treatment::Ask(p) => TreatmentView::Ask(p@),
            Treatment::Answer { notice, response } => TreatmentView::Answer {
                notice: match notice {
                    Some(n) => Some(n@),
                    None => None,
                },
                response: response@,
            },
        }
    }
}

/// The permission request that puts a question to the user.
pub open spec fn permission(
    session_id: Seq<char>,
    req: ExtensionUiRequest,
    title: Seq<char>,
    options: Seq<(Seq<char>, Seq<char>, PermissionOptionKindFact)>,
) -> PermissionRequestView {
    PermissionRequestView {
        session_id,
        tool_call_id: "pi-ui-"@ + req.question(),
        title,
        raw_input: JsonView::Object(raw_input(req)),
        options,
        meta: None,
    }
}

/// The level of a notice as the chunk carries it.
pub open spec fn notice_meta(level: Seq<char>) -> MetaView {
    json::put(
        Seq::empty(),
        "piAcp"@,
        JsonView::Object(
            json::put(
                Seq::empty(),
                "notify"@,
                JsonView::Object(json::put(Seq::empty(), "level"@, JsonView::Str(level))),
            ),
        ),
    )
}

/// A notice of an extension; it belongs to no message.
pub open spec fn notice(
    session_id: Seq<char>,
    text: Seq<char>,
    meta: Option<MetaView>,
) -> TextChunkView {
    TextChunkView { session_id, message_id: None, kind: TextChunkKind::Agent, text, meta }
}

/// What is done about a question: a choice and a confirmation are put to the
/// user, a choice of nothing is cancelled; what needs an input line or an
/// editor is cancelled with a notice; a message is shown; the rest only
/// concerns the display and is cancelled.
pub open spec fn treatment(session_id: Seq<char>, req: ExtensionUiRequest) -> TreatmentView {
    let cancelled = ResponseView::Cancelled { id: req.question(), cancelled: true };
    match req {
        ExtensionUiRequest::Select { title, options, .. } => if options@.len() == 0 {
            TreatmentView::Answer { notice: None, response: cancelled }
        } else {
            TreatmentView::Ask(
                permission(session_id, req, title@, choices(text::texts(options@))),
            )
        },
        ExtensionUiRequest::Confirm { title, .. } => TreatmentView::Ask(
            permission(session_id, req, title@, yes_or_no()),
        ),
        ExtensionUiRequest::Input { .. } | ExtensionUiRequest::Editor { .. } => TreatmentView::Answer {
            notice: Some(
                notice(
                    session_id,
                    "Pi "@ + req.method()
                        + " UI request is not supported in ACP yet; cancelling it."@,
                    None,
                ),
            ),
            response: cancelled,
        },
        ExtensionUiRequest::Notify { message, notify_type, .. } => TreatmentView::Answer {
            notice: Some(
                notice(
                    session_id,
                    message@,
                    Some(
                        notice_meta(
                            match notify_type {
                                Some(level) => level@,
                                None => "info"@,
                            },
                        ),
                    ),
                ),
            ),
            response: cancelled,
        },
        _ => TreatmentView::Answer { notice: None, response: cancelled },
    }
}

fn cancelled(id: &str) -> (r: ExtensionUiResponse)
    ensures
        r@ == (ResponseView::Cancelled { id: id@, cancelled: true }),
{
    ExtensionUiResponse::Cancelled { id: id.to_owned(), cancelled: true }
}

fn notice_chunk(session_id: &str, text: String, meta: Option<JsonMap>) -> (r: TextChunk)
    ensures
        r@ == notice(session_id@, text@, facts::opt_meta(meta)),
{
    TextChunk {
        session_id: session_id.to_owned(),
        message_id: None,
        kind: TextChunkKind::Agent,
        text,
        meta,
    }
}

/// The permission request that puts a question to the user.
pub fn request_permission(
    session_id: &str,
    req: &ExtensionUiRequest,
    title: &str,
    options: Vec<PermissionOptionFact>,
) -> (r: PermissionRequestFact)
    ensures
        r@ == permission(session_id@, *req, title@, facts::permission_views(options@)),
{
    PermissionRequestFact {
        session_id: session_id.to_owned(),
        tool_call_id: text::cat2("pi-ui-", req.id()),
        title: title.to_owned(),
        raw_input: extension_ui_raw_input(req),
        options,
        meta: None,
    }
}

/// What to do about a question of an extension.
pub fn handle_extension_ui_request(session_id: &str, req: &ExtensionUiRequest) -> (r: Treatment)
    ensures
        r@ == treatment(session_id@, *req),
{
    broadcast use crate::json::json_view;

    match req {
        ExtensionUiRequest::Select { title, options, .. } => {
            if options.len() == 0 {
                Treatment::Answer { notice: None, response: cancelled(req.id()) }
            } else {
                Treatment::Ask(
                    request_permission(session_id, req, title.as_str(), choice_list(options)),
                )
            }
        },
        ExtensionUiRequest::Confirm { title, .. } => Treatment::Ask(
            request_permission(session_id, req, title.as_str(), yes_or_no_list()),
        ),
        ExtensionUiRequest::Input { .. } | ExtensionUiRequest::Editor { .. } => {
            let text = text::cat3(
                "Pi ",
                req.method_name(),
                " UI request is not supported in ACP yet; cancelling it.",
            );
            Treatment::Answer {
                notice: Some(notice_chunk(session_id, text, None)),
                response: cancelled(req.id()),
            }
        },
        ExtensionUiRequest::Notify { message, notify_type, .. } => {
            let level: &str = match notify_type {
                Some(level) => level.as_str(),
                None => "info",
            };
            let notify = JsonMap::new().with("level", Json::text(level));
            let ours = JsonMap::new().with("notify", Json::Object(notify));
            let meta = JsonMap::new().with("piAcp", Json::Object(ours));
            Treatment::Answer {
                notice: Some(notice_chunk(session_id, message.clone(), Some(meta))),
                response: cancelled(req.id()),
            }
        },
        _ => Treatment::Answer { notice: None, response: cancelled(req.id()) },
    }
}

// ---------------------------------------------------------------------------
// The answer
// ---------------------------------------------------------------------------

/// What the extension is told once the user was asked: the value that was
/// chosen, or whether it was yes. Without a choice that the question has, and
/// when the client gave none, the question is cancelled.
pub open spec fn told(req: ExtensionUiRequest, selected: Option<Seq<char>>) -> ResponseView {
    let none = ResponseView::Cancelled { id: req.question(), cancelled: true };
    match (req, selected) {
        (ExtensionUiRequest::Select { options, .. }, Some(option_id)) => match choice_at(
            option_id,
        ) {
            Some(i) => if i < options@.len() {
                ResponseView::Value { id: req.question(), value: options@[i as int]@ }
            } else {
                none
            },
            None => none,
        },
        (ExtensionUiRequest::Confirm { .. }, Some(option_id)) => ResponseView::Confirmed {
            id: req.question(),
            confirmed: option_id == "yes"@,
        },
        _ => none,
    }
}

/// The choice in an outcome; none when the client gave no answer.
pub open spec fn selected(outcome: Option<PermissionOutcomeFact>) -> Option<Seq<char>> {
    match outcome {
        Some(PermissionOutcomeFact::Selected(id)) => Some(id@),
        _ => None,
    }
}

/// What the extension is told once the user was asked.
pub fn extension_answer(req: &ExtensionUiRequest, outcome: &Option<PermissionOutcomeFact>) -> (r:
    ExtensionUiResponse)
    ensures
        r@ == told(*req, selected(*outcome)),
{
    let option_id: &str = match outcome {
        Some(PermissionOutcomeFact::Selected(id)) => id.as_str(),
        _ => return cancelled(req.id()),
    };
    match req {
        ExtensionUiRequest::Select { options, .. } => match option_index(option_id) {
            Some(i) => {
                if i < options.len() {
                    ExtensionUiResponse::Value {
                        id: req.id().to_owned(),
                        value: options[i].clone(),
                    }
                } else {
                    cancelled(req.id())
                }
            },
            None => cancelled(req.id()),
        },
        ExtensionUiRequest::Confirm { .. } => ExtensionUiResponse::Confirmed {
            id: req.id().to_owned(),
            confirmed: text::same(option_id, "yes"),
        },
        _ => cancelled(req.id()),
    }
}

/// Why a permission request got no answer.
#[derive(Debug, Clone, Copy, PartialEq, Eq, Structural)]
pub enum NoAnswer {
    /// The client did not respond within this many milliseconds.
    TimedOut(u64),
    /// The answer was given up.
    Dropped,
    /// The connection is closed.
    Closed,
}

/// What is said of a permission request without an answer.
pub open spec fn no_answer_text(why: NoAnswer) -> Seq<char> {
    match why {
        NoAnswer::TimedOut(ms) => "client did not respond within "@ + text::decimal(ms as nat)
            + "ms"@,
        NoAnswer::Dropped => "permission responder dropped"@,
        NoAnswer::Closed => "outbound sink closed"@,
    }
}

/// The error of a permission request without an answer.
pub fn permission_error(why: NoAnswer) -> (r: AcpxError)
    ensures
        r@ == (AcpxError::RpcFailed {
            command: "request_permission"@,
            message: no_answer_text(why),
        }),
{
    let message = match why {
        NoAnswer::TimedOut(ms) => {
            let shown = text::decimal_text(ms);
            text::cat3("client did not respond within ", shown.as_str(), "ms")
        },
        NoAnswer::Dropped => "permission responder dropped".to_owned(),
        NoAnswer::Closed => "outbound sink closed".to_owned(),
    };
    AcpxError::RpcFailed { command: "request_permission".to_owned(), message }
}

// ---------------------------------------------------------------------------
// Laws
// ---------------------------------------------------------------------------

/// The id of a choice gives its position back.
pub proof fn choice_ids_read_back(i: nat)
    requires
        i <= usize::MAX,
    ensures
        choice_at(choice_id(i)) == Some(i),
{
    text::decimal_reads_back(i);
    let s = choice_id(i);
    let p = "choice-"@;
    assert(s.skip(p.len() as int) =~= text::decimal(i));
    assert(s.take(p.len() as int) =~= p);
}

/// Each choice that a question offers is answered with the value it stands
/// for.
pub proof fn a_choice_stands_for_its_value(
    session_id: Seq<char>,
    req: ExtensionUiRequest,
    p: PermissionRequestView,
    i: int,
)
    requires
        req is Select,
        treatment(session_id, req) == TreatmentView::Ask(p),
        0 <= i < p.options.len() <= usize::MAX,
    ensures
        told(req, Some(p.options[i].0)) == (ResponseView::Value {
            id: req.question(),
            value: p.options[i].1,
        }),
{
    choice_ids_read_back(i as nat);
}

/// A confirmation is answered yes by the first choice and no by the other.
pub proof fn a_confirmation_is_yes_or_no(
    session_id: Seq<char>,
    req: ExtensionUiRequest,
    p: PermissionRequestView,
)
    requires
        req is Confirm,
        treatment(session_id, req) == TreatmentView::Ask(p),
    ensures
        p.options.len() == 2,
        told(req, Some(p.options[0].0)) == (ResponseView::Confirmed {
            id: req.question(),
            confirmed: true,
        }),
        told(req, Some(p.options[1].0)) == (ResponseView::Confirmed {
            id: req.question(),
            confirmed: false,
        }),
{
    reveal_strlit("yes");
    reveal_strlit("no");
    assert("yes"@.len() != "no"@.len());
}

/// The id in an answer.
pub open spec fn answered(r: ResponseView) -> Seq<char> {
    match r {
        ResponseView::Value { id, .. } => id,
        ResponseView::Confirmed { id, .. } => id,
        ResponseView::Cancelled { id, .. } => id,
    }
}

/// Every question gets an answer that names it, whatever the user does.
pub proof fn every_question_is_answered(
    session_id: Seq<char>,
    req: ExtensionUiRequest,
    choice: Option<Seq<char>>,
)
    ensures
        match treatment(session_id, req) {
            TreatmentView::Ask(_) => answered(told(req, choice)) == req.question(),
            TreatmentView::Answer { response, .. } => answered(response) == req.question(),
        },
{
}

/// A selection is put to the user under its title with all of its options, in
/// order; without options it is given up.
pub proof fn a_selection_is_put(
    session_id: Seq<char>,
    id: String,
    title: String,
    options: Vec<String>,
    timeout: Option<u64>,
    k: int,
)
    ensures
        ({
            let req = ExtensionUiRequest::Select { id, title, options, timeout };
            &&& options@.len() > 0 ==> (treatment(session_id, req) matches TreatmentView::Ask(p)
                && p.session_id == session_id && p.title == title@ && p.options.len()
                == options@.len() && (0 <= k < options@.len() ==> p.options[k].1 == options@[k]@
                && p.options[k].2 == PermissionOptionKindFact::AllowOnce))
            &&& options@.len() == 0 ==> treatment(session_id, req) == (TreatmentView::Answer {
                notice: None,
                response: ResponseView::Cancelled { id: id@, cancelled: true },
            })
            &&& told(req, None) == (ResponseView::Cancelled { id: id@, cancelled: true })
        }),
{
}

/// A confirmation is put to the user under its title: to allow, or to reject.
pub proof fn a_confirmation_is_put(
    session_id: Seq<char>,
    id: String,
    title: String,
    message: String,
    timeout: Option<u64>,
)
    ensures
        ({
            let req = ExtensionUiRequest::Confirm { id, title, message, timeout };
            &&& treatment(session_id, req) matches TreatmentView::Ask(p) && p.session_id
                == session_id && p.title == title@ && p.options.len() == 2 && p.options[0].2
                == PermissionOptionKindFact::AllowOnce && p.options[1].2
                == PermissionOptionKindFact::RejectOnce
            &&& told(req, None) == (ResponseView::Cancelled { id: id@, cancelled: true })
        }),
{
}

/// A notice is shown word for word, with its level; what cannot be asked is
/// said so and given up.
pub proof fn notices_are_shown(
    session_id: Seq<char>,
    id: String,
    message: String,
    notify_type: Option<String>,
)
    ensures
        ({
            let req = ExtensionUiRequest::Notify { id, message, notify_type };
            let level = match notify_type {
                Some(l) => l@,
                None => "info"@,
            };
            treatment(session_id, req) matches TreatmentView::Answer { notice, response }
                && response == (ResponseView::Cancelled { id: id@, cancelled: true }) && notice
                == Some(
                TextChunkView {
                    session_id,
                    message_id: None,
                    kind: TextChunkKind::Agent,
                    text: message@,
                    meta: Some(notice_meta(level)),
                },
            )
        }),
{
}

/// The user's choice is the answer: the chosen value, or whether it was
/// confirmed; no choice cancels.
pub proof fn the_choice_is_the_answer(req: ExtensionUiRequest, k: nat)
    requires
        k <= usize::MAX,
    ensures
        req matches ExtensionUiRequest::Select { id, options, .. } ==> k < options@.len() ==> told(
            req,
            Some("choice-"@ + text::decimal(k)),
        ) == (ResponseView::Value { id: id@, value: options@[k as int]@ }),
        req matches ExtensionUiRequest::Confirm { id, .. } ==> told(req, Some("yes"@)) == (
        ResponseView::Confirmed { id: id@, confirmed: true }) && told(req, Some("no"@)) == (
        ResponseView::Confirmed { id: id@, confirmed: false }),
{
    choice_ids_read_back(k);
    reveal_strlit("yes");
    reveal_strlit("no");
    assert("yes"@.len() == 3 && "no"@.len() == 2);
}

} // verus!
