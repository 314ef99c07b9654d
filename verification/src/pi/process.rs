//! The conversation with a pi process: one JSON record on a line, both ways.
//!
//! An [`Exchange`] numbers the requests, knows which are not answered yet, and
//! says of every line that pi prints what it is.

use crate::error::AcpxError;
use crate::json;
use crate::json::{Json, JsonView};
use crate::pi::events;
use crate::pi::events::{AssistantMessageEvent, RpcEvent};
use crate::pi::fields;
use crate::pi::resolve::ResolvedPi;
use crate::pi::rpc;
use crate::pi::rpc::{Model, RpcCommand, RpcResponse, RpcSessionState};
use crate::table::Table;
use crate::text;
use vstd::prelude::*;
use vstd::string::*;

verus! {

/// How long pi has to answer a request, in seconds, unless configured.
pub const DEFAULT_RPC_TIMEOUT_SECS: u64 = 30;

/// How long pi has to end after it was asked to, in seconds.
pub const SIGTERM_GRACE_SECS: u64 = 3;

/// How many lines of pi's greeting are kept.
pub const PRELUDE_CAP: usize = 200;

// ---------------------------------------------------------------------------
// Escape sequences
// ---------------------------------------------------------------------------

/// Where a control sequence ends whose parameters begin at `i`.
pub open spec fn csi_end(s: Seq<char>, i: int) -> int
    decreases s.len() - i,
{
    if 0 <= i < s.len() {
        if '\u{40}' <= s[i] <= '\u{7e}' {
            i + 1
        } else {
            csi_end(s, i + 1)
        }
    } else {
        s.len() as int
    }
}

/// Where a system command ends whose text begins at `i`: behind a bell, or
/// behind the character that follows an escape.
pub open spec fn osc_end(s: Seq<char>, i: int) -> int
    decreases s.len() - i,
{
    if 0 <= i < s.len() {
        if s[i] == '\u{07}' {
            i + 1
        } else if s[i] == '\u{1b}' {
            if i + 2 <= s.len() {
                i + 2
            } else {
                s.len() as int
            }
        } else {
            osc_end(s, i + 1)
        }
    } else {
        s.len() as int
    }
}

/// Where the escape sequence ends that begins at `i`; `i` itself when none
/// does.
pub open spec fn escape_end(s: Seq<char>, i: int) -> int {
    if s[i] == '\u{1b}' {
        if i + 1 < s.len() && s[i + 1] == '[' {
            csi_end(s, i + 2)
        } else if i + 1 < s.len() && s[i + 1] == ']' {
            osc_end(s, i + 2)
        } else if i + 2 <= s.len() {
            i + 2
        } else {
            s.len() as int
        }
    } else if s[i] == '\u{9b}' {
        csi_end(s, i + 1)
    } else {
        i
    }
}

/// What is left of a text from `i` on without escape sequences.
pub open spec fn unescaped(s: Seq<char>, i: int) -> Seq<char>
    decreases s.len() - i,
{
    if 0 <= i < s.len() {
        let end = escape_end(s, i);
        if i < end <= s.len() {
            unescaped(s, end)
        } else {
            seq![s[i]] + unescaped(s, i + 1)
        }
    } else {
        Seq::empty()
    }
}

fn find_csi_end(s: &Vec<char>, from: usize) -> (r: usize)
    requires
        from <= s@.len(),
    ensures
        from <= r <= s@.len(),
        r == csi_end(s@, from as int),
{
    let mut i: usize = from;
    while i < s.len()
        invariant
            from <= i <= s@.len(),
            csi_end(s@, from as int) == csi_end(s@, i as int),
        decreases s.len() - i,
    {
        if '\u{40}' <= s[i] && s[i] <= '\u{7e}' {
            return i + 1;
        }
        i += 1;
    }
    i
}

fn find_osc_end(s: &Vec<char>, from: usize) -> (r: usize)
    requires
        from <= s@.len(),
    ensures
        from <= r <= s@.len(),
        r == osc_end(s@, from as int),
{
    let n: usize = s.len();
    let mut i: usize = from;
    while i < n
        invariant
            from <= i <= n == s@.len(),
            osc_end(s@, from as int) == osc_end(s@, i as int),
        decreases n - i,
    {
        if s[i] == '\u{07}' {
            return i + 1;
        }
        if s[i] == '\u{1b}' {
            return if n - i >= 2 {
                i + 2
            } else {
                n
            };
        }
        i += 1;
    }
    i
}

fn find_escape_end(s: &Vec<char>, i: usize) -> (r: usize)
    requires
        i < s@.len(),
    ensures
        i <= r <= s@.len(),
        r == escape_end(s@, i as int),
{
    let n: usize = s.len();
    if s[i] == '\u{1b}' {
        if n - i > 1 && s[i + 1] == '[' {
            find_csi_end(s, i + 2)
        } else if n - i > 1 && s[i + 1] == ']' {
            find_osc_end(s, i + 2)
        } else if n - i >= 2 {
            i + 2
        } else {
            n
        }
    } else if s[i] == '\u{9b}' {
        find_csi_end(s, i + 1)
    } else {
        i
    }
}

/// Remove the escape sequences from a text.
pub fn strip_ansi(input: &str) -> (r: String)
    ensures
        r@ == unescaped(input@, 0),
{
    let cs = text::chars_of(input);
    let mut r = String::new();
    let mut i: usize = 0;
    assert(r@ + unescaped(input@, 0) =~= unescaped(input@, 0));
    while i < cs.len()
        invariant
            i <= cs@.len(),
            cs@ == input@,
            unescaped(input@, 0) == r@ + unescaped(input@, i as int),
        decreases cs@.len() - i,
    {
        let end: usize = find_escape_end(&cs, i);
        if end > i {
            i = end;
        } else {
            let ghost done = r@;
            r.push(cs[i]);
            assert(done + (seq![cs@[i as int]] + unescaped(input@, i + 1)) =~= r@ + unescaped(
                input@,
                i + 1,
            ));
            i += 1;
        }
    }
    assert(r@ + Seq::<char>::empty() =~= r@);
    r
}

/// A text without escapes stays as it is.
pub proof fn plain_text_stays(s: Seq<char>, i: int)
    requires
        0 <= i <= s.len(),
        forall|k: int| 0 <= k < s.len() ==> s[k] != '\u{1b}' && s[k] != '\u{9b}',
    ensures
        unescaped(s, i) == s.skip(i),
    decreases s.len() - i,
{
    if i < s.len() {
        plain_text_stays(s, i + 1);
        assert(seq![s[i]] + s.skip(i + 1) =~= s.skip(i));
    } else {
        assert(s.skip(i) =~= Seq::empty());
    }
}

// ---------------------------------------------------------------------------
// Starting
// ---------------------------------------------------------------------------

/// The arguments that pi is started with.
pub open spec fn launch_args_of(
    prefix: Seq<Seq<char>>,
    session: Option<Seq<char>>,
    extra: Seq<Seq<char>>,
) -> Seq<Seq<char>> {
    let base = prefix + seq!["--mode"@, "rpc"@, "--no-themes"@];
    let chosen = match session {
        Some(p) => base + seq!["--session"@, p],
        None => base,
    };
    chosen + extra
}

/// The arguments that pi is started with.
pub fn launch_args(resolved: &ResolvedPi, session: Option<&str>, extra: &Vec<String>) -> (r: Vec<
    String,
>)
    ensures
        text::texts(r@) == launch_args_of(
            text::texts(resolved.cmd_args@),
            text::opt_str(session),
            text::texts(extra@),
        ),
{
    let mut r = text::clone_texts(&resolved.cmd_args);
    r.push("--mode".to_owned());
    r.push("rpc".to_owned());
    r.push("--no-themes".to_owned());
    assert(text::texts(r@) =~= text::texts(resolved.cmd_args@) + seq![
        "--mode"@,
        "rpc"@,
        "--no-themes"@,
    ]);
    if let Some(p) = session {
        let ghost before = text::texts(r@);
        r.push("--session".to_owned());
        r.push(p.to_owned());
        assert(text::texts(r@) =~= before + seq!["--session"@, p@]);
    }
    let ghost before = r@;
    let mut more = text::clone_texts(extra);
    let ghost added = more@;
    r.append(&mut more);
    assert(r@ =~= before + added);
    assert(text::texts(r@) =~= text::texts(before) + text::texts(added));
    r
}

/// What is told when pi cannot be started: where it was looked for when it is
/// not there, else the system's message.
pub fn spawn_error(pi_command: &str, program: &str, not_found: bool, message: &str) -> (r: String)
    ensures
        r@ == (if not_found {
            "`"@ + pi_command@ + "` not found on PATH (resolved to "@ + program@ + ")"@
        } else {
            pi_command@ + ": "@ + message@
        }),
{
    if not_found {
        text::cat5("`", pi_command, "` not found on PATH (resolved to ", program, ")")
    } else {
        text::cat3(pi_command, ": ", message)
    }
}

// ---------------------------------------------------------------------------
// The exchange
// ---------------------------------------------------------------------------

/// What is known of a conversation with pi.
pub struct Exchange {
    next_id: u64,
    pending: Table<String>,
    exit: Option<(Option<i32>, Option<i32>)>,
    prelude: Vec<String>,
}

/// The model of an [`Exchange`].
pub struct ExchangeView {
    /// The number of the next request.
    pub next_id: u64,
    /// The requests that were not answered, with their commands.
    pub pending: Map<Seq<char>, Seq<char>>,
    /// How pi ended: its exit code and the signal that ended it.
    pub exit: Option<(Option<i32>, Option<i32>)>,
    /// pi's greeting.
    pub prelude: Seq<Seq<char>>,
}

impl View for Exchange {
    type V = ExchangeView;

    closed spec fn view(&self) -> ExchangeView {
        ExchangeView {
            next_id: self.next_id,
            pending: self.pending@,
            exit: self.exit,
            prelude: text::texts(self.prelude@),
        }
    }
}

/// What a line of pi is.
#[derive(Debug)]
pub enum LineOutcome {
    /// Nothing to act on.
    Nothing,
    /// The answer to a request.
    Response {
        /// The request.
        id: String,
        /// The record.
        value: Json,
    },
    /// An event.
    Event(RpcEvent),
}

/// The event that a record is.
pub open spec fn is_event_of(ev: RpcEvent, v: JsonView) -> bool {
    if events::readable_event(v) {
        ev.reads(v)
    } else {
        ev matches RpcEvent::Unknown { raw } && raw@ == v
    }
}

/// Whether a record is an answer.
pub open spec fn is_response(v: JsonView) -> bool {
    json::str_member(v, "type"@) == Some("response"@)
}

impl ExchangeView {
    /// The request that a record answers, when it is not answered yet.
    pub open spec fn answers(self, v: JsonView) -> Option<Seq<char>> {
        match json::str_member(v, "id"@) {
            Some(id) => if is_response(v) && self.pending.dom().contains(id) {
                Some(id)
            } else {
                None
            },
            None => None,
        }
    }

    /// What is known after a record.
    pub open spec fn after(self, v: JsonView) -> ExchangeView {
        match self.answers(v) {
            Some(id) => ExchangeView { pending: self.pending.remove(id), ..self },
            None => self,
        }
    }

    /// What is known after a line that is no record.
    pub open spec fn greeted(self, line: Seq<char>) -> ExchangeView {
        let t = text::trimmed_end(unescaped(line, 0));
        if t.len() > 0 && self.prelude.len() < PRELUDE_CAP {
            ExchangeView { prelude: self.prelude.push(t), ..self }
        } else {
            self
        }
    }

    /// A request is over.
    pub open spec fn forgotten(self, id: Seq<char>) -> ExchangeView {
        ExchangeView { pending: self.pending.remove(id), ..self }
    }
}

/// What a record is taken to be.
pub open spec fn is_outcome_of(r: LineOutcome, p: ExchangeView, v: JsonView) -> bool {
    match p.answers(v) {
        Some(id) => r matches LineOutcome::Response { id: got, value } && got@ == id && value@ == v,
        None => if is_response(v) {
            r matches LineOutcome::Event(RpcEvent::UnmatchedResponse { raw }) && raw@ == v
        } else {
            r matches LineOutcome::Event(ev) && is_event_of(ev, v)
        },
    }
}

/// A request to send.
#[derive(Debug)]
pub struct Outgoing {
    /// Its number, by which it is answered.
    pub id: String,
    /// Its line, without the line feed.
    pub line: String,
}

impl Exchange {
    /// A conversation that begins.
    pub fn new() -> (r: Exchange)
        ensures
            r@ == (ExchangeView {
                next_id: 0,
                pending: Map::empty(),
                exit: None,
                prelude: Seq::empty(),
            }),
    {
        let r = Exchange { next_id: 0, pending: Table::new(), exit: None, prelude: Vec::new() };
        assert(r@.prelude =~= Seq::empty());
        r
    }

    /// Whether requests can still be numbered.
    pub fn has_room(&self) -> (r: bool)
        ensures
            r == (self@.next_id < u64::MAX),
    {
        self.next_id < u64::MAX
    }

    /// How pi ended.
    pub fn exit_status(&self) -> (r: Option<(Option<i32>, Option<i32>)>)
        ensures
            r == self@.exit,
    {
        self.exit
    }

    /// Whether pi ended.
    pub fn is_dead(&self) -> (r: bool)
        ensures
            r == (self@.exit is Some),
    {
        self.exit.is_some()
    }

    /// Begin a request. When pi ended there is none: that is told at once.
    pub fn begin(&mut self, command: &RpcCommand) -> (r: Result<Outgoing, AcpxError>)
        requires
            old(self)@.next_id < u64::MAX,
        ensures
            match old(self)@.exit {
                Some((code, signal)) => {
                    &&& final(self)@ == old(self)@
                    &&& r matches Err(e) && e@ == (AcpxError::<Seq<char>>::PiExited {
                        code,
                        signal,
                    })
                },
                None => {
                    let id = text::decimal(old(self)@.next_id as nat);
                    let record = JsonView::Object(
                        json::put(command.members(), "id"@, JsonView::Str(id)),
                    );
                    let next = (old(self)@.next_id + 1) as u64;
                    &&& r matches Ok(o) && o.id@ == id && o.line@ == json::compact_json(record)
                        && json::reads_as(o.line@, record) && !o.line@.contains('\n')
                    &&& final(self)@ == (ExchangeView {
                        next_id: next,
                        pending: old(self)@.pending.insert(id, command.name_view()),
                        ..old(self)@
                    })
                },
            },
    {
        if let Some((code, signal)) = self.exit {
            return Err(AcpxError::PiExited { code, signal });
        }
        let id = text::decimal_text(self.next_id);
        self.next_id = self.next_id + 1;
        let line = command.to_line(id.as_str());
        self.pending.set(id.as_str(), command.name().to_owned());
        Ok(Outgoing { id, line })
    }

    /// A request could not be sent.
    pub fn unsent(&mut self, id: &str)
        ensures
            final(self)@ == old(self)@.forgotten(id@),
    {
        self.pending.remove(id);
    }

    /// A request was not answered in time. A later answer is an event.
    pub fn expired(&mut self, id: &str, command: &RpcCommand, secs: u64) -> (r: AcpxError)
        ensures
            final(self)@ == old(self)@.forgotten(id@),
            r@ == (AcpxError::<Seq<char>>::RpcTimeout { cmd: command.name_view(), secs }),
    {
        self.pending.remove(id);
        AcpxError::RpcTimeout { cmd: command.name().to_owned(), secs }
    }

    /// A request can no longer be answered.
    pub fn abandoned(&mut self, id: &str) -> (r: AcpxError)
        ensures
            final(self)@ == old(self)@.forgotten(id@),
            r@ == (AcpxError::<Seq<char>>::PiExited { code: None, signal: None }),
    {
        self.pending.remove(id);
        AcpxError::PiExited { code: None, signal: None }
    }

    /// pi ended: no request will be answered.
    pub fn ended(&mut self, code: Option<i32>, signal: Option<i32>) -> (r: AcpxError)
        ensures
            final(self)@ == (ExchangeView {
                pending: Map::empty(),
                exit: Some((code, signal)),
                ..old(self)@
            }),
            r@ == (AcpxError::<Seq<char>>::PiExited { code, signal }),
    {
        self.pending = Table::new();
        self.exit = Some((code, signal));
        AcpxError::PiExited { code, signal }
    }

    /// Take in a line that is no record.
    fn greet(&mut self, line: &str)
        ensures
            final(self)@ == old(self)@.greeted(line@),
    {
        let plain = strip_ansi(line);
        let t = text::trim_end(plain.as_str());
        if t.unicode_len() > 0 && self.prelude.len() < PRELUDE_CAP {
            let owned = t.to_owned();
            let ghost before = text::texts(self.prelude@);
            self.prelude.push(owned);
            assert(text::texts(self.prelude@) =~= before.push(owned@));
        }
    }

    /// Take in a record.
    pub fn on_record(&mut self, value: Json) -> (r: LineOutcome)
        ensures
            final(self)@ == old(self)@.after(value@),
            is_outcome_of(r, old(self)@, value@),
    {
        let is_answer = match value.get_str("type") {
            Some(t) => text::same(t, "response"),
            None => false,
        };
        if is_answer {
            let id = match value.get_str("id") {
                Some(i) => match self.pending.get(i) {
                    Some(_) => Some(i.to_owned()),
                    None => None,
                },
                None => None,
            };
            return match id {
                Some(i) => {
                    self.pending.remove(i.as_str());
                    LineOutcome::Response { id: i, value }
                },
                None => LineOutcome::Event(RpcEvent::UnmatchedResponse { raw: value }),
            };
        }
        match RpcEvent::from_json(&value) {
            Some(ev) => LineOutcome::Event(ev),
            None => LineOutcome::Event(RpcEvent::Unknown { raw: value }),
        }
    }

    /// Take in a line of pi.
    pub fn on_line(&mut self, line: &str) -> (r: LineOutcome)
        ensures
            ({
                let t = text::trimmed(line@);
                if t.len() == 0 {
                    final(self)@ == old(self)@ && r is Nothing
                } else {
                    match json::json_in(t) {
                        Some(v) => final(self)@ == old(self)@.after(v) && is_outcome_of(
                            r,
                            old(self)@,
                            v,
                        ),
                        None => final(self)@ == old(self)@.greeted(t) && r is Nothing,
                    }
                }
            }),
    {
        let t = text::trim(line);
        if t.unicode_len() == 0 {
            return LineOutcome::Nothing;
        }
        match json::parse(t) {
            Some(v) => self.on_record(v),
            None => {
                self.greet(t);
                LineOutcome::Nothing
            },
        }
    }

    /// Take pi's greeting.
    pub fn consume_prelude_lines(&mut self) -> (r: Vec<String>)
        ensures
            text::texts(r@) == old(self)@.prelude,
            final(self)@ == (ExchangeView { prelude: Seq::empty(), ..old(self)@ }),
    {
        let mut r: Vec<String> = Vec::new();
        std::mem::swap(&mut r, &mut self.prelude);
        assert(self@.prelude =~= Seq::empty());
        r
    }
}

/// What a record answers: its data, or the failure. `refusal` is what the JSON
/// reader says of a record of another shape.
pub fn answer_of(value: &Json, refusal: &str) -> (r: Result<Json, AcpxError>)
    ensures
        match r {
            Ok(d) => {
                &&& rpc::readable_response(value@)
                &&& json::bool_member(rpc::response_record(value@), "success"@) == Some(true)
                &&& d@ == (match fields::optional_value(rpc::response_record(value@), "data"@) {
                    Some(y) => y,
                    None => JsonView::Null,
                })
            },
            Err(e) => if rpc::readable_response(value@) {
                &&& json::bool_member(rpc::response_record(value@), "success"@) == Some(false)
                &&& e@ == (AcpxError::<Seq<char>>::RpcFailed {
                    command: json::str_member(rpc::response_record(value@), "command"@)->0,
                    message: match fields::optional_text(rpc::response_record(value@), "error"@)->0 {
                        Some(m) => m,
                        None => "no error message"@,
                    },
                })
            } else {
                e@ == AcpxError::<Seq<char>>::Json(refusal@)
            },
        },
{
    match RpcResponse::from_json(value) {
        Some(x) => x.ok(),
        None => Err(AcpxError::Json(refusal.to_owned())),
    }
}

/// The state of the session in the answer to a request for it. `refusal` is what
/// the JSON reader says of a record of another shape.
pub fn state_of(data: &Json, refusal: &str) -> (r: Result<RpcSessionState, AcpxError>)
    ensures
        match r {
            Ok(s) => rpc::readable_state(data@) && s.reads(data@),
            Err(e) => !rpc::readable_state(data@) && e@ == AcpxError::<Seq<char>>::Json(refusal@),
        },
{
    match RpcSessionState::from_json(data) {
        Some(s) => Ok(s),
        None => Err(AcpxError::Json(refusal.to_owned())),
    }
}

/// The model in the answer to a change of the model. `refusal` is what the JSON
/// reader says of a record of another shape.
pub fn model_of(data: &Json, refusal: &str) -> (r: Result<Model, AcpxError>)
    ensures
        match r {
            Ok(m) => rpc::readable_model(data@) && m.reads(data@),
            Err(e) => !rpc::readable_model(data@) && e@ == AcpxError::<Seq<char>>::Json(refusal@),
        },
{
    match Model::from_json(data) {
        Some(m) => Ok(m),
        None => Err(AcpxError::Json(refusal.to_owned())),
    }
}

/// The file in the answer to an export.
pub fn exported_path(data: &Json) -> (r: Result<String, AcpxError>)
    ensures
        match r {
            Ok(p) => json::str_member(data@, "path"@) == Some(p@),
            Err(e) => json::str_member(data@, "path"@) is None && e@ == (AcpxError::<
                Seq<char>,
            >::RpcFailed {
                command: "export_html"@,
                message: "response missing data.path"@,
            }),
        },
{
    match data.get_str("path") {
        Some(p) => Ok(p.to_owned()),
        None => Err(
            AcpxError::RpcFailed {
                command: "export_html".to_owned(),
                message: "response missing data.path".to_owned(),
            },
        ),
    }
}

/// Whether a turn is over once an event has come, or the stream has ended: it
/// is with pi's event for it, and fails when pi is gone before. The exit is
/// pi's, when it is known.
pub fn turn_over(event: Option<&RpcEvent>, exit: Option<(Option<i32>, Option<i32>)>) -> (r: Option<
    Result<(), AcpxError>,
>)
    ensures
        match r {
            Some(Ok(())) => event is Some && event->0 is AgentSettled,
            Some(Err(e)) => event is None && e@ == (AcpxError::<Seq<char>>::PiExited {
                code: match exit {
                    Some(x) => x.0,
                    None => None,
                },
                signal: match exit {
                    Some(x) => x.1,
                    None => None,
                },
            }),
            None => event is Some && !(event->0 is AgentSettled),
        },
{
    match event {
        Some(ev) => match ev {
            RpcEvent::AgentSettled => Some(Ok(())),
            _ => None,
        },
        None => {
            let (code, signal) = match exit {
                Some(x) => x,
                None => (None, None),
            };
            Some(Err(AcpxError::PiExited { code, signal }))
        },
    }
}

/// The text that an event adds to the answer.
pub fn text_delta_of<'a>(event: &'a RpcEvent) -> (r: Option<&'a str>)
    ensures
        text::opt_str(r) == (match event {
            RpcEvent::MessageUpdate { assistant_message_event, .. } =>
                match assistant_message_event {
                    AssistantMessageEvent::TextDelta { delta, .. } => Some(delta@),
                    _ => None,
                },
            _ => None,
        }),
{
    match event {
        RpcEvent::MessageUpdate { assistant_message_event, .. } =>
            assistant_message_event.text_delta(),
        _ => None,
    }
}

// ---------------------------------------------------------------------------
// Laws
// ---------------------------------------------------------------------------

/// A request is answered at most once: the same record answers nothing later.
pub proof fn a_request_is_answered_once(p: ExchangeView, v: JsonView)
    ensures
        p.after(v).answers(v) is None,
{
}

/// A request that expired is not answered any more.
pub proof fn an_expired_request_stays_unanswered(p: ExchangeView, id: Seq<char>, v: JsonView)
    ensures
        p.forgotten(id).answers(v) != Some(id),
{
}

/// A record that answers one request leaves the others open.
pub proof fn other_requests_stay_open(p: ExchangeView, v: JsonView, other: Seq<char>)
    requires
        p.answers(v) != Some(other),
        p.pending.dom().contains(other),
    ensures
        p.after(v).pending.dom().contains(other),
{
}

/// Requests have different numbers.
pub proof fn request_ids_are_fresh(a: nat, b: nat)
    ensures
        text::decimal(a) == text::decimal(b) ==> a == b,
{
    text::decimal_reads_back(a);
    text::decimal_reads_back(b);
}

/// pi is started in its protocol mode, on the session it is to continue, with
/// the extra arguments last and in order.
pub proof fn pi_is_started_as_asked(
    prefix: Seq<Seq<char>>,
    session: Option<Seq<char>>,
    extra: Seq<Seq<char>>,
)
    ensures
        ({
            let args = launch_args_of(prefix, session, extra);
            &&& prefix.is_prefix_of(args)
            &&& args[prefix.len() as int] == "--mode"@
            &&& args[prefix.len() as int + 1] == "rpc"@
            &&& args.contains("--no-themes"@)
            &&& session matches Some(s) ==> args[prefix.len() as int + 3] == "--session"@
                && args[prefix.len() as int + 4] == s && args.len() == prefix.len() + 5
                + extra.len()
            &&& session is None ==> args.len() == prefix.len() + 3 + extra.len()
            &&& args.skip(args.len() - extra.len()) == extra
        }),
{
    let args = launch_args_of(prefix, session, extra);
    assert(args[prefix.len() as int + 2] == "--no-themes"@);
    assert(args.skip(args.len() - extra.len()) =~= extra);
}

/// An answer goes to the request that bears its id, while that is open; it
/// closes that request and no other.
pub proof fn answers_find_their_request(p: ExchangeView, v: JsonView, id: Seq<char>)
    requires
        json::member(v, "type"@) == Some(JsonView::Str("response"@)),
        json::member(v, "id"@) == Some(JsonView::Str(id)),
    ensures
        p.pending.dom().contains(id) ==> p.answers(v) == Some(id) && !p.after(
            v,
        ).pending.dom().contains(id),
        !p.pending.dom().contains(id) ==> p.answers(v) is None && p.after(v) == p,
{
}

/// What is no answer closes no request.
pub proof fn events_close_no_request(p: ExchangeView, v: JsonView)
    requires
        json::member(v, "type"@) != Some(JsonView::Str("response"@)),
    ensures
        p.answers(v) is None,
        p.after(v) == p,
{
}

/// What pi prints before it speaks the protocol is kept line by line, without
/// escapes and blanks at the end, up to two hundred lines.
pub proof fn early_lines_are_kept(p: ExchangeView, line: Seq<char>)
    requires
        forall|k: int| 0 <= k < line.len() ==> line[k] != '\u{1b}' && line[k] != '\u{9b}',
        text::trimmed(line) == line,
        line.len() > 0,
    ensures
        p.prelude.len() < 200 ==> p.greeted(line).prelude == p.prelude.push(line),
        p.prelude.len() >= 200 ==> p.greeted(line) == p,
        p.greeted(line).pending == p.pending,
{
    plain_text_stays(line, 0);
    assert(line.skip(0) =~= line);
    text::trimming_cuts_only_blanks(line);
    assert(!text::is_white(line.last()));
    assert(text::trimmed_end(line) == line);
}

proof fn csi_ends(s: Seq<char>, i: int, e: int)
    requires
        0 <= i <= e < s.len(),
        forall|j: int| i <= j < e ==> !('\u{40}' <= #[trigger] s[j] <= '\u{7e}'),
        '\u{40}' <= s[e] <= '\u{7e}',
    ensures
        csi_end(s, i) == e + 1,
    decreases e - i,
{
    if i < e {
        assert(!('\u{40}' <= s[i] <= '\u{7e}'));
        csi_ends(s, i + 1, e);
    }
}

/// A color is taken out of a text, and what stands round it stays.
pub proof fn colors_are_taken_out(
    front: Seq<char>,
    parameters: Seq<char>,
    last: char,
    rest: Seq<char>,
)
    requires
        forall|k: int| 0 <= k < front.len() ==> #[trigger] front[k] != '\u{1b}' && front[k]
            != '\u{9b}',
        forall|k: int|
            0 <= k < parameters.len() ==> !('\u{40}' <= #[trigger] parameters[k] <= '\u{7e}'),
        '\u{40}' <= last <= '\u{7e}',
        forall|k: int| 0 <= k < rest.len() ==> #[trigger] rest[k] != '\u{1b}' && rest[k]
            != '\u{9b}',
    ensures
        unescaped(
            front + seq!['\u{1b}', '['] + parameters + seq![last] + rest,
            0,
        ) == front + rest,
{
    let s = front + seq!['\u{1b}', '['] + parameters + seq![last] + rest;
    let n = front.len() as int;
    let e = n + 2 + parameters.len();
    assert forall|j: int| n + 2 <= j < e implies !('\u{40}' <= #[trigger] s[j] <= '\u{7e}') by {
        assert(s[j] == parameters[j - n - 2]);
    }
    csi_ends(s, n + 2, e);
    assert forall|k: int| e + 1 <= k < s.len() implies s[k] != '\u{1b}' && s[k] != '\u{9b}' by {
        assert(s[k] == rest[k - e - 1]);
    }
    tail_stays(s, e + 1);
    assert(s.skip(e + 1) =~= rest);
    assert(unescaped(s, n) == rest);
    assert forall|k: int| 0 <= k < n implies s[k] != '\u{1b}' && s[k] != '\u{9b}' by {
        assert(s[k] == front[k]);
    }
    head_stays(s, 0, n);
    assert(s.subrange(0, n) =~= front);
}

proof fn tail_stays(s: Seq<char>, i: int)
    requires
        0 <= i <= s.len(),
        forall|k: int| i <= k < s.len() ==> s[k] != '\u{1b}' && s[k] != '\u{9b}',
    ensures
        unescaped(s, i) == s.skip(i),
    decreases s.len() - i,
{
    if i < s.len() {
        tail_stays(s, i + 1);
        assert(seq![s[i]] + s.skip(i + 1) =~= s.skip(i));
    } else {
        assert(s.skip(i) =~= Seq::<char>::empty());
    }
}

proof fn head_stays(s: Seq<char>, i: int, n: int)
    requires
        0 <= i <= n <= s.len(),
        forall|k: int| i <= k < n ==> s[k] != '\u{1b}' && s[k] != '\u{9b}',
    ensures
        unescaped(s, i) == s.subrange(i, n) + unescaped(s, n),
    decreases n - i,
{
    if i < n {
        head_stays(s, i + 1, n);
        assert(seq![s[i]] + (s.subrange(i + 1, n) + unescaped(s, n)) =~= s.subrange(i, n)
            + unescaped(s, n));
    } else {
        assert(s.subrange(i, n) + unescaped(s, n) =~= unescaped(s, n));
    }
}

} // verus!
