//! pi's session files: one file for a session, one JSON value on a line.
//!
//! The first line is the session's header. A later line may name the session;
//! every message has a line with its time.

use crate::json;
use crate::json::{Json, JsonView};
use crate::path;
use crate::text;
use crate::time;
use crate::translate::bash;
use vstd::prelude::*;
use vstd::string::*;

verus! {

/// How much of the end of a file is read for its title and its time, in bytes.
pub const TAIL_BYTES: u64 = 262_144;

/// How much of the beginning of a file is read for its first line, in bytes.
pub const HEAD_BYTES: usize = 65_536;

/// How many lines are searched for the first message of the user.
pub const TITLE_LINES: usize = 2_000;

/// How long a title made of a message is, in characters.
pub const TITLE_CHARS: usize = 80;

// ---------------------------------------------------------------------------
// Lines
// ---------------------------------------------------------------------------

/// The JSON value on a line.
pub open spec fn value_in(line: Seq<char>) -> Option<JsonView> {
    let t = text::trimmed(line);
    if t.len() == 0 {
        None
    } else {
        json::json_in(t)
    }
}

/// The JSON values on lines; a line without one is skipped.
pub open spec fn values_in(lines: Seq<Seq<char>>) -> Seq<JsonView>
    decreases lines.len(),
{
    if lines.len() == 0 {
        Seq::empty()
    } else {
        match value_in(lines.last()) {
            Some(v) => values_in(lines.drop_last()).push(v),
            None => values_in(lines.drop_last()),
        }
    }
}

fn read_values(lines: &Vec<String>, limit: usize) -> (r: Vec<Json>)
    requires
        limit <= lines@.len(),
    ensures
        json::items_view(r@) == values_in(text::texts(lines@).take(limit as int)),
{
    let ghost model = text::texts(lines@);
    let mut r: Vec<Json> = Vec::new();
    let mut i: usize = 0;
    assert(model.take(0) =~= Seq::empty());
    assert(json::items_view(r@) =~= Seq::empty());
    while i < limit
        invariant
            i <= limit <= lines@.len(),
            model == text::texts(lines@),
            json::items_view(r@) == values_in(model.take(i as int)),
        decreases limit - i,
    {
        proof {
            assert(model.take(i + 1).drop_last() =~= model.take(i as int));
            assert(model.take(i + 1).last() == lines@[i as int]@);
        }
        let t = text::trim(lines[i].as_str());
        if t.unicode_len() > 0 {
            if let Some(v) = json::parse(t) {
                let ghost before = json::items_view(r@);
                r.push(v);
                assert(json::items_view(r@) =~= before.push(v@));
            }
        }
        i += 1;
    }
    r
}

/// The JSON values of a text.
fn values_of(s: &str) -> (r: Vec<Json>)
    ensures
        json::items_view(r@) == values_in(text::lines_of(s@)),
{
    let lines = text::lines(s);
    assert(text::texts(lines@).take(lines@.len() as int) =~= text::texts(lines@));
    read_values(&lines, lines.len())
}

/// The first line of a text.
pub open spec fn first_line(head: Seq<char>) -> Option<Seq<char>> {
    let lines = text::lines_of(head);
    let t = if lines.len() == 0 {
        Seq::empty()
    } else {
        text::trimmed(lines[0])
    };
    if t.len() == 0 {
        None
    } else {
        Some(t)
    }
}

/// The first line of a file, given its beginning; `None` when it is blank.
pub fn read_first_line(head: &str) -> (r: Option<String>)
    ensures
        text::opt_text(r) == first_line(head@),
{
    let lines = text::lines(head);
    if lines.len() == 0 {
        return None;
    }
    assert(text::texts(lines@)[0] == lines@[0]@);
    let t = text::trim(lines[0].as_str());
    if t.unicode_len() == 0 {
        None
    } else {
        Some(t.to_owned())
    }
}

// ---------------------------------------------------------------------------
// Headers
// ---------------------------------------------------------------------------

/// The session and the working directory that a header names.
pub open spec fn header_of(v: JsonView) -> Option<(Seq<char>, Seq<char>)> {
    match (json::str_member(v, "id"@), json::str_member(v, "cwd"@)) {
        (Some(id), Some(cwd)) => if json::str_member(v, "type"@) == Some("session"@) && id.len() > 0
            && cwd.len() > 0 {
            Some((id, cwd))
        } else {
            None
        },
        _ => None,
    }
}

/// The header on a line.
pub open spec fn header_in(line: Seq<char>) -> Option<(Seq<char>, Seq<char>)> {
    match json::json_in(line) {
        Some(v) => header_of(v),
        None => None,
    }
}

/// The model of an optional pair of texts.
pub open spec fn pair_view(o: Option<(String, String)>) -> Option<(Seq<char>, Seq<char>)> {
    match o {
        Some(p) => Some((p.0@, p.1@)),
        None => None,
    }
}

/// Whether the member `type` of a value is `kind`.
fn is_of_type(v: &Json, kind: &str) -> (r: bool)
    ensures
        r == (json::str_member(v@, "type"@) == Some(kind@)),
{
    match v.get_str("type") {
        Some(t) => text::same(t, kind),
        None => false,
    }
}

/// Read a header.
pub fn header_from(v: &Json) -> (r: Option<(String, String)>)
    ensures
        pair_view(r) == header_of(v@),
{
    let id = v.get_str("id");
    let cwd = v.get_str("cwd");
    match (id, cwd) {
        (Some(id), Some(cwd)) => {
            if is_of_type(v, "session") && id.unicode_len() > 0 && cwd.unicode_len() > 0 {
                Some((id.to_owned(), cwd.to_owned()))
            } else {
                None
            }
        },
        _ => None,
    }
}

/// Read the header of a session from the first line of its file.
pub fn parse_session_header(first_line: &str) -> (r: Option<(String, String)>)
    ensures
        pair_view(r) == header_in(first_line@),
{
    match json::parse(first_line) {
        Some(v) => header_from(&v),
        None => None,
    }
}

// ---------------------------------------------------------------------------
// Titles
// ---------------------------------------------------------------------------

/// The name that an entry gives to its session.
pub open spec fn name_of(v: JsonView) -> Option<Seq<char>> {
    match json::str_member(v, "name"@) {
        Some(n) => if json::str_member(v, "type"@) == Some("session_info"@) && text::trimmed(
            n,
        ).len() > 0 {
            Some(text::trimmed(n))
        } else {
            None
        },
        None => None,
    }
}

/// The last name that entries give to their session.
pub open spec fn last_name(values: Seq<JsonView>) -> Option<Seq<char>>
    decreases values.len(),
{
    if values.len() == 0 {
        None
    } else {
        bash::either(name_of(values.last()), last_name(values.drop_last()))
    }
}

fn read_name(v: &Json) -> (r: Option<String>)
    ensures
        text::opt_text(r) == name_of(v@),
{
    match v.get_str("name") {
        Some(n) => {
            let t = text::trim(n);
            if is_of_type(v, "session_info") && t.unicode_len() > 0 {
                Some(t.to_owned())
            } else {
                None
            }
        },
        None => None,
    }
}

/// The last name that entries give to their session.
pub fn latest_name(values: &Vec<Json>) -> (r: Option<String>)
    ensures
        text::opt_text(r) == last_name(json::items_view(values@)),
{
    let ghost model = json::items_view(values@);
    let mut i: usize = values.len();
    assert(model.take(i as int) =~= model);
    while i > 0
        invariant
            i <= values@.len(),
            model == json::items_view(values@),
            last_name(model) == last_name(model.take(i as int)),
        decreases i,
    {
        i -= 1;
        proof {
            assert(model.take(i + 1).drop_last() =~= model.take(i as int));
            assert(model.take(i + 1).last() == values@[i as int]@);
        }
        if let Some(n) = read_name(&values[i]) {
            return Some(n);
        }
    }
    None
}

/// The session's name, as the end of its file has it.
pub fn pick_title_from_tail(tail: &str) -> (r: Option<String>)
    ensures
        text::opt_text(r) == last_name(values_in(text::lines_of(tail@))),
{
    let values = values_of(tail);
    latest_name(&values)
}

/// The text of the first text block.
pub open spec fn first_block_text(items: Seq<JsonView>) -> Seq<char>
    decreases items.len(),
{
    if items.len() == 0 {
        Seq::empty()
    } else if json::str_member(items[0], "type"@) == Some("text"@) {
        match json::str_member(items[0], "text"@) {
            Some(t) => t,
            None => Seq::empty(),
        }
    } else {
        first_block_text(items.skip(1))
    }
}

/// The text of a message of the user; empty for other entries.
pub open spec fn user_text(v: JsonView) -> Seq<char> {
    match json::member(v, "message"@) {
        Some(m) => if json::str_member(v, "type"@) == Some("message"@) && json::str_member(
            m,
            "role"@,
        ) == Some("user"@) {
            match json::member(m, "content"@) {
                Some(JsonView::Str(s)) => s,
                Some(JsonView::Array(items)) => first_block_text(items),
                _ => Seq::empty(),
            }
        } else {
            Seq::empty()
        },
        None => Seq::empty(),
    }
}

/// The beginning of the first message of the user that has a text.
pub open spec fn first_user_text(values: Seq<JsonView>) -> Option<Seq<char>>
    decreases values.len(),
{
    if values.len() == 0 {
        None
    } else if user_text(values[0]).len() > 0 {
        Some(text::head(user_text(values[0]), TITLE_CHARS as nat))
    } else {
        first_user_text(values.skip(1))
    }
}

fn read_first_block_text(items: &Vec<Json>) -> (r: String)
    ensures
        r@ == first_block_text(json::items_view(items@)),
{
    let ghost model = json::items_view(items@);
    let mut i: usize = 0;
    assert(model.skip(0) =~= model);
    while i < items.len()
        invariant
            i <= items@.len(),
            model == json::items_view(items@),
            first_block_text(model) == first_block_text(model.skip(i as int)),
        decreases items.len() - i,
    {
        assert(model.skip(i as int)[0] == items@[i as int]@);
        if is_of_type(&items[i], "text") {
            return match items[i].get_str("text") {
                Some(t) => t.to_owned(),
                None => String::new(),
            };
        }
        assert(model.skip(i as int).skip(1) =~= model.skip(i + 1));
        i += 1;
    }
    String::new()
}

fn read_user_text(v: &Json) -> (r: String)
    ensures
        r@ == user_text(v@),
{
    broadcast use json::json_view;

    match v.get("message") {
        Some(m) => {
            let by_user = match m.get_str("role") {
                Some(t) => text::same(t, "user"),
                None => false,
            };
            if is_of_type(v, "message") && by_user {
                match m.get("content") {
                    Some(Json::Str(s)) => s.clone(),
                    Some(Json::Array(items)) => read_first_block_text(items),
                    _ => String::new(),
                }
            } else {
                String::new()
            }
        },
        None => String::new(),
    }
}

/// The beginning of the first message of the user that has a text.
pub fn first_user_message(values: &Vec<Json>) -> (r: Option<String>)
    ensures
        text::opt_text(r) == first_user_text(json::items_view(values@)),
{
    let ghost model = json::items_view(values@);
    let mut i: usize = 0;
    assert(model.skip(0) =~= model);
    while i < values.len()
        invariant
            i <= values@.len(),
            model == json::items_view(values@),
            first_user_text(model) == first_user_text(model.skip(i as int)),
        decreases values.len() - i,
    {
        assert(model.skip(i as int)[0] == values@[i as int]@);
        let t = read_user_text(&values[i]);
        if t.as_str().unicode_len() > 0 {
            return Some(text::take_chars(t.as_str(), TITLE_CHARS).to_owned());
        }
        assert(model.skip(i as int).skip(1) =~= model.skip(i + 1));
        i += 1;
    }
    None
}

/// The values on the first lines of a text.
pub open spec fn early_values(raw: Seq<char>) -> Seq<JsonView> {
    let lines = text::lines_of(raw);
    values_in(
        lines.take(
            if lines.len() > TITLE_LINES {
                TITLE_LINES as int
            } else {
                lines.len() as int
            },
        ),
    )
}

/// A title made of the first message of the user, given the whole file.
pub fn pick_fallback_title_from_head(raw: &str) -> (r: Option<String>)
    ensures
        text::opt_text(r) == first_user_text(early_values(raw@)),
{
    let lines = text::lines(raw);
    let n: usize = if lines.len() > TITLE_LINES {
        TITLE_LINES
    } else {
        lines.len()
    };
    let values = read_values(&lines, n);
    first_user_message(&values)
}

/// The title of a session, given the end of its file and the whole file: the
/// last name it was given, else the beginning of the user's first message.
pub open spec fn title_of(tail: Option<Seq<char>>, raw: Option<Seq<char>>) -> Option<Seq<char>> {
    bash::either(
        match tail {
            Some(t) => last_name(values_in(text::lines_of(t))),
            None => None,
        },
        match raw {
            Some(t) => bash::either(
                last_name(values_in(text::lines_of(t))),
                first_user_text(early_values(t)),
            ),
            None => None,
        },
    )
}

/// The title of a session, given the end of its file and the whole file.
pub fn title_from_session_file(tail: Option<&str>, raw: Option<&str>) -> (r: Option<String>)
    ensures
        text::opt_text(r) == title_of(text::opt_str(tail), text::opt_str(raw)),
{
    if let Some(t) = tail {
        if let Some(n) = pick_title_from_tail(t) {
            return Some(n);
        }
    }
    match raw {
        Some(t) => {
            if let Some(n) = pick_title_from_tail(t) {
                return Some(n);
            }
            pick_fallback_title_from_head(t)
        },
        None => None,
    }
}

// ---------------------------------------------------------------------------
// Times
// ---------------------------------------------------------------------------

/// The time of an entry, when it is one that counts.
pub open spec fn stamp_of(v: JsonView, messages_only: bool) -> Option<Seq<char>> {
    match json::str_member(v, "timestamp"@) {
        Some(t) => if messages_only && json::str_member(v, "type"@) != Some("message"@) {
            None
        } else {
            time::normalized(t)
        },
        None => None,
    }
}

/// The time of the last entry that has one and counts.
pub open spec fn last_stamp(values: Seq<JsonView>, messages_only: bool) -> Option<Seq<char>>
    decreases values.len(),
{
    if values.len() == 0 {
        None
    } else {
        bash::either(
            stamp_of(values.last(), messages_only),
            last_stamp(values.drop_last(), messages_only),
        )
    }
}

/// When a session was last active: the time of its last message, else of its
/// last entry.
pub open spec fn activity(values: Seq<JsonView>) -> Option<Seq<char>> {
    bash::either(last_stamp(values, true), last_stamp(values, false))
}

fn read_stamp(v: &Json, messages_only: bool) -> (r: Option<String>)
    ensures
        text::opt_text(r) == stamp_of(v@, messages_only),
{
    match v.get_str("timestamp") {
        Some(t) => {
            if messages_only && !is_of_type(v, "message") {
                None
            } else {
                time::normalize_timestamp(t)
            }
        },
        None => None,
    }
}

fn read_last_stamp(values: &Vec<Json>, messages_only: bool) -> (r: Option<String>)
    ensures
        text::opt_text(r) == last_stamp(json::items_view(values@), messages_only),
{
    let ghost model = json::items_view(values@);
    let mut i: usize = values.len();
    assert(model.take(i as int) =~= model);
    while i > 0
        invariant
            i <= values@.len(),
            model == json::items_view(values@),
            last_stamp(model, messages_only) == last_stamp(model.take(i as int), messages_only),
        decreases i,
    {
        i -= 1;
        proof {
            assert(model.take(i + 1).drop_last() =~= model.take(i as int));
            assert(model.take(i + 1).last() == values@[i as int]@);
        }
        if let Some(t) = read_stamp(&values[i], messages_only) {
            return Some(t);
        }
    }
    None
}

/// When a session was last active, given its entries.
pub fn latest_activity(values: &Vec<Json>) -> (r: Option<String>)
    ensures
        text::opt_text(r) == activity(json::items_view(values@)),
{
    match read_last_stamp(values, true) {
        Some(t) => Some(t),
        None => read_last_stamp(values, false),
    }
}

/// When a session was last active, given the end of its file.
pub fn pick_updated_at_from_tail(tail: &str) -> (r: Option<String>)
    ensures
        text::opt_text(r) == activity(values_in(text::lines_of(tail@))),
{
    let values = values_of(tail);
    latest_activity(&values)
}

// ---------------------------------------------------------------------------
// The list
// ---------------------------------------------------------------------------

/// A session as it is listed.
#[derive(Debug)]
pub struct PiSessionListItem {
    /// The session.
    pub session_id: String,
    /// Its working directory.
    pub cwd: String,
    /// Its title.
    pub title: Option<String>,
    /// When it was last active.
    pub updated_at: Option<String>,
    /// Its file.
    pub session_file: String,
}

/// The model of a [`PiSessionListItem`].
pub struct ItemView {
    pub session_id: Seq<char>,
    pub cwd: Seq<char>,
    pub title: Option<Seq<char>>,
    pub updated_at: Option<Seq<char>>,
    pub session_file: Seq<char>,
}

impl View for PiSessionListItem {
    type V = ItemView;

    open spec fn view(&self) -> ItemView {
        ItemView {
            session_id: self.session_id@,
            cwd: self.cwd@,
            title: text::opt_text(self.title),
            updated_at: text::opt_text(self.updated_at),
            session_file: self.session_file@,
        }
    }
}

impl Clone for PiSessionListItem {
    fn clone(&self) -> (r: PiSessionListItem)
        ensures
            r@ == self@,
    {
        PiSessionListItem {
            session_id: self.session_id.clone(),
            cwd: self.cwd.clone(),
            title: text::clone_opt(&self.title),
            updated_at: text::clone_opt(&self.updated_at),
            session_file: self.session_file.clone(),
        }
    }
}

/// What was read of a session file.
#[derive(Debug)]
pub struct SessionFile {
    /// Its path.
    pub path: String,
    /// Its beginning.
    pub head: Option<String>,
    /// Its end.
    pub tail: Option<String>,
    /// All of it.
    pub raw: Option<String>,
    /// When it was last written, in milliseconds after 1970-01-01.
    pub modified: Option<u64>,
}

/// The model of a [`SessionFile`].
pub struct SessionFileView {
    pub path: Seq<char>,
    pub head: Option<Seq<char>>,
    pub tail: Option<Seq<char>>,
    pub raw: Option<Seq<char>>,
    pub modified: Option<u64>,
}

impl View for SessionFile {
    type V = SessionFileView;

    open spec fn view(&self) -> SessionFileView {
        SessionFileView {
            path: self.path@,
            head: text::opt_text(self.head),
            tail: text::opt_text(self.tail),
            raw: text::opt_text(self.raw),
            modified: self.modified,
        }
    }
}

/// The models of a list of files.
pub open spec fn file_views(v: Seq<SessionFile>) -> Seq<SessionFileView> {
    v.map_values(|f: SessionFile| f@)
}

/// The models of a list of items.
pub open spec fn item_views(v: Seq<PiSessionListItem>) -> Seq<ItemView> {
    v.map_values(|i: PiSessionListItem| i@)
}

/// Whether a file name is that of a session file.
pub open spec fn names_session_file(name: Seq<char>) -> bool {
    name.len() > 6 && text::ends(name, ".jsonl"@)
}

/// Whether a file name is that of a session file.
pub fn is_session_file_name(name: &str) -> (r: bool)
    ensures
        r == names_session_file(name@),
{
    name.unicode_len() > 6 && text::ends_with(name, ".jsonl")
}

/// The header of a session file.
pub open spec fn file_header(f: SessionFileView) -> Option<(Seq<char>, Seq<char>)> {
    match f.head {
        Some(h) => match first_line(h) {
            Some(line) => header_in(line),
            None => None,
        },
        None => None,
    }
}

/// When the session of a file was last active: as its end says, else when the
/// file was last written.
pub open spec fn file_activity(f: SessionFileView) -> Option<Seq<char>> {
    bash::either(
        match f.tail {
            Some(t) => activity(values_in(text::lines_of(t))),
            None => None,
        },
        match f.modified {
            Some(ms) => Some(time::written(ms as int)),
            None => None,
        },
    )
}

/// The session of a file; `None` when the file does not begin with a header.
pub open spec fn item_of(f: SessionFileView) -> Option<ItemView> {
    match file_header(f) {
        Some((session_id, cwd)) => Some(
            ItemView {
                session_id,
                cwd,
                title: title_of(f.tail, f.raw),
                updated_at: file_activity(f),
                session_file: f.path,
            },
        ),
        None => None,
    }
}

/// The sessions of files, in the order of the files.
pub open spec fn items_of(files: Seq<SessionFileView>) -> Seq<ItemView>
    decreases files.len(),
{
    if files.len() == 0 {
        Seq::empty()
    } else {
        match item_of(files.last()) {
            Some(i) => items_of(files.drop_last()).push(i),
            None => items_of(files.drop_last()),
        }
    }
}

/// By what a session is placed in the list.
pub open spec fn rank(i: ItemView) -> Seq<char> {
    match i.updated_at {
        Some(t) => t,
        None => Seq::empty(),
    }
}

/// A list with one more session: behind all that were active no earlier.
pub open spec fn inserted(items: Seq<ItemView>, i: ItemView) -> Seq<ItemView>
    decreases items.len(),
{
    if items.len() > 0 && text::precedes(rank(items.last()), rank(i)) {
        inserted(items.drop_last(), i).push(items.last())
    } else {
        items.push(i)
    }
}

/// Sessions in the order of their activity, the latest first. Sessions that
/// were active at the same time stay in the order in which they came.
pub open spec fn arranged(items: Seq<ItemView>) -> Seq<ItemView>
    decreases items.len(),
{
    if items.len() == 0 {
        Seq::empty()
    } else {
        inserted(arranged(items.drop_last()), items.last())
    }
}

fn opt_as_str(o: &Option<String>) -> (r: Option<&str>)
    ensures
        text::opt_str(r) == text::opt_text(*o),
{
    match o {
        Some(s) => Some(s.as_str()),
        None => None,
    }
}

fn read_item(f: &SessionFile) -> (r: Option<PiSessionListItem>)
    ensures
        match r {
            Some(i) => item_of(f@) == Some(i@),
            None => item_of(f@) is None,
        },
{
    let header = match &f.head {
        Some(h) => match read_first_line(h.as_str()) {
            Some(line) => parse_session_header(line.as_str()),
            None => None,
        },
        None => None,
    };
    match header {
        Some((session_id, cwd)) => {
            let title = title_from_session_file(opt_as_str(&f.tail), opt_as_str(&f.raw));
            let from_tail = match &f.tail {
                Some(t) => pick_updated_at_from_tail(t.as_str()),
                None => None,
            };
            let updated_at = match from_tail {
                Some(t) => Some(t),
                None => match f.modified {
                    Some(ms) => Some(time::format_epoch_millis(ms as u128)),
                    None => None,
                },
            };
            Some(
                PiSessionListItem {
                    session_id,
                    cwd,
                    title,
                    updated_at,
                    session_file: f.path.clone(),
                },
            )
        },
        None => None,
    }
}

fn is_older(a: &PiSessionListItem, b: &PiSessionListItem) -> (r: bool)
    ensures
        r == text::precedes(rank(a@), rank(b@)),
{
    let x = match &a.updated_at {
        Some(t) => t.as_str(),
        None => "",
    };
    let y = match &b.updated_at {
        Some(t) => t.as_str(),
        None => "",
    };
    proof {
        reveal_strlit("");
        assert(""@ =~= Seq::empty());
    }
    text::comes_before(x, y)
}

proof fn inserted_at(items: Seq<ItemView>, i: ItemView, k: int)
    requires
        0 <= k <= items.len(),
        forall|j: int| k <= j < items.len() ==> text::precedes(rank(#[trigger] items[j]), rank(i)),
        k > 0 ==> !text::precedes(rank(items[k - 1]), rank(i)),
    ensures
        inserted(items, i) == items.insert(k, i),
    decreases items.len(),
{
    if k == items.len() {
        assert(items.push(i) =~= items.insert(k, i));
    } else {
        let before = items.drop_last();
        assert forall|j: int| k <= j < before.len() implies text::precedes(
            rank(#[trigger] before[j]),
            rank(i),
        ) by {
            assert(before[j] == items[j]);
        }
        inserted_at(before, i, k);
        assert(text::precedes(rank(items[items.len() - 1]), rank(i)));
        assert(before.insert(k, i).push(items.last()) =~= items.insert(k, i));
    }
}

fn insert_item(items: &mut Vec<PiSessionListItem>, i: PiSessionListItem)
    ensures
        item_views(final(items)@) == inserted(item_views(old(items)@), i@),
{
    let mut k: usize = items.len();
    while k > 0 && is_older(&items[k - 1], &i)
        invariant
            k <= items@.len(),
            items@ == old(items)@,
            forall|j: int|
                k <= j < items@.len() ==> text::precedes(rank((#[trigger] items@[j])@), rank(i@)),
        decreases k,
    {
        k -= 1;
    }
    proof {
        let model = item_views(items@);
        assert forall|j: int| k <= j < model.len() implies text::precedes(
            rank(#[trigger] model[j]),
            rank(i@),
        ) by {
            assert(model[j] == items@[j]@);
        }
        inserted_at(model, i@, k as int);
    }
    items.insert(k, i);
    assert(item_views(items@) =~= item_views(old(items)@).insert(k as int, i@));
}

/// The sessions of files, the latest first.
pub fn list_pi_sessions_from(files: &Vec<SessionFile>) -> (r: Vec<PiSessionListItem>)
    ensures
        item_views(r@) == arranged(items_of(file_views(files@))),
{
    let ghost model = file_views(files@);
    let mut r: Vec<PiSessionListItem> = Vec::new();
    let mut i: usize = 0;
    assert(model.take(0) =~= Seq::empty());
    assert(item_views(r@) =~= Seq::empty());
    while i < files.len()
        invariant
            i <= files@.len(),
            model == file_views(files@),
            item_views(r@) == arranged(items_of(model.take(i as int))),
        decreases files.len() - i,
    {
        proof {
            assert(model.take(i + 1).drop_last() =~= model.take(i as int));
            assert(model.take(i + 1).last() == files@[i as int]@);
        }
        if let Some(item) = read_item(&files[i]) {
            proof {
                let before = items_of(model.take(i as int));
                assert(before.push(item@).drop_last() =~= before);
            }
            insert_item(&mut r, item);
        }
        i += 1;
    }
    assert(model.take(i as int) =~= model);
    r
}

/// The directory of pi's session files, given the settings as JSON: where the
/// settings say, else below the agent's directory.
pub open spec fn dir_of(agent_dir: Seq<char>, settings: Option<JsonView>, windows: bool) -> Seq<char> {
    let chosen = match settings {
        Some(v) => match json::str_member(v, "sessionDir"@) {
            Some(d) => text::trimmed(d),
            None => Seq::empty(),
        },
        None => Seq::empty(),
    };
    if chosen.len() > 0 {
        path::resolved(agent_dir, chosen, windows)
    } else {
        path::resolved(agent_dir, "sessions"@, windows)
    }
}

/// The directory of pi's session files, given the settings as JSON.
pub fn sessions_dir_from(agent_dir: &str, settings: Option<&Json>, windows: bool) -> (r: String)
    ensures
        r@ == dir_of(agent_dir@, json::opt_ref(settings), windows),
{
    if let Some(v) = settings {
        if let Some(d) = v.get_str("sessionDir") {
            let t = text::trim(d);
            if t.unicode_len() > 0 {
                return path::resolve_path(agent_dir, t, windows);
            }
        }
    }
    path::resolve_path(agent_dir, "sessions", windows)
}

/// The directory of pi's session files, given the text of the settings.
pub fn pi_sessions_dir(agent_dir: &str, settings: Option<&str>, windows: bool) -> (r: String)
    ensures
        r@ == dir_of(
            agent_dir@,
            match settings {
                Some(t) => json::json_in(t@),
                None => None,
            },
            windows,
        ),
{
    let parsed = match settings {
        Some(t) => json::parse(t),
        None => None,
    };
    match &parsed {
        Some(v) => sessions_dir_from(agent_dir, Some(v), windows),
        None => sessions_dir_from(agent_dir, None, windows),
    }
}

/// The first session of a list that has an identifier.
pub open spec fn item_with(items: Seq<ItemView>, id: Seq<char>) -> Option<ItemView>
    decreases items.len(),
{
    if items.len() == 0 {
        None
    } else if items[0].session_id == id {
        Some(items[0])
    } else {
        item_with(items.skip(1), id)
    }
}

/// The model of an optional item.
pub open spec fn opt_item(o: Option<PiSessionListItem>) -> Option<ItemView> {
    match o {
        Some(i) => Some(i@),
        None => None,
    }
}

/// The first session of a list that has an identifier.
pub fn find_in_list(items: &Vec<PiSessionListItem>, session_id: &str) -> (r: Option<
    PiSessionListItem,
>)
    ensures
        opt_item(r) == item_with(item_views(items@), session_id@),
{
    let ghost model = item_views(items@);
    let mut i: usize = 0;
    assert(model.skip(0) =~= model);
    while i < items.len()
        invariant
            i <= items@.len(),
            model == item_views(items@),
            item_with(model, session_id@) == item_with(model.skip(i as int), session_id@),
        decreases items.len() - i,
    {
        assert(model.skip(i as int)[0] == items@[i as int]@);
        if text::same(items[i].session_id.as_str(), session_id) {
            return Some(items[i].clone());
        }
        assert(model.skip(i as int).skip(1) =~= model.skip(i + 1));
        i += 1;
    }
    None
}

/// The sessions of pi's session files, the latest first.
pub fn list_pi_sessions(files: &Vec<SessionFile>) -> (r: Vec<PiSessionListItem>)
    ensures
        item_views(r@) == arranged(items_of(file_views(files@))),
{
    list_pi_sessions_from(files)
}

/// The session with an identifier, among those of pi's session files; the
/// latest when there are several.
pub fn find_pi_session(session_id: &str, files: &Vec<SessionFile>) -> (r: Option<
    PiSessionListItem,
>)
    ensures
        opt_item(r) == item_with(arranged(items_of(file_views(files@))), session_id@),
{
    let items = list_pi_sessions(files);
    find_in_list(&items, session_id)
}

// ---------------------------------------------------------------------------
// Laws
// ---------------------------------------------------------------------------

/// No session of a list was active earlier than one behind it.
pub open spec fn latest_first(items: Seq<ItemView>) -> bool {
    forall|i: int, j: int|
        0 <= i < j < items.len() ==> !text::precedes(
            rank(#[trigger] items[i]),
            rank(#[trigger] items[j]),
        )
}

proof fn inserted_in_order(items: Seq<ItemView>, i: ItemView)
    requires
        latest_first(items),
    ensures
        latest_first(inserted(items, i)),
        inserted(items, i).to_multiset() == items.to_multiset().insert(i),
    decreases items.len(),
{
    broadcast use vstd::seq_lib::group_to_multiset_ensures;

    let r = inserted(items, i);
    if items.len() > 0 && text::precedes(rank(items.last()), rank(i)) {
        let before = items.drop_last();
        assert(latest_first(before)) by {
            assert forall|a: int, b: int| 0 <= a < b < before.len() implies !text::precedes(
                rank(#[trigger] before[a]),
                rank(#[trigger] before[b]),
            ) by {
                assert(before[a] == items[a] && before[b] == items[b]);
            }
        }
        inserted_in_order(before, i);
        let front = inserted(before, i);
        assert(before.push(items.last()) =~= items);
        assert(r.to_multiset() =~= items.to_multiset().insert(i));
        assert forall|a: int, b: int| 0 <= a < b < r.len() implies !text::precedes(
            rank(#[trigger] r[a]),
            rank(#[trigger] r[b]),
        ) by {
            if b < front.len() {
                assert(r[a] == front[a] && r[b] == front[b]);
            } else {
                assert(front.to_multiset().contains(front[a]));
                if front[a] == i {
                    text::precedes_total(rank(items.last()), rank(i));
                } else {
                    assert(before.to_multiset().count(front[a]) > 0);
                    assert(before.contains(front[a]));
                    let c = choose|c: int| 0 <= c < before.len() && before[c] == front[a];
                    assert(items[c] == front[a]);
                    assert(items[items.len() - 1] == items.last());
                }
            }
        }
    } else {
        assert forall|a: int, b: int| 0 <= a < b < r.len() implies !text::precedes(
            rank(#[trigger] r[a]),
            rank(#[trigger] r[b]),
        ) by {
            if b < items.len() {
                assert(r[a] == items[a] && r[b] == items[b]);
            } else if a < items.len() - 1 {
                assert(!text::precedes(rank(items[a]), rank(items[items.len() - 1])));
                if text::precedes(rank(items[a]), rank(i)) {
                    text::precedes_total(rank(items.last()), rank(i));
                    text::precedes_total(rank(items[a]), rank(items.last()));
                    if text::precedes(rank(i), rank(items.last())) {
                        text::precedes_transitive(rank(items[a]), rank(i), rank(items.last()));
                    }
                }
            }
        }
    }
}

/// The list has the latest session first, and every session once.
pub proof fn the_list_is_in_order(items: Seq<ItemView>)
    ensures
        latest_first(arranged(items)),
        arranged(items).to_multiset() == items.to_multiset(),
    decreases items.len(),
{
    broadcast use vstd::seq_lib::group_to_multiset_ensures;

    if items.len() > 0 {
        the_list_is_in_order(items.drop_last());
        inserted_in_order(arranged(items.drop_last()), items.last());
        assert(items.drop_last().push(items.last()) =~= items);
    } else {
        assert(items =~= Seq::empty());
    }
}

/// A session that is found is one of the list, with that identifier.
pub proof fn a_found_session_is_listed(items: Seq<ItemView>, id: Seq<char>)
    ensures
        match item_with(items, id) {
            Some(i) => items.contains(i) && i.session_id == id,
            None => forall|k: int| 0 <= k < items.len() ==> (#[trigger] items[k]).session_id != id,
        },
    decreases items.len(),
{
    if items.len() > 0 && items[0].session_id != id {
        let rest = items.skip(1);
        a_found_session_is_listed(rest, id);
        match item_with(rest, id) {
            Some(i) => {
                let k = choose|k: int| 0 <= k < rest.len() && rest[k] == i;
                assert(items[k + 1] == i);
            },
            None => {
                assert forall|k: int| 0 <= k < items.len() implies (#[trigger] items[k]).session_id
                    != id by {
                    if k > 0 {
                        assert(rest[k - 1] == items[k]);
                    }
                }
            },
        }
    } else if items.len() > 0 {
        assert(items.contains(items[0]));
    }
}

/// Whether an entry names its session `name`: it is a `session_info` entry
/// whose name is not blank.
pub open spec fn names_it(v: JsonView, name: Seq<char>) -> bool {
    &&& json::member(v, "type"@) == Some(JsonView::Str("session_info"@))
    &&& json::member(v, "name"@) == Some(JsonView::Str(name))
    &&& text::trimmed(name).len() > 0
}

/// The last name that a session was given is its name, without the blanks
/// round it, whatever names came before. Without any it has no name.
pub proof fn the_last_name_counts(values: Seq<JsonView>, k: int, name: Seq<char>)
    requires
        0 <= k < values.len(),
        names_it(values[k], name),
        forall|j: int, other: Seq<char>|
            k < j < values.len() ==> !#[trigger] names_it(values[j], other),
    ensures
        last_name(values) == Some(text::trimmed(name)),
    decreases values.len(),
{
    if k < values.len() - 1 {
        let front = values.drop_last();
        assert forall|j: int, other: Seq<char>| k < j < front.len() implies !#[trigger] names_it(
            front[j],
            other,
        ) by {
            assert(!names_it(values[j], other));
        }
        the_last_name_counts(front, k, name);
        if let Some(n) = json::str_member(values.last(), "name"@) {
            assert(!names_it(values[values.len() - 1], n));
        }
        assert(name_of(values.last()) is None);
    }
}

/// A session that no entry names has no name.
pub proof fn no_name_is_made_up(values: Seq<JsonView>)
    requires
        forall|j: int, other: Seq<char>|
            0 <= j < values.len() ==> !#[trigger] names_it(values[j], other),
    ensures
        last_name(values) is None,
    decreases values.len(),
{
    if values.len() > 0 {
        let front = values.drop_last();
        assert forall|j: int, other: Seq<char>| 0 <= j < front.len() implies !#[trigger] names_it(
            front[j],
            other,
        ) by {
            assert(!names_it(values[j], other));
        }
        no_name_is_made_up(front);
        if let Some(n) = json::str_member(values.last(), "name"@) {
            assert(!names_it(values[values.len() - 1], n));
        }
    }
}

proof fn values_add_up(front: Seq<Seq<char>>, rest: Seq<Seq<char>>)
    ensures
        values_in(front + rest) == values_in(front) + values_in(rest),
    decreases rest.len(),
{
    if rest.len() == 0 {
        assert(front + rest =~= front);
        assert(values_in(front) + values_in(rest) =~= values_in(front));
    } else {
        values_add_up(front, rest.drop_last());
        assert((front + rest).drop_last() =~= front + rest.drop_last());
        assert(values_in(front + rest) =~= values_in(front) + values_in(rest));
    }
}

/// A line of a session file: it holds a JSON value, is not blank, and has no
/// line end in it.
pub open spec fn entry_line(line: Seq<char>, v: JsonView) -> bool {
    &&& line.len() > 0
    &&& forall|j: int| 0 <= j < line.len() ==> #[trigger] line[j] != '\n'
    &&& value_in(line) == Some(v)
}

/// An entry that is appended to a session file is its last entry.
pub proof fn an_appended_entry_is_the_last(file: Seq<char>, line: Seq<char>, v: JsonView)
    requires
        file.len() == 0 || file.last() == '\n',
        entry_line(line, v),
    ensures
        values_in(text::lines_of(file + line)) == values_in(text::lines_of(file)).push(v),
{
    text::lines_add_up(file, line);
    text::a_line_ends(line, Seq::empty());
    values_add_up(text::lines_of(file), seq![line]);
    reveal_with_fuel(values_in, 2);
    assert(seq![line].drop_last() =~= Seq::<Seq<char>>::empty());
    assert(values_in(seq![line]) =~= seq![v]);
    assert(values_in(text::lines_of(file)) + seq![v] =~= values_in(text::lines_of(file)).push(v));
}

/// Naming a session makes that name its title: an entry with a name that is
/// appended to the session's file decides, whatever the file held before.
pub proof fn a_new_name_is_the_title(
    tail: Seq<char>,
    raw: Option<Seq<char>>,
    line: Seq<char>,
    v: JsonView,
    name: Seq<char>,
)
    requires
        tail.len() == 0 || tail.last() == '\n',
        entry_line(line, v),
        names_it(v, name),
    ensures
        title_of(Some(tail + line), raw) == Some(text::trimmed(name)),
        title_of(None, Some(tail + line)) == Some(text::trimmed(name)),
{
    an_appended_entry_is_the_last(tail, line, v);
    let values = values_in(text::lines_of(tail)).push(v);
    the_last_name_counts(values, values.len() - 1, name);
}

/// An entry that names nothing leaves the title that the end of the file gave.
pub proof fn other_entries_leave_the_title(
    tail: Seq<char>,
    raw: Option<Seq<char>>,
    line: Seq<char>,
    v: JsonView,
)
    requires
        tail.len() == 0 || tail.last() == '\n',
        entry_line(line, v),
        forall|name: Seq<char>| !#[trigger] names_it(v, name),
    ensures
        title_of(Some(tail + line), raw) == title_of(Some(tail), raw),
{
    an_appended_entry_is_the_last(tail, line, v);
    let values = values_in(text::lines_of(tail));
    assert(values.push(v).drop_last() =~= values);
    if let Some(n) = json::str_member(v, "name"@) {
        assert(!names_it(v, n));
    }
}

/// Whether an entry is a message of the user with a text.
pub open spec fn asks(v: JsonView, said: Seq<char>) -> bool {
    exists|m: JsonView|
        {
            &&& #[trigger] json::member(v, "message"@) == Some(m)
            &&& json::member(v, "type"@) == Some(JsonView::Str("message"@))
            &&& json::member(m, "role"@) == Some(JsonView::Str("user"@))
            &&& json::member(m, "content"@) == Some(JsonView::Str(said))
        }
}

/// A session without a name has the beginning of the user's first message for
/// its title.
pub proof fn the_first_message_is_the_title(values: Seq<JsonView>, k: int, said: Seq<char>)
    requires
        0 <= k < values.len(),
        asks(values[k], said),
        said.len() > 0,
        forall|j: int| 0 <= j < k ==> user_text(#[trigger] values[j]).len() == 0,
    ensures
        first_user_text(values) == Some(
            if said.len() <= 80 {
                said
            } else {
                said.take(80)
            },
        ),
    decreases k,
{
    if k == 0 {
        assert(user_text(values[0]) == said);
    } else {
        let rest = values.skip(1);
        assert(rest[k - 1] == values[k]);
        assert forall|j: int| 0 <= j < k - 1 implies user_text(#[trigger] rest[j]).len() == 0 by {
            assert(rest[j] == values[j + 1]);
        }
        assert(user_text(values[0]).len() == 0);
        the_first_message_is_the_title(rest, k - 1, said);
    }
}

/// Entries of other kinds, and messages of others, give no title.
pub proof fn only_the_user_gives_a_title(v: JsonView)
    requires
        json::member(v, "type"@) != Some(JsonView::Str("message"@)) || (json::member(
            v,
            "message"@,
        ) matches Some(m) ==> json::member(m, "role"@) != Some(JsonView::Str("user"@))),
    ensures
        user_text(v).len() == 0,
{
}

/// The name comes first: the user's first message is the title only when the
/// file names the session nowhere.
pub proof fn names_come_first(tail: Option<Seq<char>>, raw: Seq<char>)
    ensures
        tail is None || last_name(values_in(text::lines_of(tail->0))) is None ==> (last_name(
            values_in(text::lines_of(raw)),
        ) is None ==> title_of(tail, Some(raw)) == first_user_text(early_values(raw))),
        tail is None && last_name(values_in(text::lines_of(raw))) is Some ==> title_of(
            tail,
            Some(raw),
        ) == last_name(values_in(text::lines_of(raw))),
{
}

/// Whether an entry is a message with a time that can be read, which is `when`.
pub open spec fn dated(v: JsonView, when: Seq<char>) -> bool {
    exists|t: Seq<char>|
        {
            &&& json::member(v, "timestamp"@) == Some(JsonView::Str(t))
            &&& #[trigger] time::normalized(t) == Some(when)
        }
}

/// Whether an entry is a message.
pub open spec fn is_message(v: JsonView) -> bool {
    json::member(v, "type"@) == Some(JsonView::Str("message"@))
}

proof fn undated(v: JsonView, messages_only: bool)
    ensures
        stamp_of(v, messages_only) matches Some(when) ==> dated(v, when) && (messages_only
            ==> is_message(v)),
        stamp_of(v, messages_only) is None ==> forall|when: Seq<char>|
            messages_only && !is_message(v) || !#[trigger] dated(v, when),
{
    if stamp_of(v, messages_only) is None {
        assert forall|when: Seq<char>| messages_only && !is_message(v) || !#[trigger] dated(
            v,
            when,
        ) by {
            if dated(v, when) {
                let t = choose|t: Seq<char>|
                    {
                        &&& json::member(v, "timestamp"@) == Some(JsonView::Str(t))
                        &&& #[trigger] time::normalized(t) == Some(when)
                    };
                assert(json::str_member(v, "timestamp"@) == Some(t));
            }
        }
    } else if let Some(t) = json::str_member(v, "timestamp"@) {
        assert(time::normalized(t) == stamp_of(v, messages_only));
    }
}

/// A session was last active when its last message was sent, whatever entries
/// of other kinds follow it.
pub proof fn the_last_message_dates_the_session(
    values: Seq<JsonView>,
    k: int,
    when: Seq<char>,
)
    requires
        0 <= k < values.len(),
        is_message(values[k]),
        dated(values[k], when),
        forall|j: int, other: Seq<char>|
            k < j < values.len() && is_message(values[j]) ==> !#[trigger] dated(values[j], other),
    ensures
        activity(values) == Some(when),
{
    dated_last(values, k, when, true);
}

/// A session without a dated message was last active when its last dated entry
/// was written.
pub proof fn the_last_entry_dates_the_session(values: Seq<JsonView>, k: int, when: Seq<char>)
    requires
        0 <= k < values.len(),
        dated(values[k], when),
        forall|j: int, other: Seq<char>|
            k < j < values.len() ==> !#[trigger] dated(values[j], other),
        forall|j: int, other: Seq<char>|
            0 <= j < values.len() && is_message(values[j]) ==> !#[trigger] dated(
                values[j],
                other,
            ),
    ensures
        activity(values) == Some(when),
{
    dated_last(values, k, when, false);
    none_dated(values);
}

proof fn none_dated(values: Seq<JsonView>)
    requires
        forall|j: int, other: Seq<char>|
            0 <= j < values.len() && is_message(values[j]) ==> !#[trigger] dated(
                values[j],
                other,
            ),
    ensures
        last_stamp(values, true) is None,
    decreases values.len(),
{
    if values.len() > 0 {
        let front = values.drop_last();
        assert forall|j: int, other: Seq<char>|
            0 <= j < front.len() && is_message(front[j]) implies !#[trigger] dated(
            front[j],
            other,
        ) by {
            assert(front[j] == values[j]);
            assert(!dated(values[j], other));
        }
        none_dated(front);
        undated(values[values.len() - 1], true);
        if let Some(w) = stamp_of(values.last(), true) {
            assert(!dated(values[values.len() - 1], w));
        }
    }
}

proof fn dated_last(values: Seq<JsonView>, k: int, when: Seq<char>, messages_only: bool)
    requires
        0 <= k < values.len(),
        messages_only ==> is_message(values[k]),
        dated(values[k], when),
        forall|j: int, other: Seq<char>|
            k < j < values.len() && (messages_only ==> is_message(values[j]))
                ==> !#[trigger] dated(values[j], other),
    ensures
        last_stamp(values, messages_only) == Some(when),
    decreases values.len(),
{
    if k < values.len() - 1 {
        let front = values.drop_last();
        assert forall|j: int, other: Seq<char>|
            k < j < front.len() && (messages_only ==> is_message(front[j])) implies !#[trigger] dated(
            front[j],
            other,
        ) by {
            assert(front[j] == values[j]);
            assert(!dated(values[j], other));
        }
        dated_last(front, k, when, messages_only);
        undated(values[values.len() - 1], messages_only);
        if let Some(w) = stamp_of(values.last(), messages_only) {
            assert(!dated(values[values.len() - 1], w));
        }
    } else {
        let v = values[k];
        undated(v, messages_only);
        let t = choose|t: Seq<char>|
            {
                &&& json::member(v, "timestamp"@) == Some(JsonView::Str(t))
                &&& #[trigger] time::normalized(t) == Some(when)
            };
        assert(json::str_member(v, "timestamp"@) == Some(t));
    }
}

/// A session file whose first line is a header is listed under the header's
/// session and directory, with the file's own path; one without is not listed.
pub proof fn a_file_is_listed_by_its_header(
    f: SessionFileView,
    head: Seq<char>,
    line: Seq<char>,
    v: JsonView,
    id: Seq<char>,
    cwd: Seq<char>,
)
    requires
        f.head == Some(head),
        first_line(head) == Some(line),
        json::json_in(line) == Some(v),
        json::member(v, "id"@) == Some(JsonView::Str(id)),
        json::member(v, "cwd"@) == Some(JsonView::Str(cwd)),
    ensures
        json::member(v, "type"@) == Some(JsonView::Str("session"@)) && id.len() > 0 && cwd.len()
            > 0 ==> (item_of(f) matches Some(i) && i.session_id == id && i.cwd == cwd
            && i.session_file == f.path && i.title == title_of(f.tail, f.raw)),
        json::member(v, "type"@) != Some(JsonView::Str("session"@)) || id.len() == 0
            || cwd.len() == 0 ==> item_of(f) is None,
{
}

/// The first line of a text is what comes before its first line end.
pub proof fn the_first_line_comes_first(line: Seq<char>, rest: Seq<char>)
    requires
        line.len() > 0,
        forall|j: int| 0 <= j < line.len() ==> #[trigger] line[j] != '\n',
        !text::is_white(line[0]),
        !text::is_white(line.last()),
    ensures
        first_line(line + seq!['\n'] + rest) == Some(line),
        first_line(line) == Some(line),
{
    text::a_line_ends(line, rest);
    text::trimmed_stays(line);
    assert(text::is_white('\r'));
    assert(text::without_cr(line) == line);
}

/// Every file that begins with a header is in the list, and nothing else is.
pub proof fn every_session_file_is_listed(files: Seq<SessionFileView>, k: int)
    requires
        0 <= k < files.len(),
    ensures
        item_of(files[k]) matches Some(i) ==> arranged(items_of(files)).contains(i),
{
    broadcast use vstd::seq_lib::group_to_multiset_ensures;

    let items = items_of(files);
    the_list_is_in_order(items);
    if let Some(i) = item_of(files[k]) {
        read_files_are_items(files, k);
        assert(items.to_multiset().count(i) > 0);
        assert(arranged(items).to_multiset().contains(i));
    }
}

proof fn read_files_are_items(files: Seq<SessionFileView>, k: int)
    requires
        0 <= k < files.len(),
        item_of(files[k]) is Some,
    ensures
        items_of(files).contains(item_of(files[k])->0),
    decreases files.len(),
{
    let items = items_of(files);
    let front = items_of(files.drop_last());
    if k < files.len() - 1 {
        read_files_are_items(files.drop_last(), k);
        let j = choose|j: int| 0 <= j < front.len() && front[j] == item_of(files[k])->0;
        assert(items[j] == front[j]);
    } else {
        assert(items[items.len() - 1] == item_of(files[k])->0);
    }
}

/// Every session of the list is that of one of the files.
pub proof fn nothing_else_is_listed(files: Seq<SessionFileView>, i: ItemView)
    requires
        arranged(items_of(files)).contains(i),
    ensures
        exists|k: int| 0 <= k < files.len() && item_of(#[trigger] files[k]) == Some(i),
{
    broadcast use vstd::seq_lib::group_to_multiset_ensures;

    let items = items_of(files);
    the_list_is_in_order(items);
    assert(arranged(items).to_multiset().count(i) > 0);
    assert(items.contains(i));
    items_are_read(files, i);
}

proof fn items_are_read(files: Seq<SessionFileView>, i: ItemView)
    requires
        items_of(files).contains(i),
    ensures
        exists|k: int| 0 <= k < files.len() && item_of(#[trigger] files[k]) == Some(i),
    decreases files.len(),
{
    if files.len() > 0 {
        let front = files.drop_last();
        if item_of(files.last()) == Some(i) {
            assert(item_of(files[files.len() - 1]) == Some(i));
        } else {
            let items = items_of(files);
            let j = choose|j: int| 0 <= j < items.len() && items[j] == i;
            assert(items_of(front)[j] == i);
            assert(items_of(front).contains(i));
            items_are_read(front, i);
            let k = choose|k: int| 0 <= k < front.len() && item_of(#[trigger] front[k]) == Some(i);
            assert(item_of(files[k]) == Some(i));
        }
    }
}

/// One more session takes its place behind those that were active no earlier
/// and before those that were; the others keep their places.
pub proof fn a_session_takes_its_place(items: Seq<ItemView>, i: ItemView)
    ensures
        exists|k: int|
            {
                &&& 0 <= k <= arranged(items).len()
                &&& arranged(items.push(i)) == #[trigger] arranged(items).insert(k, i)
                &&& k > 0 ==> !text::precedes(rank(arranged(items)[k - 1]), rank(i))
                &&& forall|j: int|
                    k <= j < arranged(items).len() ==> text::precedes(
                        rank(#[trigger] arranged(items)[j]),
                        rank(i),
                    )
            },
{
    let all = arranged(items);
    assert(items.push(i).drop_last() =~= items);
    place_of(all, i);
}

proof fn place_of(items: Seq<ItemView>, i: ItemView)
    ensures
        exists|k: int|
            {
                &&& 0 <= k <= items.len()
                &&& inserted(items, i) == #[trigger] items.insert(k, i)
                &&& k > 0 ==> !text::precedes(rank(items[k - 1]), rank(i))
                &&& forall|j: int|
                    k <= j < items.len() ==> text::precedes(rank(#[trigger] items[j]), rank(i))
            },
    decreases items.len(),
{
    if items.len() > 0 && text::precedes(rank(items.last()), rank(i)) {
        let front = items.drop_last();
        place_of(front, i);
        let k = choose|k: int|
            {
                &&& 0 <= k <= front.len()
                &&& inserted(front, i) == #[trigger] front.insert(k, i)
                &&& k > 0 ==> !text::precedes(rank(front[k - 1]), rank(i))
                &&& forall|j: int|
                    k <= j < front.len() ==> text::precedes(rank(#[trigger] front[j]), rank(i))
            };
        assert(front.insert(k, i).push(items.last()) =~= items.insert(k, i));
        assert forall|j: int| k <= j < items.len() implies text::precedes(
            rank(#[trigger] items[j]),
            rank(i),
        ) by {
            if j < front.len() {
                assert(front[j] == items[j]);
            }
        }
        if k > 0 {
            assert(front[k - 1] == items[k - 1]);
        }
    } else {
        assert(items.push(i) =~= items.insert(items.len() as int, i));
    }
}

/// Of several sessions with one identifier the latest is found.
pub proof fn the_latest_is_found(files: Seq<SessionFileView>, id: Seq<char>, other: ItemView)
    requires
        items_of(files).contains(other),
        other.session_id == id,
    ensures
        item_with(arranged(items_of(files)), id) matches Some(i) && i.session_id == id
            && !text::precedes(rank(i), rank(other)),
{
    broadcast use vstd::seq_lib::group_to_multiset_ensures;

    let items = items_of(files);
    let all = arranged(items);
    the_list_is_in_order(items);
    assert(items.to_multiset().count(other) > 0);
    assert(all.to_multiset().contains(other));
    let j = choose|j: int| 0 <= j < all.len() && all[j] == other;
    first_with(all, id, j);
}

proof fn first_with(items: Seq<ItemView>, id: Seq<char>, j: int)
    requires
        latest_first(items),
        0 <= j < items.len(),
        items[j].session_id == id,
    ensures
        item_with(items, id) matches Some(i) && i.session_id == id && !text::precedes(
            rank(i),
            rank(items[j]),
        ),
    decreases items.len(),
{
    if items[0].session_id != id {
        let rest = items.skip(1);
        assert(rest[j - 1] == items[j]);
        assert forall|a: int, b: int| 0 <= a < b < rest.len() implies !text::precedes(
            rank(#[trigger] rest[a]),
            rank(#[trigger] rest[b]),
        ) by {
            assert(rest[a] == items[a + 1] && rest[b] == items[b + 1]);
        }
        first_with(rest, id, j - 1);
    } else if j == 0 {
        text::precedes_total(rank(items[0]), rank(items[0]));
    }
}

/// The directory that the settings name is where session files are, below the
/// agent's directory unless it is absolute; without one it is `sessions` there.
pub proof fn the_chosen_directory_counts(
    agent_dir: Seq<char>,
    settings: JsonView,
    dir: Seq<char>,
    windows: bool,
)
    requires
        json::member(settings, "sessionDir"@) == Some(JsonView::Str(dir)),
    ensures
        text::trimmed(dir).len() > 0 ==> dir_of(agent_dir, Some(settings), windows)
            == path::resolved(agent_dir, text::trimmed(dir), windows),
        text::trimmed(dir).len() == 0 ==> dir_of(agent_dir, Some(settings), windows)
            == path::resolved(agent_dir, "sessions"@, windows),
        dir_of(agent_dir, None, windows) == path::resolved(agent_dir, "sessions"@, windows),
        path::absolute(text::trimmed(dir), windows) && text::trimmed(dir).len() > 0 ==> dir_of(
            agent_dir,
            Some(settings),
            windows,
        ) == text::trimmed(dir),
{
    if path::absolute(text::trimmed(dir), windows) {
        path::absolute_stays(agent_dir, text::trimmed(dir), windows);
    }
}

} // verus!
