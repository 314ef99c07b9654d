//! Starting, restoring, listing and forgetting sessions: what each request
//! amounts to, given what pi and the disk say.

use crate::auth;
use crate::error;
use crate::error::{AcpError, AcpxError, ACP_INTERNAL_ERROR, ACP_INVALID_PARAMS};
use crate::json;
use crate::json::{Json, JsonMap, JsonView};
use crate::path;
use crate::pi::rpc::RpcSessionState;
use crate::pi::sessions;
use crate::pi::sessions::{ItemView, PiSessionListItem};
use crate::session_store;
use crate::session_store::{StoredSession, StoredView};
use crate::text;
use vstd::prelude::*;
use vstd::string::*;

verus! {

// ---------------------------------------------------------------------------
// A new session
// ---------------------------------------------------------------------------

/// A session needs an absolute directory.
pub fn check_cwd(cwd: &str, windows: bool) -> (r: Result<(), AcpError>)
    ensures
        match r {
            Ok(()) => path::absolute(cwd@, windows),
            Err(e) => !path::absolute(cwd@, windows) && e.holds(
                ACP_INVALID_PARAMS,
                "cwd must be an absolute path: "@ + cwd@,
                None,
            ),
        },
{
    if path::is_absolute(cwd, windows) {
        Ok(())
    } else {
        let message = text::cat2("cwd must be an absolute path: ", cwd);
        Err(error::invalid_params(message.as_str()))
    }
}

/// What a client is told when pi could not list its models, when it is known
/// whether the failure names credentials: one that does demands authentication,
/// any other is reported.
pub fn models_refusal(failure: &AcpxError, names_credentials: bool, argv: &Vec<String>) -> (r:
    AcpError)
    ensures
        names_credentials ==> r.demands_auth(text::texts(argv@)),
        !names_credentials ==> r.holds(ACP_INTERNAL_ERROR, failure@.message(), None),
{
    if names_credentials {
        error::auth_required(argv)
    } else {
        AcpError { code: ACP_INTERNAL_ERROR, message: failure.message(), data: None }
    }
}

/// What a client is told when pi could not list its models.
pub fn models_error(failure: &AcpxError, argv: &Vec<String>) -> (r: AcpError)
    ensures
        auth::names_credentials(text::lowercased(failure@.message())) ==> r.demands_auth(
            text::texts(argv@),
        ),
        !auth::names_credentials(text::lowercased(failure@.message())) ==> r.holds(
            ACP_INTERNAL_ERROR,
            failure@.message(),
            None,
        ),
{
    let named = auth::maybe_auth_required_error(failure.message().as_str()).is_some();
    models_refusal(failure, named, argv)
}

/// A text that is more than blanks.
pub open spec fn filled(o: Option<Seq<char>>) -> Option<Seq<char>> {
    match o {
        Some(s) => if text::trimmed(s).len() == 0 {
            None
        } else {
            Some(s)
        },
        None => None,
    }
}

fn filled_text(o: &Option<String>) -> (r: Option<String>)
    ensures
        text::opt_text(r) == filled(text::opt_text(*o)),
{
    match o {
        Some(s) => {
            if text::trim(s.as_str()).unicode_len() == 0 {
                None
            } else {
                Some(s.clone())
            }
        },
        None => None,
    }
}

/// The file to remove when a session could not be started: the one in its
/// state, or else the one in the map.
pub fn failed_session_file(state_file: &Option<String>, stored: &Option<StoredSession>) -> (r:
    Option<String>)
    ensures
        text::opt_text(r) == (match filled(text::opt_text(*state_file)) {
            Some(f) => Some(f),
            None => match session_store::opt_stored(*stored) {
                Some(s) => Some(s.session_file),
                None => None,
            },
        }),
{
    match filled_text(state_file) {
        Some(f) => Some(f),
        None => match stored {
            Some(s) => Some(s.session_file.clone()),
            None => None,
        },
    }
}

/// Where a session's file is: below the session's directory unless it is
/// absolute.
pub fn resolve_session_file_path(cwd: &str, session_file: &str, windows: bool) -> (r: String)
    ensures
        r@ == path::resolved(cwd@, session_file@, windows),
{
    path::resolve_path(cwd, session_file, windows)
}

/// Whether the file with this head is the file of the session: its header
/// names it. pi writes the file only with the first answer.
pub fn session_file_matches_id(head: Option<&str>, session_id: &str) -> (r: bool)
    ensures
        r == (match head_header(text::opt_str(head)) {
            Some((id, _)) => id == session_id@,
            None => false,
        }),
{
    let first = match head {
        Some(h) => match sessions::read_first_line(h) {
            Some(line) => line,
            None => return false,
        },
        None => return false,
    };
    match sessions::parse_session_header(first.as_str()) {
        Some((id, _)) => text::same(id.as_str(), session_id),
        None => false,
    }
}

/// The header at the head of a session's file.
pub open spec fn head_header(head: Option<Seq<char>>) -> Option<(Seq<char>, Seq<char>)> {
    match head {
        Some(h) => match sessions::first_line(h) {
            Some(line) => sessions::header_in(line),
            None => None,
        },
        None => None,
    }
}

/// The file of a session that may be written down: pi's state names one and
/// still is the session's.
pub open spec fn recordable(state_id: Seq<char>, state_file: Option<Seq<char>>, session_id: Seq<char>) -> Option<
    Seq<char>,
> {
    if state_id == session_id {
        filled(state_file)
    } else {
        None
    }
}

/// The file of a session that may be written down, once its head shows that it
/// is the session's ([`session_file_matches_id`]).
pub fn file_to_record(state: &RpcSessionState, session_id: &str) -> (r: Option<String>)
    ensures
        text::opt_text(r) == recordable(
            state.session_id@,
            text::opt_text(state.session_file),
            session_id@,
        ),
{
    if text::same(state.session_id.as_str(), session_id) {
        filled_text(&state.session_file)
    } else {
        None
    }
}

/// What is known of the update check: it runs at most once.
#[derive(Debug)]
pub struct VersionCheck {
    done: bool,
    notice: Option<String>,
}

impl View for VersionCheck {
    type V = Option<Option<Seq<char>>>;

    closed spec fn view(&self) -> Option<Option<Seq<char>>> {
        if self.done {
            Some(text::opt_text(self.notice))
        } else {
            None
        }
    }
}

impl VersionCheck {
    /// Nothing was checked.
    pub fn new() -> (r: VersionCheck)
        ensures
            r@ is None,
    {
        VersionCheck { done: false, notice: None }
    }

    /// Whether to check now.
    pub fn is_due(&self, enabled: bool) -> (r: bool)
        ensures
            r == (enabled && self@ is None),
    {
        enabled && !self.done
    }

    /// The check is done, with this notice.
    pub fn finish(&mut self, notice: Option<String>)
        ensures
            final(self)@ == Some(text::opt_text(notice)),
    {
        self.notice = notice;
        self.done = true;
    }

    /// The notice.
    pub fn notice(&self) -> (r: Option<&str>)
        ensures
            text::opt_str(r) == (match self@ {
                Some(n) => n,
                None => None,
            }),
    {
        if self.done {
            match &self.notice {
                Some(n) => Some(n.as_str()),
                None => None,
            }
        } else {
            None
        }
    }
}

/// The text that a quiet start shows: the notice alone.
pub open spec fn quiet_prelude(notice: Option<Seq<char>>) -> Seq<char> {
    match notice {
        Some(n) => n + "\n"@,
        None => Seq::empty(),
    }
}

/// The text that a session starts with: the greeting, or just the notice when
/// the start is to be quiet.
pub fn build_startup_prelude(quiet: bool, greeting: String, notice: Option<&str>) -> (r: String)
    ensures
        r@ == (if quiet {
            quiet_prelude(text::opt_str(notice))
        } else {
            greeting@
        }),
{
    if quiet {
        match notice {
            Some(n) => text::cat2(n, "\n"),
            None => String::new(),
        }
    } else {
        greeting
    }
}

// ---------------------------------------------------------------------------
// Finding a session
// ---------------------------------------------------------------------------

/// Where a session was found.
#[derive(Debug)]
pub struct Located {
    /// Its directory.
    pub cwd: String,
    /// Its file.
    pub session_file: String,
    /// Whether the map has to be told of it.
    pub is_new: bool,
}

/// Where a session is: the map knows, or else pi's files.
pub open spec fn location(stored: Option<StoredView>, found: Option<ItemView>) -> Option<
    (Seq<char>, Seq<char>, bool),
> {
    match stored {
        Some(s) => Some((s.cwd, s.session_file, false)),
        None => match found {
            Some(i) => Some((i.cwd, i.session_file, true)),
            None => None,
        },
    }
}

/// The model of a place.
pub open spec fn opt_located(o: Option<Located>) -> Option<(Seq<char>, Seq<char>, bool)> {
    match o {
        Some(l) => Some((l.cwd@, l.session_file@, l.is_new)),
        None => None,
    }
}

/// Where a session is.
pub fn find_stored_session(stored: Option<StoredSession>, found: Option<PiSessionListItem>) -> (r:
    Option<Located>)
    ensures
        opt_located(r) == location(
            session_store::opt_stored(stored),
            sessions::opt_item(found),
        ),
{
    match stored {
        Some(s) => Some(Located { cwd: s.cwd, session_file: s.session_file, is_new: false }),
        None => match found {
            Some(i) => Some(Located { cwd: i.cwd, session_file: i.session_file, is_new: true }),
            None => None,
        },
    }
}

/// How a session is restored.
#[derive(Debug)]
pub struct Restoration {
    /// The directory that pi runs in.
    pub cwd: String,
    /// The file that pi continues.
    pub session_file: String,
}

/// How a session is restored: in the directory that was asked for, or else in
/// its own. A session that nobody knows is refused.
pub fn restore_session(session_id: &str, cwd: Option<&str>, located: Option<Located>) -> (r: Result<
    Restoration,
    AcpError,
>)
    ensures
        match r {
            Ok(x) => {
                &&& located is Some
                &&& x.cwd@ == (match cwd {
                    Some(c) => c@,
                    None => located->0.cwd@,
                })
                &&& x.session_file@ == located->0.session_file@
            },
            Err(e) => located is None && e.holds(
                ACP_INVALID_PARAMS,
                "Unknown sessionId: "@ + session_id@,
                None,
            ),
        },
{
    match located {
        Some(l) => {
            let effective = match cwd {
                Some(c) => c.to_owned(),
                None => l.cwd,
            };
            Ok(Restoration { cwd: effective, session_file: l.session_file })
        },
        None => {
            let message = text::cat2("Unknown sessionId: ", session_id);
            Err(error::invalid_params(message.as_str()))
        },
    }
}

/// The id that a session is registered under: pi's, which has to be the one
/// that was asked for.
pub fn registered_id(expected: Option<&str>, reported: &str) -> (r: Result<String, AcpxError>)
    ensures
        match r {
            Ok(id) => id@ == reported@ && (expected is None || expected->0@ == reported@),
            Err(e) => expected is Some && expected->0@ != reported@ && e@ == (
            AcpxError::SessionIdMismatch { expected: expected->0@, actual: reported@ }),
        },
{
    match expected {
        Some(x) => {
            if text::same(x, reported) {
                Ok(reported.to_owned())
            } else {
                Err(
                    AcpxError::SessionIdMismatch {
                        expected: x.to_owned(),
                        actual: reported.to_owned(),
                    },
                )
            }
        },
        None => Ok(reported.to_owned()),
    }
}

/// The error of a command to a session that is gone: pi's exit, when pi died
/// by itself, or else that the session is closed.
pub fn death_error(session_id: &str, exit: Option<(Option<i32>, Option<i32>)>) -> (r: AcpxError)
    ensures
        r@ == (match exit {
            Some((code, signal)) => AcpxError::<Seq<char>>::PiExited { code, signal },
            None => AcpxError::<Seq<char>>::SessionClosed(session_id@),
        }),
{
    match exit {
        Some((code, signal)) => AcpxError::PiExited { code, signal },
        None => AcpxError::SessionClosed(session_id.to_owned()),
    }
}

// ---------------------------------------------------------------------------
// Forgetting a session
// ---------------------------------------------------------------------------

/// What is done to forget a session.
#[derive(Debug)]
pub struct Deletion {
    /// The file to remove.
    pub session_file: String,
}

/// What is done to forget a session: nothing when nobody knows it, which is no
/// error.
pub fn delete_session(stored: &Option<StoredSession>, found: &Option<PiSessionListItem>) -> (r:
    Option<Deletion>)
    ensures
        (match r {
            Some(d) => Some(d.session_file@),
            None => None,
        }) == (match location(
            session_store::opt_stored(*stored),
            sessions::opt_item(*found),
        ) {
            Some(l) => Some(l.1),
            None => None,
        }),
{
    match stored {
        Some(s) => Some(Deletion { session_file: s.session_file.clone() }),
        None => match found {
            Some(i) => Some(Deletion { session_file: i.session_file.clone() }),
            None => None,
        },
    }
}

// ---------------------------------------------------------------------------
// Listing sessions
// ---------------------------------------------------------------------------

/// How many sessions a page has.
pub const LIST_PAGE_SIZE: usize = 50;

/// The sessions of a directory; all of them without one.
pub open spec fn in_directory(items: Seq<ItemView>, cwd: Option<Seq<char>>) -> Seq<ItemView>
    decreases items.len(),
{
    match cwd {
        None => items,
        Some(c) => if items.len() == 0 {
            Seq::empty()
        } else if items.last().cwd == c {
            in_directory(items.drop_last(), cwd).push(items.last())
        } else {
            in_directory(items.drop_last(), cwd)
        },
    }
}

/// Where a page starts: what the cursor says, or at the front.
pub open spec fn start_of(cursor: Option<Seq<char>>) -> nat {
    match cursor {
        Some(c) => match text::unsigned_in(c) {
            Some(n) => if n <= usize::MAX {
                n
            } else {
                0
            },
            None => 0,
        },
        None => 0,
    }
}

/// The page that starts there.
pub open spec fn page(items: Seq<ItemView>, start: nat) -> Seq<ItemView> {
    if start >= items.len() {
        Seq::empty()
    } else if start + LIST_PAGE_SIZE >= items.len() {
        items.skip(start as int)
    } else {
        items.subrange(start as int, start + LIST_PAGE_SIZE)
    }
}

/// The cursor of the page behind; none behind the last one.
pub open spec fn next_cursor(items: Seq<ItemView>, start: nat) -> Option<Seq<char>> {
    if start + LIST_PAGE_SIZE < items.len() {
        Some(text::decimal((start + LIST_PAGE_SIZE) as nat))
    } else {
        None
    }
}

/// A session as the client is told it.
pub open spec fn item_json(i: ItemView) -> JsonView {
    JsonView::Object(
        json::put_opt(
            json::put_opt(
                json::put(
                    json::put(Seq::empty(), "sessionId"@, JsonView::Str(i.session_id)),
                    "cwd"@,
                    JsonView::Str(i.cwd),
                ),
                "title"@,
                json::opt_string(i.title),
            ),
            "updatedAt"@,
            json::opt_string(i.updated_at),
        ),
    )
}

/// The answer to a request for the sessions.
pub open spec fn list_json(
    items: Seq<ItemView>,
    cwd: Option<Seq<char>>,
    last_cwd: Option<Seq<char>>,
    cursor: Option<Seq<char>>,
) -> JsonView {
    let shown = in_directory(
        items,
        match cwd {
            Some(c) => Some(c),
            None => last_cwd,
        },
    );
    let start = start_of(cursor);
    JsonView::Object(
        json::put_opt(
            json::put(
                Seq::empty(),
                "sessions"@,
                JsonView::Array(page(shown, start).map_values(|i: ItemView| item_json(i))),
            ),
            "nextCursor"@,
            json::opt_string(next_cursor(shown, start)),
        ),
    )
}

fn directory_items(items: &Vec<PiSessionListItem>, cwd: &str) -> (r: Vec<PiSessionListItem>)
    ensures
        sessions::item_views(r@) == in_directory(sessions::item_views(items@), Some(cwd@)),
{
    let ghost all = sessions::item_views(items@);
    let mut out: Vec<PiSessionListItem> = Vec::new();
    let mut i: usize = 0;
    proof {
        assert(all.take(0) =~= Seq::<ItemView>::empty());
        assert(sessions::item_views(out@) =~= Seq::<ItemView>::empty());
    }
    while i < items.len()
        invariant
            i <= items@.len(),
            all == sessions::item_views(items@),
            sessions::item_views(out@) == in_directory(all.take(i as int), Some(cwd@)),
        decreases items.len() - i,
    {
        proof {
            assert(all.take(i + 1).drop_last() =~= all.take(i as int));
            assert(all.take(i + 1).last() == items@[i as int]@);
        }
        let ghost before = sessions::item_views(out@);
        if text::same(items[i].cwd.as_str(), cwd) {
            let item = items[i].clone();
            out.push(item);
            assert(sessions::item_views(out@) =~= before.push(item@));
        }
        i += 1;
    }
    assert(all.take(i as int) =~= all);
    out
}

fn item_value(i: &PiSessionListItem) -> (r: Json)
    ensures
        r@ == item_json(i@),
{
    broadcast use crate::json::json_view;

    Json::Object(
        JsonMap::new().with("sessionId", Json::text(i.session_id.as_str())).with(
            "cwd",
            Json::text(i.cwd.as_str()),
        ).with_text("title", &i.title).with_text("updatedAt", &i.updated_at),
    )
}

fn page_json(items: &Vec<PiSessionListItem>, cursor: Option<&str>) -> (r: Json)
    ensures
        r@ == JsonView::Object(
            json::put_opt(
                json::put(
                    Seq::empty(),
                    "sessions"@,
                    JsonView::Array(
                        page(sessions::item_views(items@), start_of(text::opt_str(cursor))).map_values(
                            |i: ItemView| item_json(i),
                        ),
                    ),
                ),
                "nextCursor"@,
                json::opt_string(
                    next_cursor(sessions::item_views(items@), start_of(text::opt_str(cursor))),
                ),
            ),
        ),
{
    broadcast use crate::json::json_view;

    let ghost all = sessions::item_views(items@);
    let start: usize = match cursor {
        Some(c) => match text::read_unsigned(c) {
            Some(n) => {
                if n <= usize::MAX as u64 {
                    n as usize
                } else {
                    0
                }
            },
            None => 0,
        },
        None => 0,
    };
    let n: usize = items.len();
    let more: bool = start < n && n - start > LIST_PAGE_SIZE;
    let end: usize = if start >= n {
        start
    } else if more {
        start + LIST_PAGE_SIZE
    } else {
        n
    };
    let mut values: Vec<Json> = Vec::new();
    let mut k: usize = start;
    while k < end
        invariant
            start <= k <= end,
            start < end ==> end <= n,
            n == items@.len(),
            values@.len() == k - start,
            forall|j: int|
                0 <= j < k - start ==> (#[trigger] values@[j])@ == item_json(items@[start + j]@),
        decreases end - k,
    {
        values.push(item_value(&items[k]));
        k += 1;
    }
    assert(json::items_view(values@) =~= page(all, start as nat).map_values(
        |i: ItemView| item_json(i),
    ));
    let next = if more {
        let shown = text::decimal_text(end as u64);
        Some(Json::text(shown.as_str()))
    } else {
        None
    };
    Json::Object(JsonMap::new().with("sessions", Json::Array(values)).with_opt("nextCursor", next))
}

/// The answer to a request for the sessions: those of the directory that was
/// asked for, or else of the last session, a page at a time.
pub fn list_sessions(
    items: &Vec<PiSessionListItem>,
    cwd: Option<&str>,
    last_cwd: Option<&str>,
    cursor: Option<&str>,
) -> (r: Json)
    ensures
        r@ == list_json(
            sessions::item_views(items@),
            text::opt_str(cwd),
            text::opt_str(last_cwd),
            text::opt_str(cursor),
        ),
{
    let effective = match cwd {
        Some(c) => Some(c),
        None => last_cwd,
    };
    match effective {
        Some(c) => {
            let shown = directory_items(items, c);
            page_json(&shown, cursor)
        },
        None => page_json(items, cursor),
    }
}

// ---------------------------------------------------------------------------
// Laws
// ---------------------------------------------------------------------------

/// All pages from here on, one behind the other.
pub open spec fn pages_from(items: Seq<ItemView>, start: nat) -> Seq<ItemView>
    decreases items.len() - start,
{
    if start + LIST_PAGE_SIZE < items.len() {
        page(items, start) + pages_from(items, (start + LIST_PAGE_SIZE) as nat)
    } else {
        page(items, start)
    }
}

/// Following the cursors shows every session once, in order.
pub proof fn pages_show_everything(items: Seq<ItemView>, start: nat)
    requires
        start <= items.len(),
    ensures
        pages_from(items, start) == items.skip(start as int),
    decreases items.len() - start,
{
    if start + LIST_PAGE_SIZE < items.len() {
        let next = (start + LIST_PAGE_SIZE) as nat;
        pages_show_everything(items, next);
        assert(page(items, start) + items.skip(next as int) =~= items.skip(start as int));
    } else if start >= items.len() {
        assert(page(items, start) =~= items.skip(start as int));
    }
}

/// A cursor leads to the page behind the one it came with.
pub proof fn cursors_lead_on(items: Seq<ItemView>, start: nat)
    requires
        items.len() <= usize::MAX,
        next_cursor(items, start) is Some,
    ensures
        start_of(next_cursor(items, start)) == start + LIST_PAGE_SIZE,
{
    let n = (start + LIST_PAGE_SIZE) as nat;
    text::decimal_reads_back(n);
    let s = text::decimal(n);
    assert(text::is_digit(s[0]));
    assert(s[0] != '+');
}

/// A page is never longer than the limit, and is only empty where the list
/// ends.
pub proof fn pages_are_bounded(items: Seq<ItemView>, start: nat)
    ensures
        page(items, start).len() <= LIST_PAGE_SIZE,
        page(items, start).len() == 0 ==> start >= items.len(),
{
}

/// Only sessions of the directory are listed, and all of them.
pub proof fn a_directory_lists_its_own(items: Seq<ItemView>, cwd: Seq<char>, i: ItemView)
    ensures
        in_directory(items, Some(cwd)).contains(i) == (items.contains(i) && i.cwd == cwd),
    decreases items.len(),
{
    let shown = in_directory(items, Some(cwd));
    if items.len() > 0 {
        let front = items.drop_last();
        a_directory_lists_its_own(front, cwd, i);
        let before = in_directory(front, Some(cwd));
        if items.contains(i) {
            let k = choose|k: int| 0 <= k < items.len() && items[k] == i;
            if k < front.len() {
                assert(front[k] == i);
            }
        }
        if front.contains(i) {
            let k = choose|k: int| 0 <= k < front.len() && front[k] == i;
            assert(items[k] == i);
        }
        assert(items[items.len() - 1] == items.last());
        if items.last().cwd == cwd {
            if before.contains(i) {
                let k = choose|k: int| 0 <= k < before.len() && before[k] == i;
                assert(shown[k] == i);
            }
            assert(shown[before.len() as int] == items.last());
            if shown.contains(i) {
                let k = choose|k: int| 0 <= k < shown.len() && shown[k] == i;
                if k < before.len() {
                    assert(before[k] == i);
                }
            }
        }
    }
}

/// A page is a stretch of the list: its sessions are those from its start on,
/// in the list's order.
pub proof fn a_page_is_a_stretch(items: Seq<ItemView>, start: nat, k: int)
    requires
        0 <= k < page(items, start).len(),
    ensures
        page(items, start)[k] == items[start + k],
        start + k < items.len(),
        start < items.len() && page(items, start).len() < 50 ==> start + page(items, start).len()
            == items.len(),
{
}

/// The sessions of a directory keep the list's order; without a directory all
/// sessions are shown.
pub proof fn a_directory_keeps_the_order(items: Seq<ItemView>, i: ItemView, cwd: Seq<char>)
    ensures
        in_directory(items, None) == items,
        i.cwd == cwd ==> in_directory(items.push(i), Some(cwd)) == in_directory(
            items,
            Some(cwd),
        ).push(i),
        i.cwd != cwd ==> in_directory(items.push(i), Some(cwd)) == in_directory(items, Some(cwd)),
{
    assert(items.push(i).drop_last() =~= items);
}

/// A list shows its page, each session with its identifier, its directory, its
/// title and its time; the directory asked for counts, else the last one used.
/// The cursor to the next page is there exactly when there is one.
pub proof fn a_list_shows_its_page(
    items: Seq<ItemView>,
    cwd: Option<Seq<char>>,
    last_cwd: Option<Seq<char>>,
    cursor: Option<Seq<char>>,
)
    ensures
        ({
            let shown = in_directory(
                items,
                if cwd is Some {
                    cwd
                } else {
                    last_cwd
                },
            );
            let start = start_of(cursor);
            let r = list_json(items, cwd, last_cwd, cursor);
            &&& json::member(r, "sessions"@) matches Some(JsonView::Array(rows)) && rows.len()
                == page(shown, start).len() && forall|k: int|
                0 <= k < rows.len() ==> shows_session(#[trigger] rows[k], page(shown, start)[k])
            &&& start + 50 < shown.len() ==> json::member(r, "nextCursor"@) == Some(
                JsonView::Str(text::decimal((start + 50) as nat)),
            )
            &&& start + 50 >= shown.len() ==> json::member(r, "nextCursor"@) is None
        }),
{
    broadcast use json::entry_of_put;

    reveal_strlit("sessions");
    reveal_strlit("nextCursor");
    assert("sessions"@.len() == 8 && "nextCursor"@.len() == 10);
    let shown = in_directory(
        items,
        if cwd is Some {
            cwd
        } else {
            last_cwd
        },
    );
    let some = page(shown, start_of(cursor));
    let rows = some.map_values(|i: ItemView| item_json(i));
    assert(json::member(list_json(items, cwd, last_cwd, cursor), "sessions"@) == Some(
        JsonView::Array(rows),
    ));
    assert forall|k: int| 0 <= k < rows.len() implies shows_session(#[trigger] rows[k], some[k]) by {
        session_is_shown(some[k]);
    }
}

/// Whether a value shows a session.
pub open spec fn shows_session(v: JsonView, i: ItemView) -> bool {
    &&& json::member(v, "sessionId"@) == Some(JsonView::Str(i.session_id))
    &&& json::member(v, "cwd"@) == Some(JsonView::Str(i.cwd))
    &&& json::member(v, "title"@) == (match i.title {
        Some(t) => Some(JsonView::Str(t)),
        None => None,
    })
    &&& json::member(v, "updatedAt"@) == (match i.updated_at {
        Some(t) => Some(JsonView::Str(t)),
        None => None,
    })
}

proof fn session_is_shown(i: ItemView)
    ensures
        shows_session(item_json(i), i),
{
    broadcast use json::entry_of_put;

    reveal_strlit("sessionId");
    reveal_strlit("cwd");
    reveal_strlit("title");
    reveal_strlit("updatedAt");
    assert("sessionId"@.len() == 9 && "cwd"@.len() == 3 && "title"@.len() == 5);
    assert("updatedAt"@.len() == 9);
    assert("sessionId"@[0] != "updatedAt"@[0]);
}

/// The first page is asked for without a cursor; a cursor that is no number
/// asks for it too.
pub proof fn pages_start_where_the_cursor_says(n: nat)
    requires
        n <= usize::MAX,
    ensures
        start_of(None) == 0,
        start_of(Some(text::decimal(n))) == n,
{
    text::decimal_reads_back(n);
    assert(text::is_digit(text::decimal(n)[0]));
}

/// A session is where the store says, else where pi's files say; then it is new
/// to the store.
pub proof fn the_store_comes_first(stored: Option<StoredView>, found: Option<ItemView>)
    ensures
        stored matches Some(s) ==> location(stored, found) == Some(
            (s.cwd, s.session_file, false),
        ),
        stored is None ==> (found matches Some(i) ==> location(stored, found) == Some(
            (i.cwd, i.session_file, true),
        )),
        stored is None && found is None ==> location(stored, found) is None,
{
}

/// A quiet start tells only of an update, on a line of its own.
pub proof fn a_quiet_start_tells_of_updates(notice: Option<Seq<char>>)
    ensures
        notice is None ==> quiet_prelude(notice).len() == 0,
        notice matches Some(n) ==> quiet_prelude(notice) == n + "\n"@,
{
}

/// The file of a session is recorded when pi names one that is not blank, and
/// names it for that session.
pub proof fn named_files_are_recorded(
    state_id: Seq<char>,
    file: Seq<char>,
    session_id: Seq<char>,
)
    ensures
        state_id == session_id && text::trimmed(file).len() > 0 ==> recordable(
            state_id,
            Some(file),
            session_id,
        ) == Some(file),
        state_id != session_id || text::trimmed(file).len() == 0 ==> recordable(
            state_id,
            Some(file),
            session_id,
        ) is None,
        recordable(state_id, None, session_id) is None,
{
}

} // verus!
