//! The session map: which file of pi's holds which session.
//!
//! The map is one JSON file, `{ "version": 1, "sessions": { .. } }`. A
//! [`SessionStore`] keeps what it read; an update always starts from the file
//! as it is now, so that stores that share a file lose nothing.

use crate::json;
use crate::json::{Json, JsonMap, JsonView, NumberView};
use crate::path;
use crate::pi::fields;
use crate::text;
use vstd::prelude::*;
use vstd::string::*;

verus! {

// ---------------------------------------------------------------------------
// Entries
// ---------------------------------------------------------------------------

/// What the map says of a session.
#[derive(Debug)]
pub struct StoredSession {
    /// The session.
    pub session_id: String,
    /// Its working directory.
    pub cwd: String,
    /// pi's file of the session.
    pub session_file: String,
    /// Its further root directories.
    pub additional_directories: Vec<String>,
    /// When the entry was written.
    pub updated_at: String,
}

/// The model of a [`StoredSession`].
pub struct StoredView {
    pub session_id: Seq<char>,
    pub cwd: Seq<char>,
    pub session_file: Seq<char>,
    pub additional_directories: Seq<Seq<char>>,
    pub updated_at: Seq<char>,
}

impl View for StoredSession {
    type V = StoredView;

    open spec fn view(&self) -> StoredView {
        StoredView {
            session_id: self.session_id@,
            cwd: self.cwd@,
            session_file: self.session_file@,
            additional_directories: text::texts(self.additional_directories@),
            updated_at: self.updated_at@,
        }
    }
}

impl Clone for StoredSession {
    fn clone(&self) -> (r: StoredSession)
        ensures
            r@ == self@,
    {
        StoredSession {
            session_id: self.session_id.clone(),
            cwd: self.cwd.clone(),
            session_file: self.session_file.clone(),
            additional_directories: text::clone_texts(&self.additional_directories),
            updated_at: self.updated_at.clone(),
        }
    }
}

/// The JSON strings of a list of texts.
pub open spec fn text_values(v: Seq<Seq<char>>) -> JsonView {
    JsonView::Array(v.map_values(|s: Seq<char>| JsonView::Str(s)))
}

/// An entry as JSON. A session without further roots has no member for them.
pub open spec fn stored_json(s: StoredView) -> JsonView {
    let named = json::put(
        json::put(
            json::put(Seq::empty(), "sessionId"@, JsonView::Str(s.session_id)),
            "cwd"@,
            JsonView::Str(s.cwd),
        ),
        "sessionFile"@,
        JsonView::Str(s.session_file),
    );
    let rooted = if s.additional_directories.len() == 0 {
        named
    } else {
        json::put(named, "additionalDirectories"@, text_values(s.additional_directories))
    };
    JsonView::Object(json::put(rooted, "updatedAt"@, JsonView::Str(s.updated_at)))
}

/// The further roots of an entry: none when the member is missing.
pub open spec fn roots_in(v: JsonView) -> Option<Seq<Seq<char>>> {
    match json::member(v, "additionalDirectories"@) {
        None => Some(Seq::empty()),
        Some(_) => fields::text_list(v, "additionalDirectories"@),
    }
}

/// The fields of an entry, in order.
pub open spec fn stored_fields() -> Seq<Seq<char>> {
    seq!["sessionId"@, "cwd"@, "sessionFile"@, "additionalDirectories"@, "updatedAt"@]
}

/// The record of an entry: a list stands for its fields.
pub open spec fn stored_record(v: JsonView) -> JsonView {
    fields::as_record(v, stored_fields(), 5)
}

/// The entry that a JSON value is.
pub open spec fn stored_in(v: JsonView) -> Option<StoredView> {
    let v = stored_record(v);
    match (
        json::str_member(v, "sessionId"@),
        json::str_member(v, "cwd"@),
        json::str_member(v, "sessionFile"@),
        json::str_member(v, "updatedAt"@),
        roots_in(v),
    ) {
        (
            Some(session_id),
            Some(cwd),
            Some(session_file),
            Some(updated_at),
            Some(additional_directories),
        ) => Some(
            StoredView { session_id, cwd, session_file, additional_directories, updated_at },
        ),
        _ => None,
    }
}

/// The model of an optional entry.
pub open spec fn opt_stored(o: Option<StoredSession>) -> Option<StoredView> {
    match o {
        Some(s) => Some(s@),
        None => None,
    }
}

impl StoredSession {
    fn to_json(&self) -> (r: Json)
        ensures
            r@ == stored_json(self@),
    {
        broadcast use json::json_view;

        let named = JsonMap::new().with("sessionId", Json::text(self.session_id.as_str())).with(
            "cwd",
            Json::text(self.cwd.as_str()),
        ).with("sessionFile", Json::text(self.session_file.as_str()));
        let rooted = if self.additional_directories.len() == 0 {
            named
        } else {
            named.with("additionalDirectories", Json::text_list(&self.additional_directories))
        };
        Json::Object(rooted.with("updatedAt", Json::text(self.updated_at.as_str())))
    }

    fn from_json(v: &Json) -> (r: Option<StoredSession>)
        ensures
            opt_stored(r) == stored_in(v@),
    {
        let names = ["sessionId", "cwd", "sessionFile", "additionalDirectories", "updatedAt"];
        assert(fields::names_view(names@) =~= stored_fields());
        match fields::read_record(v, &names, 5) {
            Some(x) => StoredSession::from_record(&x),
            None => StoredSession::from_record(v),
        }
    }

    fn from_record(v: &Json) -> (r: Option<StoredSession>)
        requires
            !(v@ is Array),
        ensures
            opt_stored(r) == stored_in(v@),
    {
        let roots = match v.get("additionalDirectories") {
            None => {
                let none: Vec<String> = Vec::new();
                assert(text::texts(none@) =~= Seq::empty());
                Some(none)
            },
            Some(_) => fields::read_text_list(v, "additionalDirectories"),
        };
        let session_id = fields::read_text(v, "sessionId");
        let cwd = fields::read_text(v, "cwd");
        let session_file = fields::read_text(v, "sessionFile");
        let updated_at = fields::read_text(v, "updatedAt");
        match (session_id, cwd, session_file, updated_at, roots) {
            (
                Some(session_id),
                Some(cwd),
                Some(session_file),
                Some(updated_at),
                Some(additional_directories),
            ) => Some(
                StoredSession { session_id, cwd, session_file, additional_directories, updated_at },
            ),
            _ => None,
        }
    }
}

proof fn texts_read_back(v: Seq<Seq<char>>)
    ensures
        fields::texts_in(v.map_values(|s: Seq<char>| JsonView::Str(s))) == Some(v),
    decreases v.len(),
{
    let m = v.map_values(|s: Seq<char>| JsonView::Str(s));
    if v.len() == 0 {
        assert(v =~= Seq::empty());
    } else {
        texts_read_back(v.drop_last());
        assert(m.drop_last() =~= v.drop_last().map_values(|s: Seq<char>| JsonView::Str(s)));
        assert(v.drop_last().push(v.last()) =~= v);
    }
}

/// An entry that is written is read back.
pub proof fn entries_read_back(s: StoredView)
    ensures
        stored_in(stored_json(s)) == Some(s),
        json::plain_within(stored_json(s), 2),
{
    reveal_strlit("sessionId");
    reveal_strlit("cwd");
    reveal_strlit("sessionFile");
    reveal_strlit("additionalDirectories");
    reveal_strlit("updatedAt");
    assert("sessionId"@.len() == 9 && "cwd"@.len() == 3 && "sessionFile"@.len() == 11);
    assert("additionalDirectories"@.len() == 21 && "updatedAt"@.len() == 9);
    assert("sessionId"@[0] == 's' && "updatedAt"@[0] == 'u');
    let id = ("sessionId"@, JsonView::Str(s.session_id));
    let cwd = ("cwd"@, JsonView::Str(s.cwd));
    let file = ("sessionFile"@, JsonView::Str(s.session_file));
    let dirs = ("additionalDirectories"@, text_values(s.additional_directories));
    let at = ("updatedAt"@, JsonView::Str(s.updated_at));
    let e0 = Seq::<(Seq<char>, JsonView)>::empty();
    json::put_new(e0, id.0, id.1);
    let e1 = e0.push(id);
    json::put_new(e1, cwd.0, cwd.1);
    let e2 = e1.push(cwd);
    json::put_new(e2, file.0, file.1);
    let e3 = e2.push(file);
    reveal_with_fuel(json::entry, 7);
    texts_read_back(s.additional_directories);
    assert(json::plain_within(dirs.1, 1)) by {
        let items = dirs.1->Array_0;
        assert forall|i: int| 0 <= i < items.len() implies json::plain_within(
            #[trigger] items[i],
            0,
        ) by {}
    }
    let e4 = if s.additional_directories.len() == 0 {
        e3
    } else {
        json::put_new(e3, dirs.0, dirs.1);
        e3.push(dirs)
    };
    json::put_new(e4, at.0, at.1);
    let e5 = e4.push(at);
    assert(stored_json(s) == JsonView::Object(e5));
    assert(json::entry(e5, id.0) == Some(id.1));
    assert(e5.skip(1)[0] == cwd);
    assert(json::entry(e5, cwd.0) == Some(cwd.1));
    assert(e5.skip(1).skip(1)[0] == file);
    assert(json::entry(e5, file.0) == Some(file.1));
    assert(e5.skip(1).skip(1).skip(1)[0] == if s.additional_directories.len() == 0 {
        at
    } else {
        dirs
    });
    if s.additional_directories.len() == 0 {
        assert(e5.skip(1).skip(1).skip(1).skip(1).len() == 0);
        assert(json::entry(e5, dirs.0) is None);
        assert(s.additional_directories =~= Seq::empty());
    } else {
        assert(json::entry(e5, dirs.0) == Some(dirs.1));
        assert(e5.skip(1).skip(1).skip(1).skip(1)[0] == at);
    }
    assert(json::entry(e5, at.0) == Some(at.1));
    json::short_name(id.0);
    assert(e5[0] == id);
    assert forall|i: int| 0 <= i < e5.len() implies json::plain_within(
        (#[trigger] e5[i]).1,
        1,
    ) by {}
}

// ---------------------------------------------------------------------------
// The map
// ---------------------------------------------------------------------------

/// The entries of a map, by session, in the order in which they are written.
pub struct SessionMapFile {
    sessions: Vec<(String, StoredSession)>,
}

/// The entry of a session.
pub open spec fn find(db: Seq<(Seq<char>, StoredView)>, id: Seq<char>) -> Option<StoredView>
    decreases db.len(),
{
    if db.len() == 0 {
        None
    } else if db[0].0 == id {
        Some(db[0].1)
    } else {
        find(db.skip(1), id)
    }
}

/// The map with the entry of a session set: in place when it is there, behind
/// the others when it is not.
pub open spec fn placed(db: Seq<(Seq<char>, StoredView)>, id: Seq<char>, s: StoredView) -> Seq<
    (Seq<char>, StoredView),
>
    decreases db.len(),
{
    if db.len() == 0 {
        seq![(id, s)]
    } else if db[0].0 == id {
        seq![(id, s)] + db.skip(1)
    } else {
        seq![db[0]] + placed(db.skip(1), id, s)
    }
}

/// The map without the entry of a session.
pub open spec fn removed(db: Seq<(Seq<char>, StoredView)>, id: Seq<char>) -> Seq<
    (Seq<char>, StoredView),
>
    decreases db.len(),
{
    if db.len() == 0 {
        Seq::empty()
    } else if db[0].0 == id {
        db.skip(1)
    } else {
        seq![db[0]] + removed(db.skip(1), id)
    }
}

/// No session has two entries.
pub open spec fn distinct(db: Seq<(Seq<char>, StoredView)>) -> bool {
    forall|i: int, j: int| 0 <= i < j < db.len() ==> (#[trigger] db[i]).0 != (#[trigger] db[j]).0
}

/// The members that a map has as JSON.
pub open spec fn sessions_json(db: Seq<(Seq<char>, StoredView)>) -> Seq<(Seq<char>, JsonView)>
    decreases db.len(),
{
    if db.len() == 0 {
        Seq::empty()
    } else {
        json::put(sessions_json(db.drop_last()), db.last().0, stored_json(db.last().1))
    }
}

/// A map as JSON.
pub open spec fn file_json(db: Seq<(Seq<char>, StoredView)>) -> JsonView {
    JsonView::Object(
        json::put(
            json::put(Seq::empty(), "version"@, JsonView::Number(NumberView::Int(1))),
            "sessions"@,
            JsonView::Object(sessions_json(db)),
        ),
    )
}

/// The map that JSON members are; `None` when one of them is no entry.
pub open spec fn sessions_in(es: Seq<(Seq<char>, JsonView)>) -> Option<
    Seq<(Seq<char>, StoredView)>,
>
    decreases es.len(),
{
    if es.len() == 0 {
        Some(Seq::empty())
    } else {
        match (sessions_in(es.drop_last()), stored_in(es.last().1)) {
            (Some(before), Some(s)) => Some(placed(before, es.last().0, s)),
            _ => None,
        }
    }
}

/// The record of a map: a list stands for its fields.
pub open spec fn file_record(v: JsonView) -> JsonView {
    fields::as_record(v, seq!["version"@, "sessions"@], 2)
}

/// The map that a JSON value is, when it is one of this version.
pub open spec fn file_in(v: JsonView) -> Option<Seq<(Seq<char>, StoredView)>> {
    let v = file_record(v);
    match (json::u64_member(v, "version"@), json::member(v, "sessions"@)) {
        (Some(version), Some(JsonView::Object(es))) => if version == 1 {
            sessions_in(es)
        } else {
            None
        },
        _ => None,
    }
}

/// The map that a text is.
pub open spec fn map_in(raw: Seq<char>) -> Option<Seq<(Seq<char>, StoredView)>> {
    match json::json_in(raw) {
        Some(v) => file_in(v),
        None => None,
    }
}

/// The map that a file holds: the empty map when there is no readable one.
pub open spec fn loaded(raw: Option<Seq<char>>) -> Seq<(Seq<char>, StoredView)> {
    match raw {
        Some(t) => match map_in(t) {
            Some(db) => db,
            None => Seq::empty(),
        },
        None => Seq::empty(),
    }
}

impl SessionMapFile {
    #[verifier::type_invariant]
    spec fn one_entry_each(self) -> bool {
        forall|i: int, j: int|
            0 <= i < j < self.sessions@.len() ==> (#[trigger] self.sessions@[i]).0@ != (
            #[trigger] self.sessions@[j]).0@
    }
}

impl View for SessionMapFile {
    type V = Seq<(Seq<char>, StoredView)>;

    closed spec fn view(&self) -> Seq<(Seq<char>, StoredView)> {
        Seq::new(self.sessions@.len(), |i: int| (self.sessions@[i].0@, self.sessions@[i].1@))
    }
}

proof fn placed_at(db: Seq<(Seq<char>, StoredView)>, id: Seq<char>, s: StoredView, i: int)
    requires
        0 <= i <= db.len(),
        i < db.len() ==> db[i].0 == id,
        forall|j: int| 0 <= j < i ==> (#[trigger] db[j]).0 != id,
    ensures
        i < db.len() ==> placed(db, id, s) == db.update(i, (id, s)),
        i == db.len() ==> placed(db, id, s) == db.push((id, s)),
        i < db.len() ==> removed(db, id) == db.remove(i) && find(db, id) == Some(db[i].1),
        i == db.len() ==> removed(db, id) == db && find(db, id) is None,
    decreases db.len(),
{
    if db.len() == 0 {
        assert(placed(db, id, s) =~= db.push((id, s)));
        assert(removed(db, id) =~= db);
    } else if db[0].0 == id {
        assert(i == 0);
        assert(placed(db, id, s) =~= db.update(0, (id, s)));
        assert(removed(db, id) =~= db.remove(0));
    } else {
        let rest = db.skip(1);
        assert forall|j: int| 0 <= j < i - 1 implies (#[trigger] rest[j]).0 != id by {
            assert(rest[j] == db[j + 1]);
        }
        placed_at(rest, id, s, i - 1);
        if i < db.len() {
            assert(seq![db[0]] + rest.update(i - 1, (id, s)) =~= db.update(i, (id, s)));
            assert(seq![db[0]] + rest.remove(i - 1) =~= db.remove(i));
        } else {
            assert(seq![db[0]] + rest.push((id, s)) =~= db.push((id, s)));
            assert(seq![db[0]] + rest =~= db);
        }
    }
}

impl SessionMapFile {
    /// The empty map.
    fn empty() -> (r: SessionMapFile)
        ensures
            r@ == Seq::<(Seq<char>, StoredView)>::empty(),
    {
        let r = SessionMapFile { sessions: Vec::new() };
        assert(r@ =~= Seq::<(Seq<char>, StoredView)>::empty());
        r
    }

    fn position(&self, id: &str) -> (i: usize)
        ensures
            i <= self.sessions@.len(),
            i < self.sessions@.len() ==> self.sessions@[i as int].0@ == id@,
            forall|j: int| 0 <= j < i ==> (#[trigger] self.sessions@[j]).0@ != id@,
            forall|s: StoredView| #[trigger]
                placed(self@, id@, s) == if i < self@.len() {
                    self@.update(i as int, (id@, s))
                } else {
                    self@.push((id@, s))
                },
            i < self@.len() ==> removed(self@, id@) == self@.remove(i as int) && find(
                self@,
                id@,
            ) == Some(self@[i as int].1),
            i == self@.len() ==> removed(self@, id@) == self@ && find(self@, id@) is None,
            self@.len() == self.sessions@.len(),
    {
        let mut i: usize = 0;
        while i < self.sessions.len() && !text::same(self.sessions[i].0.as_str(), id)
            invariant
                i <= self.sessions@.len(),
                forall|j: int| 0 <= j < i ==> (#[trigger] self.sessions@[j]).0@ != id@,
            decreases self.sessions.len() - i,
        {
            i += 1;
        }
        proof {
            let db = self@;
            assert forall|j: int| 0 <= j < i implies (#[trigger] db[j]).0 != id@ by {
                assert(self.sessions@[j].0@ != id@);
            }
            assert forall|s: StoredView| #[trigger]
                placed(db, id@, s) == if i < db.len() {
                    db.update(i as int, (id@, s))
                } else {
                    db.push((id@, s))
                } by {
                placed_at(db, id@, s, i as int);
            }
            let any = StoredView {
                session_id: id@,
                cwd: id@,
                session_file: id@,
                additional_directories: Seq::empty(),
                updated_at: id@,
            };
            placed_at(db, id@, any, i as int);
        }
        i
    }

    /// The entry of a session.
    pub fn get(&self, id: &str) -> (r: Option<StoredSession>)
        ensures
            opt_stored(r) == find(self@, id@),
    {
        let i = self.position(id);
        if i < self.sessions.len() {
            Some(self.sessions[i].1.clone())
        } else {
            None
        }
    }

    /// The map with an entry set.
    fn with(self, id: &str, s: StoredSession) -> (r: SessionMapFile)
        ensures
            r@ == placed(self@, id@, s@),
    {
        proof {
            use_type_invariant(&self);
        }
        let ghost before = self@;
        let i = self.position(id);
        let ghost es = self.sessions@;
        let mut sessions = self.sessions;
        let entry = (id.to_owned(), s);
        if i < sessions.len() {
            sessions.set(i, entry);
            assert(sessions@ == es.update(i as int, entry));
        } else {
            sessions.push(entry);
        }
        let r = SessionMapFile { sessions };
        assert(r@ =~= placed(before, id@, s@));
        r
    }

    /// The map without an entry, and whether it was there.
    fn without(self, id: &str) -> (r: (SessionMapFile, bool))
        ensures
            r.0@ == removed(self@, id@),
            r.1 == (find(self@, id@) is Some),
    {
        proof {
            use_type_invariant(&self);
        }
        let ghost before = self@;
        let i = self.position(id);
        if i < self.sessions.len() {
            let ghost es = self.sessions@;
            let mut sessions = self.sessions;
            let _gone = sessions.remove(i);
            assert(sessions@ == es.remove(i as int));
            let r = SessionMapFile { sessions };
            assert(r@ =~= before.remove(i as int));
            (r, true)
        } else {
            (self, false)
        }
    }

    /// The map as JSON.
    pub fn to_json(&self) -> (r: Json)
        ensures
            r@ == file_json(self@),
    {
        broadcast use json::json_view;

        let mut members = JsonMap::new();
        let mut i: usize = 0;
        assert(self@.take(0) =~= Seq::empty());
        while i < self.sessions.len()
            invariant
                i <= self.sessions@.len(),
                self@.len() == self.sessions@.len(),
                members@ == sessions_json(self@.take(i as int)),
            decreases self.sessions.len() - i,
        {
            proof {
                assert(self@.take(i + 1).drop_last() =~= self@.take(i as int));
                assert(self@.take(i + 1).last() == self@[i as int]);
            }
            members = members.with(self.sessions[i].0.as_str(), self.sessions[i].1.to_json());
            i += 1;
        }
        assert(self@.take(i as int) =~= self@);
        Json::Object(
            JsonMap::new().with("version", Json::unsigned(1)).with("sessions", Json::Object(members)),
        )
    }

    /// The map that a JSON value is.
    pub fn from_json(v: &Json) -> (r: Option<SessionMapFile>)
        ensures
            match r {
                Some(db) => file_in(v@) == Some(db@),
                None => file_in(v@) is None,
            },
    {
        let names = ["version", "sessions"];
        assert(fields::names_view(names@) =~= seq!["version"@, "sessions"@]);
        match fields::read_record(v, &names, 2) {
            Some(x) => SessionMapFile::from_record(&x),
            None => SessionMapFile::from_record(v),
        }
    }

    fn from_record(v: &Json) -> (r: Option<SessionMapFile>)
        requires
            !(v@ is Array),
        ensures
            match r {
                Some(db) => file_in(v@) == Some(db@),
                None => file_in(v@) is None,
            },
    {
        broadcast use json::json_view;

        let version = v.get_u64("version");
        match (version, v.get("sessions")) {
            (Some(version), Some(Json::Object(members))) => {
                if version == 1 {
                    read_sessions(members)
                } else {
                    None
                }
            },
            _ => None,
        }
    }

    /// The map that a file holds.
    fn load(raw: Option<&str>) -> (r: SessionMapFile)
        ensures
            r@ == loaded(text::opt_str(raw)),
            lasts(r@),
    {
        match raw {
            Some(t) => match json::parse(t) {
                Some(v) => match SessionMapFile::from_json(&v) {
                    Some(db) => {
                        proof {
                            read_maps_last(v@);
                        }
                        db
                    },
                    None => SessionMapFile::empty(),
                },
                None => SessionMapFile::empty(),
            },
            None => SessionMapFile::empty(),
        }
    }

    /// The text of the file.
    fn body(&self) -> (r: String)
        ensures
            r@ == body_of(self@),
            lasts(self@) ==> loaded(Some(r@)) == self@,
    {
        proof {
            use_type_invariant(self);
            assert(distinct(self@));
            if lasts(self@) {
                maps_read_back(self@);
                json::within_more(file_json(self@), 4, 127);
            }
        }
        text::cat2(self.to_json().pretty().as_str(), "\n")
    }
}

impl Clone for SessionMapFile {
    fn clone(&self) -> (r: SessionMapFile)
        ensures
            r@ == self@,
    {
        proof {
            use_type_invariant(self);
        }
        let mut sessions: Vec<(String, StoredSession)> = Vec::new();
        let mut i: usize = 0;
        while i < self.sessions.len()
            invariant
                i <= self.sessions@.len(),
                sessions@.len() == i,
                forall|k: int|
                    0 <= k < i ==> (#[trigger] sessions@[k]).0@ == self.sessions@[k].0@
                        && sessions@[k].1@ == self.sessions@[k].1@,
            decreases self.sessions.len() - i,
        {
            sessions.push((self.sessions[i].0.clone(), self.sessions[i].1.clone()));
            i += 1;
        }
        let r = SessionMapFile { sessions };
        assert(r@ =~= self@);
        r
    }
}

proof fn sessions_in_prefix(es: Seq<(Seq<char>, JsonView)>, i: int)
    requires
        0 <= i <= es.len(),
        sessions_in(es) is Some,
    ensures
        sessions_in(es.take(i)) is Some,
    decreases es.len() - i,
{
    if i == es.len() {
        assert(es.take(i) =~= es);
    } else {
        sessions_in_prefix(es, i + 1);
        assert(es.take(i + 1).drop_last() =~= es.take(i));
    }
}

fn read_sessions(members: &JsonMap) -> (r: Option<SessionMapFile>)
    ensures
        match r {
            Some(db) => sessions_in(members@) == Some(db@),
            None => sessions_in(members@) is None,
        },
{
    let mut db = SessionMapFile::empty();
    let mut i: usize = 0;
    assert(members@.take(0) =~= Seq::empty());
    while i < members.len()
        invariant
            i <= members@.len(),
            sessions_in(members@.take(i as int)) == Some(db@),
        decreases members@.len() - i,
    {
        proof {
            assert(members@.take(i + 1).drop_last() =~= members@.take(i as int));
            assert(members@.take(i + 1).last() == members@[i as int]);
        }
        match StoredSession::from_json(members.value_at(i)) {
            Some(s) => {
                db = db.with(members.name_at(i), s);
            },
            None => {
                proof {
                    if sessions_in(members@) is Some {
                        sessions_in_prefix(members@, i + 1);
                    }
                }
                return None;
            },
        }
        i += 1;
    }
    assert(members@.take(i as int) =~= members@);
    Some(db)
}

/// The text of a map's file.
pub open spec fn body_of(db: Seq<(Seq<char>, StoredView)>) -> Seq<char> {
    json::pretty_json(file_json(db)) + "\n"@
}

proof fn sessions_read_back(db: Seq<(Seq<char>, StoredView)>)
    requires
        distinct(db),
    ensures
        sessions_json(db).len() == db.len(),
        forall|i: int|
            0 <= i < db.len() ==> #[trigger] sessions_json(db)[i] == (
                db[i].0,
                stored_json(db[i].1),
            ),
        sessions_in(sessions_json(db)) == Some(db),
    decreases db.len(),
{
    if db.len() > 0 {
        let before = db.drop_last();
        sessions_read_back(before);
        let es = sessions_json(before);
        let e = (db.last().0, stored_json(db.last().1));
        assert forall|j: int| 0 <= j < es.len() implies (#[trigger] es[j]).0 != e.0 by {
            assert(es[j] == (before[j].0, stored_json(before[j].1)));
            assert(before[j] == db[j]);
        }
        json::put_new(es, e.0, e.1);
        assert(es.push(e).drop_last() =~= es);
        entries_read_back(db.last().1);
        assert forall|j: int| 0 <= j < before.len() implies (#[trigger] before[j]).0
            != db.last().0 by {
            assert(before[j] == db[j]);
        }
        placed_at(before, db.last().0, db.last().1, before.len() as int);
        assert(before.push(db.last()) =~= db);
        assert forall|i: int| 0 <= i < db.len() implies #[trigger] sessions_json(db)[i] == (
            db[i].0,
            stored_json(db[i].1),
        ) by {
            if i < before.len() {
                assert(sessions_json(db)[i] == es[i]);
                assert(before[i] == db[i]);
            }
        }
    } else {
        assert(db =~= Seq::empty());
    }
}

/// Whether the map's file can be read back: the JSON parser takes an object for
/// a JSON text of its own when its first member has a certain name.
pub open spec fn lasts(db: Seq<(Seq<char>, StoredView)>) -> bool {
    db.len() > 0 ==> db[0].0 != json::raw_name()
}

/// A map that is written is read back.
pub proof fn maps_read_back(db: Seq<(Seq<char>, StoredView)>)
    requires
        distinct(db),
        lasts(db),
    ensures
        file_in(file_json(db)) == Some(db),
        json::plain_within(file_json(db), 4),
{
    sessions_read_back(db);
    let es = sessions_json(db);
    let version = ("version"@, JsonView::Number(NumberView::Int(1)));
    let sessions = ("sessions"@, JsonView::Object(es));
    reveal_strlit("version");
    reveal_strlit("sessions");
    assert("version"@.len() == 7 && "sessions"@.len() == 8);
    let e0 = Seq::<(Seq<char>, JsonView)>::empty();
    json::put_new(e0, version.0, version.1);
    let e1 = e0.push(version);
    json::put_new(e1, sessions.0, sessions.1);
    let e2 = e1.push(sessions);
    reveal_with_fuel(json::entry, 3);
    assert(json::entry(e2, version.0) == Some(version.1));
    assert(e2.skip(1)[0] == sessions);
    assert(json::entry(e2, sessions.0) == Some(sessions.1));
    assert(json::plain_within(sessions.1, 3)) by {
        assert(es.len() > 0 ==> es[0].0 == db[0].0);
        assert forall|i: int| 0 <= i < es.len() implies json::plain_within(
            (#[trigger] es[i]).1,
            2,
        ) by {
            entries_read_back(db[i].1);
        }
    }
    json::short_name(version.0);
    assert(e2[0] == version);
    assert forall|i: int| 0 <= i < e2.len() implies json::plain_within(
        (#[trigger] e2[i]).1,
        3,
    ) by {}
}

/// The first id of a map is the name of the first member that it was read
/// from.
proof fn first_id_is_read(es: Seq<(Seq<char>, JsonView)>)
    requires
        sessions_in(es) is Some,
        es.len() > 0,
    ensures
        sessions_in(es)->0.len() > 0,
        sessions_in(es)->0[0].0 == es[0].0,
    decreases es.len(),
{
    let before = es.drop_last();
    if before.len() > 0 {
        assert(before[0] == es[0]);
        first_id_is_read(before);
    } else {
        assert(sessions_in(before)->0.len() == 0);
        assert(es.last() == es[0]);
    }
}

/// A map that was read from a file can be read back when it is written again.
pub proof fn read_maps_last(v: JsonView)
    requires
        json::unmarked(v),
        file_in(v) is Some,
    ensures
        lasts(file_in(v)->0),
{
    let v0 = file_record(v);
    if let JsonView::Array(items) = v {
        reveal_strlit("version");
        reveal_strlit("sessions");
        reveal_with_fuel(fields::spread, 3);
        reveal_with_fuel(json::put, 3);
        assert(items.drop_last().drop_last() =~= Seq::empty());
        assert(v0->Object_0 =~= seq![("version"@, items[0]), ("sessions"@, items[1])]);
    }
    json::entry_unmarked(v0->Object_0, "sessions"@);
    let es = json::member(v0, "sessions"@)->0->Object_0;
    if es.len() > 0 {
        first_id_is_read(es);
    }
}

/// Setting an entry keeps the first id, when there is one.
pub proof fn placing_lasts(db: Seq<(Seq<char>, StoredView)>, id: Seq<char>, s: StoredView)
    requires
        lasts(db),
        db.len() > 0 || id != json::raw_name(),
    ensures
        lasts(placed(db, id, s)),
{
}

/// What is left of a map without the parser's name can be read back.
pub proof fn removing_lasts(db: Seq<(Seq<char>, StoredView)>, id: Seq<char>)
    requires
        distinct(db),
        find(db, json::raw_name()) is None,
    ensures
        lasts(removed(db, id)),
{
    if id == json::raw_name() {
        removed_is_gone(db, id);
    } else {
        removing_keeps_others(db, id, json::raw_name());
    }
}

// ---------------------------------------------------------------------------
// The store
// ---------------------------------------------------------------------------

/// Where the map is: where the environment says, else below the agent's
/// directory.
pub open spec fn map_path(
    chosen: Option<Seq<char>>,
    agent_dir: Seq<char>,
    windows: bool,
) -> Seq<char> {
    let default = path::resolved(
        path::resolved(agent_dir, "pi-acp"@, windows),
        "session-map.json"@,
        windows,
    );
    match chosen {
        Some(p) => if p.len() > 0 {
            p
        } else {
            default
        },
        None => default,
    }
}

/// The path of the session map. `chosen` is the value of `PI_ACP_SESSION_MAP`.
pub fn session_map_path(chosen: Option<&str>, agent_dir: &str, windows: bool) -> (r: String)
    ensures
        r@ == map_path(text::opt_str(chosen), agent_dir@, windows),
{
    if let Some(p) = chosen {
        if p.unicode_len() > 0 {
            return p.to_owned();
        }
    }
    path::resolve_path(
        path::resolve_path(agent_dir, "pi-acp", windows).as_str(),
        "session-map.json",
        windows,
    )
}

/// A session map with what was last read of it.
pub struct SessionStore {
    path: String,
    cache: Option<SessionMapFile>,
}

/// The model of a [`SessionStore`].
pub struct StoreView {
    pub path: Seq<char>,
    pub cache: Option<Seq<(Seq<char>, StoredView)>>,
}

impl View for SessionStore {
    type V = StoreView;

    closed spec fn view(&self) -> StoreView {
        StoreView {
            path: self.path@,
            cache: match self.cache {
                Some(db) => Some(db@),
                None => None,
            },
        }
    }
}

/// The map's file as it is on disk.
#[derive(Debug)]
pub struct MapOnDisk {
    /// Whether there is a file.
    pub exists: bool,
    /// Its text; `None` when it cannot be read.
    pub raw: Option<String>,
}

/// Whether a file is there that holds no map of this version.
pub open spec fn unreadable(exists: bool, raw: Option<Seq<char>>) -> bool {
    exists && match raw {
        Some(t) => map_in(t) is None,
        None => true,
    }
}

/// Whether a file is there that holds no map of this version.
pub fn map_file_unreadable(disk: &MapOnDisk) -> (r: bool)
    ensures
        r == unreadable(disk.exists, text::opt_text(disk.raw)),
{
    if !disk.exists {
        return false;
    }
    match &disk.raw {
        Some(t) => match json::parse(t.as_str()) {
            Some(v) => match SessionMapFile::from_json(&v) {
                Some(_) => false,
                None => true,
            },
            None => true,
        },
        None => true,
    }
}

/// What an update is to do to the file.
pub struct Update {
    backup: bool,
    body: Option<String>,
    db: SessionMapFile,
}

/// The model of an [`Update`].
pub struct UpdateView {
    /// Whether the file is to be kept under another name first.
    pub backup: bool,
    /// The text to write; `None` when there is nothing to write.
    pub body: Option<Seq<char>>,
    /// The map that the text is.
    pub db: Seq<(Seq<char>, StoredView)>,
}

impl View for Update {
    type V = UpdateView;

    closed spec fn view(&self) -> UpdateView {
        UpdateView { backup: self.backup, body: text::opt_text(self.body), db: self.db@ }
    }
}

impl Update {
    /// Whether the file is to be kept under another name first.
    pub fn wants_backup(&self) -> (r: bool)
        ensures
            r == self@.backup,
    {
        self.backup
    }

    /// The text to write.
    pub fn body(&self) -> (r: Option<&str>)
        ensures
            text::opt_str(r) == self@.body,
    {
        match &self.body {
            Some(t) => Some(t.as_str()),
            None => None,
        }
    }
}

/// What an update does: the map is kept first when it cannot be read, and is
/// written when something changed.
pub open spec fn planned(
    exists: bool,
    raw: Option<Seq<char>>,
    changed: bool,
    db: Seq<(Seq<char>, StoredView)>,
) -> UpdateView {
    UpdateView {
        backup: unreadable(exists, raw),
        body: if changed {
            Some(body_of(db))
        } else {
            None
        },
        db,
    }
}

/// What a store takes the map to be.
pub open spec fn known(s: StoreView, raw: Option<Seq<char>>) -> Seq<(Seq<char>, StoredView)> {
    match s.cache {
        Some(db) => db,
        None => loaded(raw),
    }
}

fn disk_text<'a>(disk: &'a MapOnDisk) -> (r: Option<&'a str>)
    ensures
        text::opt_str(r) == text::opt_text(disk.raw),
{
    match &disk.raw {
        Some(t) => Some(t.as_str()),
        None => None,
    }
}

impl SessionStore {
    /// The store of the session map.
    pub fn new(chosen: Option<&str>, agent_dir: &str, windows: bool) -> (r: SessionStore)
        ensures
            r@ == (StoreView {
                path: map_path(text::opt_str(chosen), agent_dir@, windows),
                cache: None,
            }),
    {
        SessionStore::at(session_map_path(chosen, agent_dir, windows))
    }

    /// The store of a map at a path.
    pub fn at(path: String) -> (r: SessionStore)
        ensures
            r@ == (StoreView { path: path@, cache: None }),
    {
        SessionStore { path, cache: None }
    }

    /// The path of the map.
    pub fn path(&self) -> (r: &str)
        ensures
            r@ == self@.path,
    {
        self.path.as_str()
    }

    /// Whether the map was read.
    pub fn is_loaded(&self) -> (r: bool)
        ensures
            r == (self@.cache is Some),
    {
        self.cache.is_some()
    }

    /// The entry of a session. `raw` is the text of the map's file, which
    /// matters only while the map was not read.
    pub fn get(&mut self, session_id: &str, raw: Option<&str>) -> (r: Option<StoredSession>)
        ensures
            opt_stored(r) == find(known(old(self)@, text::opt_str(raw)), session_id@),
            final(self)@ == (StoreView {
                cache: Some(known(old(self)@, text::opt_str(raw))),
                ..old(self)@
            }),
    {
        if self.cache.is_none() {
            self.cache = Some(SessionMapFile::load(raw));
        }
        match &self.cache {
            Some(db) => db.get(session_id),
            None => None,
        }
    }

    /// Set the entry of a session without further roots.
    pub fn upsert(
        &self,
        session_id: &str,
        cwd: &str,
        session_file: &str,
        now: &str,
        disk: &MapOnDisk,
    ) -> (r: Update)
        ensures
            r@ == planned(
                disk.exists,
                text::opt_text(disk.raw),
                true,
                placed(
                    loaded(text::opt_text(disk.raw)),
                    session_id@,
                    StoredView {
                        session_id: session_id@,
                        cwd: cwd@,
                        session_file: session_file@,
                        additional_directories: Seq::empty(),
                        updated_at: now@,
                    },
                ),
            ),
            r@.body is Some,
            find(r@.db, session_id@) == Some(
                StoredView {
                    session_id: session_id@,
                    cwd: cwd@,
                    session_file: session_file@,
                    additional_directories: Seq::empty(),
                    updated_at: now@,
                },
            ),
            forall|other: Seq<char>|
                other != session_id@ ==> #[trigger] find(r@.db, other) == find(
                    loaded(text::opt_text(disk.raw)),
                    other,
                ),
            session_id@ != json::raw_name() ==> loaded(r@.body) == r@.db,
            loaded(text::opt_text(disk.raw)).len() > 0 ==> loaded(r@.body) == r@.db,
    {
        let none: Vec<String> = Vec::new();
        assert(text::texts(none@) =~= Seq::empty());
        self.upsert_with_additional_directories(session_id, cwd, session_file, &none, now, disk)
    }

    /// Set the entry of a session. The update starts from the file, not from
    /// what the store read earlier. The text reads back as the map, but for one
    /// whose only id is the name that the JSON parser takes for its own.
    pub fn upsert_with_additional_directories(
        &self,
        session_id: &str,
        cwd: &str,
        session_file: &str,
        additional_directories: &Vec<String>,
        now: &str,
        disk: &MapOnDisk,
    ) -> (r: Update)
        ensures
            r@ == planned(
                disk.exists,
                text::opt_text(disk.raw),
                true,
                placed(
                    loaded(text::opt_text(disk.raw)),
                    session_id@,
                    StoredView {
                        session_id: session_id@,
                        cwd: cwd@,
                        session_file: session_file@,
                        additional_directories: text::texts(additional_directories@),
                        updated_at: now@,
                    },
                ),
            ),
            r@.body is Some,
            find(r@.db, session_id@) == Some(
                StoredView {
                    session_id: session_id@,
                    cwd: cwd@,
                    session_file: session_file@,
                    additional_directories: text::texts(additional_directories@),
                    updated_at: now@,
                },
            ),
            forall|other: Seq<char>|
                other != session_id@ ==> #[trigger] find(r@.db, other) == find(
                    loaded(text::opt_text(disk.raw)),
                    other,
                ),
            session_id@ != json::raw_name() ==> loaded(r@.body) == r@.db,
            loaded(text::opt_text(disk.raw)).len() > 0 ==> loaded(r@.body) == r@.db,
    {
        let backup = map_file_unreadable(disk);
        let entry = StoredSession {
            session_id: session_id.to_owned(),
            cwd: cwd.to_owned(),
            session_file: session_file.to_owned(),
            additional_directories: text::clone_texts(additional_directories),
            updated_at: now.to_owned(),
        };
        let db = SessionMapFile::load(disk_text(disk)).with(session_id, entry);
        let body = db.body();
        proof {
            let before = loaded(text::opt_text(disk.raw));
            placed_is_found(before, session_id@, entry@);
            assert forall|other: Seq<char>| other != session_id@ implies #[trigger] find(
                db@,
                other,
            ) == find(before, other) by {
                placing_keeps_others(before, session_id@, entry@, other);
            }
            if before.len() > 0 || session_id@ != json::raw_name() {
                placing_lasts(before, session_id@, entry@);
            }
        }
        Update { backup, body: Some(body), db }
    }

    /// Remove the entry of a session. Nothing is written when it has none. The
    /// text reads back as the map, but for one whose first id is the name that
    /// the JSON parser takes for its own.
    pub fn delete(&self, session_id: &str, disk: &MapOnDisk) -> (r: Update)
        ensures
            r@ == planned(
                disk.exists,
                text::opt_text(disk.raw),
                find(loaded(text::opt_text(disk.raw)), session_id@) is Some,
                removed(loaded(text::opt_text(disk.raw)), session_id@),
            ),
            find(r@.db, session_id@) is None,
            forall|other: Seq<char>|
                other != session_id@ ==> #[trigger] find(r@.db, other) == find(
                    loaded(text::opt_text(disk.raw)),
                    other,
                ),
            r@.body is Some && lasts(r@.db) ==> loaded(r@.body) == r@.db,
            find(loaded(text::opt_text(disk.raw)), json::raw_name()) is None ==> lasts(r@.db),
    {
        let backup = map_file_unreadable(disk);
        let read = SessionMapFile::load(disk_text(disk));
        proof {
            use_type_invariant(&read);
            assert(distinct(read@));
            removed_is_gone(read@, session_id@);
            assert forall|other: Seq<char>| other != session_id@ implies #[trigger] find(
                removed(read@, session_id@),
                other,
            ) == find(read@, other) by {
                removing_keeps_others(read@, session_id@, other);
            }
            if find(read@, json::raw_name()) is None {
                removing_lasts(read@, session_id@);
            }
        }
        let (db, changed) = read.without(session_id);
        let body = if changed {
            Some(db.body())
        } else {
            None
        };
        Update { backup, body, db }
    }

    /// The text of an update was written, or the update had none since nothing
    /// had to change: the store knows the map that the file now holds, also
    /// where another store changed it before.
    pub fn written(&mut self, update: Update)
        ensures
            final(self)@ == (StoreView { cache: Some(update@.db), ..old(self)@ }),
    {
        self.cache = Some(update.db);
    }
}

/// The map as JSON.
pub fn map_as_json(store: &SessionStore, raw: Option<&str>) -> (r: Json)
    ensures
        r@ == file_json(known(store@, text::opt_str(raw))),
{
    match &store.cache {
        Some(db) => db.to_json(),
        None => SessionMapFile::load(raw).to_json(),
    }
}

/// Where a map that cannot be read is kept.
pub fn backup_path(path: &str) -> (r: String)
    ensures
        r@ == path@ + ".corrupt"@,
{
    text::cat2(path, ".corrupt")
}

/// The name of the file that is written before it replaces the map.
pub fn temp_name(process: u32, sequence: u64) -> (r: String)
    ensures
        r@ == ".session-map."@ + text::decimal(process as nat) + "."@ + text::decimal(
            sequence as nat,
        ) + ".tmp"@,
{
    text::cat5(
        ".session-map.",
        text::decimal_text(process as u64).as_str(),
        ".",
        text::decimal_text(sequence).as_str(),
        ".tmp",
    )
}

// ---------------------------------------------------------------------------
// Laws
// ---------------------------------------------------------------------------

/// An entry that was set is found.
pub proof fn placed_is_found(db: Seq<(Seq<char>, StoredView)>, id: Seq<char>, s: StoredView)
    ensures
        find(placed(db, id, s), id) == Some(s),
    decreases db.len(),
{
    if db.len() > 0 && db[0].0 != id {
        placed_is_found(db.skip(1), id, s);
        assert(placed(db, id, s).skip(1) =~= placed(db.skip(1), id, s));
    }
}

/// Setting an entry leaves those of other sessions as they were.
pub proof fn placing_keeps_others(
    db: Seq<(Seq<char>, StoredView)>,
    id: Seq<char>,
    s: StoredView,
    other: Seq<char>,
)
    requires
        other != id,
    ensures
        find(placed(db, id, s), other) == find(db, other),
    decreases db.len(),
{
    reveal_with_fuel(find, 2);
    let p = placed(db, id, s);
    if db.len() == 0 {
        assert(p.skip(1) =~= Seq::<(Seq<char>, StoredView)>::empty());
    } else if db[0].0 == id {
        assert(p.skip(1) =~= db.skip(1));
    } else {
        placing_keeps_others(db.skip(1), id, s, other);
        assert(p.skip(1) =~= placed(db.skip(1), id, s));
    }
}

/// An entry that was removed is gone, and a second removal changes nothing.
pub proof fn removed_is_gone(db: Seq<(Seq<char>, StoredView)>, id: Seq<char>)
    requires
        distinct(db),
    ensures
        find(removed(db, id), id) is None,
        removed(removed(db, id), id) == removed(db, id),
    decreases db.len(),
{
    if db.len() > 0 {
        let rest = db.skip(1);
        assert(distinct(rest)) by {
            assert forall|i: int, j: int| 0 <= i < j < rest.len() implies (#[trigger] rest[i]).0
                != (#[trigger] rest[j]).0 by {
                assert(rest[i] == db[i + 1] && rest[j] == db[j + 1]);
            }
        }
        if db[0].0 == id {
            assert forall|j: int| 0 <= j < rest.len() implies (#[trigger] rest[j]).0 != id by {
                assert(rest[j] == db[j + 1]);
            }
            placed_at(rest, id, db[0].1, rest.len() as int);
        } else {
            removed_is_gone(rest, id);
            assert(removed(db, id).skip(1) =~= removed(rest, id));
            assert(seq![db[0]] + removed(rest, id) =~= removed(db, id));
        }
    }
}

/// Removing an entry leaves those of other sessions as they were.
pub proof fn removing_keeps_others(
    db: Seq<(Seq<char>, StoredView)>,
    id: Seq<char>,
    other: Seq<char>,
)
    requires
        other != id,
    ensures
        find(removed(db, id), other) == find(db, other),
    decreases db.len(),
{
    if db.len() > 0 && db[0].0 != id {
        removing_keeps_others(db.skip(1), id, other);
        assert(removed(db, id).skip(1) =~= removed(db.skip(1), id));
    }
}

} // verus!
