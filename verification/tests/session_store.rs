//! The map of sessions on disk.

use pi_acp::json::to_value;
use pi_acp::session_store::{
    backup_path, map_as_json, map_file_unreadable, session_map_path, temp_name, MapOnDisk,
    SessionStore, StoredSession, Update,
};
use pi_acp::time::format_epoch_millis;

/// A file, and what was put aside before it was written over.
struct Disk {
    raw: Option<String>,
    backup: Option<String>,
}

impl Disk {
    fn empty() -> Disk {
        Disk {
            raw: None,
            backup: None,
        }
    }

    fn holding(raw: &str) -> Disk {
        Disk {
            raw: Some(raw.to_string()),
            backup: None,
        }
    }

    fn map(&self) -> MapOnDisk {
        MapOnDisk {
            exists: self.raw.is_some(),
            raw: self.raw.clone(),
        }
    }

    fn write(&mut self, store: &mut SessionStore, update: Update) {
        if update.wants_backup() {
            self.backup = self.raw.clone();
        }
        if let Some(body) = update.body() {
            self.raw = Some(body.to_string());
        }
        store.written(update);
    }

    fn upsert(&mut self, store: &mut SessionStore, id: &str, cwd: &str, file: &str) {
        let update = store.upsert(id, cwd, file, &now(), &self.map());
        self.write(store, update);
    }

    fn delete(&mut self, store: &mut SessionStore, id: &str) {
        let update = store.delete(id, &self.map());
        self.write(store, update);
    }

    fn get(&self, store: &mut SessionStore, id: &str) -> Option<StoredSession> {
        store.get(id, self.raw.as_deref())
    }
}

fn now() -> String {
    format_epoch_millis(1_788_166_330_000)
}

fn store() -> SessionStore {
    SessionStore::at("/h/map.json".to_string())
}

#[test]
fn upsert_get_delete_roundtrip() {
    let mut disk = Disk::empty();
    let mut s = store();
    assert!(disk.get(&mut s, "s1").is_none());

    disk.upsert(&mut s, "s1", "/work", "/tmp/s1.jsonl");
    let entry = disk.get(&mut s, "s1").unwrap();
    assert_eq!(entry.session_id, "s1");
    assert_eq!(entry.cwd, "/work");
    assert_eq!(entry.session_file, "/tmp/s1.jsonl");
    assert!(entry.additional_directories.is_empty());
    assert!(entry.updated_at.ends_with('Z'));

    // upsert refreshes
    disk.upsert(&mut s, "s1", "/work", "/tmp/s1-new.jsonl");
    assert_eq!(
        disk.get(&mut s, "s1").unwrap().session_file,
        "/tmp/s1-new.jsonl"
    );

    disk.delete(&mut s, "s1");
    assert!(disk.get(&mut s, "s1").is_none());
    disk.delete(&mut s, "s1"); // idempotent no-op
    assert!(disk.get(&mut s, "s1").is_none());
}

#[test]
fn map_file_is_persisted_atomically_and_reloadable() {
    let mut disk = Disk::empty();
    disk.upsert(&mut store(), "a", "/w", "/f");
    // A fresh store reads the file back.
    let mut fresh = store();
    assert!(!fresh.is_loaded());
    assert_eq!(disk.get(&mut fresh, "a").unwrap().cwd, "/w");
    assert!(fresh.is_loaded());
    assert!(disk.raw.is_some());
    // Temporary files have names of their own.
    assert!(temp_name(7, 1).contains(".tmp"));
    assert_ne!(temp_name(7, 1), temp_name(7, 2));
}

#[test]
fn malformed_map_yields_empty() {
    let mut disk = Disk::holding("{ not json");
    let mut s = store();
    assert!(disk.get(&mut s, "x").is_none());
    // And a subsequent write repairs the file.
    disk.upsert(&mut s, "x", "/w", "/f");
    assert_eq!(disk.get(&mut store(), "x").unwrap().cwd, "/w");
}

#[test]
fn additional_directories_roundtrip_and_old_maps_default_empty() {
    let mut disk = Disk::holding(
        r#"{"version":1,"sessions":{"old":{"sessionId":"old","cwd":"/work","sessionFile":"/tmp/old.jsonl","updatedAt":"2026-08-01T00:00:00.000Z"}}}"#,
    );
    let mut old = store();
    assert!(disk
        .get(&mut old, "old")
        .unwrap()
        .additional_directories
        .is_empty());

    let roots = vec!["/repo-a".to_string(), "/repo-b".to_string()];
    let update = old.upsert_with_additional_directories(
        "new",
        "/work",
        "/tmp/new.jsonl",
        &roots,
        &now(),
        &disk.map(),
    );
    disk.write(&mut old, update);
    let entry = disk.get(&mut store(), "new").unwrap();
    assert_eq!(entry.additional_directories, roots);
    assert!(disk.raw.as_ref().unwrap().contains("additionalDirectories"));
}

#[test]
fn concurrent_updates_preserve_all_entries() {
    // Updates are made one after another, each on what the disk holds then.
    let mut disk = Disk::empty();
    let mut s = store();
    for i in 0..16 {
        let id = format!("session-{i}");
        disk.upsert(&mut s, &id, "/work", &format!("/tmp/{id}.jsonl"));
    }
    let mut fresh = store();
    for i in 0..16 {
        assert!(disk.get(&mut fresh, &format!("session-{i}")).is_some());
    }
}

#[test]
fn independent_stores_do_not_lose_read_modify_write_updates() {
    let mut disk = Disk::empty();
    let mut first = store();
    let mut second = store();

    // Prime both caches before either writer runs. An update made on the
    // second cache alone would overwrite the first entry.
    assert!(disk.get(&mut first, "first").is_none());
    assert!(disk.get(&mut second, "second").is_none());

    disk.upsert(&mut first, "first", "/one", "/one/session.jsonl");
    disk.upsert(&mut second, "second", "/two", "/two/session.jsonl");

    let mut fresh = store();
    assert!(disk.get(&mut fresh, "first").is_some());
    assert!(disk.get(&mut fresh, "second").is_some());
}

#[test]
fn corrupt_map_is_preserved_as_backup_before_overwrite() {
    // Malformed bytes that still contain a recognizable entry, so the
    // backup's recoverability is observable.
    let mut disk = Disk::holding("{ not json but mentions \"old\"");
    assert!(map_file_unreadable(&disk.map()));
    let mut s = store();
    disk.upsert(&mut s, "new", "/w", "/f");

    assert_eq!(backup_path("/h/map.json"), "/h/map.json.corrupt");
    let backup_raw = disk.backup.clone().expect("a backup");
    assert!(backup_raw.contains("old"));
    // The live file is the repaired v1 map with only the new entry.
    assert!(disk.get(&mut s, "new").is_some());
    assert!(disk.get(&mut s, "old").is_none());
}

#[test]
fn wrong_version_yields_empty() {
    let disk = Disk::holding(r#"{"version": 2, "sessions": {"a": {}}}"#);
    assert!(disk.get(&mut store(), "a").is_none());
}

#[test]
fn the_map_has_a_place_and_a_shape() {
    assert_eq!(
        session_map_path(Some("/x/map.json"), "/h/agent", false),
        "/x/map.json"
    );
    assert!(session_map_path(None, "/h/agent", false).starts_with("/h/"));
    assert_eq!(SessionStore::new(Some("/x/m"), "/h", false).path(), "/x/m");
    assert!(!map_file_unreadable(&Disk::empty().map()));

    let mut disk = Disk::empty();
    let mut s = store();
    disk.upsert(&mut s, "s1", "/work", "/f");
    let v = to_value(&map_as_json(&s, disk.raw.as_deref()));
    assert_eq!(v["version"], 1);
    assert_eq!(v["sessions"]["s1"]["cwd"], "/work");
    assert_eq!(v["sessions"]["s1"]["updatedAt"], now());
}

#[test]
fn deleting_what_another_store_removed_forgets_it() {
    let mut disk = Disk::empty();
    let (mut one, mut other) = (store(), store());
    disk.upsert(&mut one, "s1", "/w", "/s1.jsonl");
    assert!(disk.get(&mut other, "s1").is_some());
    disk.delete(&mut one, "s1");
    disk.delete(&mut other, "s1");
    assert!(disk.get(&mut other, "s1").is_none());
}

#[test]
fn maps_and_entries_may_be_lists() {
    let disk = Disk::holding(r#"[1,{"s1":["s1","/w","/s1.jsonl",[],"now"]}]"#);
    let found = disk.get(&mut store(), "s1").expect("an entry");
    assert_eq!(found.cwd, "/w");
    assert_eq!(found.updated_at, "now");
    let short = Disk::holding(r#"[1,{"s1":["s1","/w","/s1.jsonl",[]]}]"#);
    assert!(short.get(&mut store(), "s1").is_none());
}

#[test]
fn a_name_of_the_parser_is_an_id_behind_others() {
    let name = "$serde_json::private::RawValue";
    let mut disk = Disk::empty();
    let mut kept = store();
    disk.upsert(&mut kept, "s1", "/w", "/s1.jsonl");
    disk.upsert(&mut kept, name, "/x", "/x.jsonl");
    let mut fresh = store();
    assert_eq!(disk.get(&mut fresh, name).expect("an entry").cwd, "/x");
    assert_eq!(disk.get(&mut fresh, "s1").expect("an entry").cwd, "/w");
    // As the first id it is known to the store that set it alone.
    let mut disk = Disk::empty();
    let mut kept = store();
    disk.upsert(&mut kept, name, "/x", "/x.jsonl");
    assert!(disk.get(&mut kept, name).is_some());
    assert!(disk.get(&mut store(), name).is_none());
}
