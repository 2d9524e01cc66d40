use minlabel_server::columns::missing_columns;
use minlabel_server::db::{Db, DbError};
use minlabel_server::record::{record_from_row, Annotation, Change, FileRecord, Room};

const NOW: &str = "2024-05-01 10:00:00";
const LATER: &str = "2024-05-02 11:30:00";

fn label(file_id: i64, lab: &str) -> Annotation {
    Annotation {
        file_id,
        is_check: 1,
        lab: lab.to_string(),
        lab_without_tone: "ni hao".to_string(),
        raw_text: "nihao".to_string(),
        annotated_by: None,
        updated_at: None,
    }
}

fn add_room(db: &mut Db, id: &str) {
    let change = db.create_room(id, "alice", NOW).unwrap();
    db.commit(change);
}

fn add_file(db: &mut Db, room: &str, name: &str) -> i64 {
    let change = db.insert_file(room, "alice", name, 4, "", None).unwrap();
    db.commit(change);
    db.last_id()
}

fn old_file(id: i64, room: &str, path: &str, uploaded: i64) -> FileRecord {
    record_from_row(
        id,
        room.to_string(),
        format!("{id}.wav"),
        path.to_string(),
        7,
        uploaded,
        None,
        None,
        "pending".to_string(),
        None,
        None,
    )
}

#[test]
fn a_room_is_there_once_it_is_made() {
    let mut db = Db::new();
    assert!(!db.room_exists("ABC234"));
    let change = db.create_room("ABC234", "alice", NOW).unwrap();
    assert_eq!(
        change,
        Change::PutRoom(Room {
            id: "ABC234".to_string(),
            name: "".to_string(),
            owner: "alice".to_string(),
            created_at: Some(NOW.to_string()),
        })
    );
    assert!(!db.room_exists("ABC234"));
    db.commit(change);
    assert!(db.room_exists("ABC234"));
    assert!(!db.room_exists("abc234"));
    assert_eq!(db.create_room("ABC234", "bob", NOW), Err(DbError::RoomExists));
    assert!(db.create_room("ABC235", "bob", NOW).is_ok());
}

#[test]
fn a_new_file_is_read_back() {
    let mut db = Db::new();
    add_room(&mut db, "R");
    let id = add_file(&mut db, "R", "a.wav");
    assert_eq!(id, 1);
    let file = db.get_file(id).unwrap();
    assert_eq!(
        file,
        FileRecord {
            id: 1,
            room_id: "R".to_string(),
            name: "a.wav".to_string(),
            path: "".to_string(),
            size: 4,
            uploaded: false,
            owner: Some("alice".to_string()),
            duration: None,
            status: "pending".to_string(),
            annotated_by: None,
            updated_at: None,
        }
    );
    assert_eq!(file.clone(), file);
    assert!(db.get_file(2).is_none());
    assert!(db.file_in_room(1, "R"));
    assert!(!db.file_in_room(1, "S"));
    assert!(!db.file_in_room(2, "R"));
}

#[test]
fn a_file_with_a_path_counts_as_uploaded() {
    let db = Db::new();
    let bits = 1.5f64.to_bits();
    match db.insert_file("R", "alice", "a.wav", 9, "x.wav", Some(bits)).unwrap() {
        Change::PutFile(file) => {
            assert!(file.uploaded);
            assert_eq!(file.path, "x.wav");
            assert_eq!(file.duration.map(f64::from_bits), Some(1.5));
        }
        other => panic!("{other:?}"),
    }
}

#[test]
fn durations_are_kept_as_numbers() {
    let kept = |duration: f64| {
        match Db::new().insert_file("R", "a", "b", 1, "", Some(duration.to_bits())) {
            Ok(Change::PutFile(file)) => file.duration.map(f64::from_bits),
            other => panic!("{other:?}"),
        }
    };
    assert_eq!(kept(f64::NAN), None);
    assert_eq!(kept(-f64::NAN), None);
    assert_eq!(kept(f64::from_bits(0x7ff0_0000_0000_0001)), None);
    assert_eq!(kept(f64::INFINITY), Some(f64::INFINITY));
    assert_eq!(kept(f64::NEG_INFINITY), Some(f64::NEG_INFINITY));
    assert_eq!(kept(-0.0).map(f64::to_bits), Some(0));
    assert_eq!(kept(0.0).map(f64::to_bits), Some(0));
    assert_eq!(kept(-2.5), Some(-2.5));
    assert_eq!(kept(f64::MAX), Some(f64::MAX));
}

#[test]
fn durations_are_kept_as_sqlite_keeps_them() {
    let conn = rusqlite::Connection::open_in_memory().unwrap();
    conn.execute("CREATE TABLE files (duration REAL)", ()).unwrap();
    let values = [
        f64::NAN,
        -f64::NAN,
        f64::INFINITY,
        f64::NEG_INFINITY,
        -0.0,
        0.0,
        1.0,
        -3.0,
        0.1,
        5e-324,
        -5e-324,
        9007199254740993.0,
        9223372036854775807.0,
        -9223372036854775808.0,
        f64::MAX,
    ];
    for value in values {
        conn.execute("DELETE FROM files", ()).unwrap();
        conn.execute("INSERT INTO files (duration) VALUES (?1)", (value,))
            .unwrap();
        let stored: Option<f64> = conn
            .query_row("SELECT duration FROM files", (), |r| r.get(0))
            .unwrap();
        match Db::new().insert_file("R", "a", "b", 1, "", Some(value.to_bits())) {
            Ok(Change::PutFile(file)) => assert_eq!(file.duration, stored.map(f64::to_bits)),
            other => panic!("{other:?}"),
        }
    }
}

#[test]
fn numbers_run_out() {
    let last = vec![Change::PutFile(old_file(i64::MAX, "R", "", 0))];
    let db = Db::open(&last, 0);
    assert_eq!(db.last_id(), i64::MAX);
    assert_eq!(db.insert_file("R", "a", "b", 1, "", None), Err(DbError::Full));
    let db = Db::open(&Vec::new(), i64::MAX - 1);
    match db.insert_file("R", "a", "b", 1, "", None) {
        Ok(Change::PutFile(file)) => assert_eq!(file.id, i64::MAX),
        other => panic!("{other:?}"),
    }
}

#[test]
fn numbers_are_never_given_twice() {
    let db = Db::open(&Vec::new(), 41);
    match db.insert_file("R", "a", "b", 1, "", None) {
        Ok(Change::PutFile(file)) => assert_eq!(file.id, 42),
        other => panic!("{other:?}"),
    }
    assert_eq!(Db::open(&Vec::new(), -5).last_id(), 0);
    assert_eq!(Db::new().last_id(), 0);
}

#[test]
fn lists_are_in_order_and_by_room() {
    let mut db = Db::new();
    for id in [5, 2, 9, 7] {
        let room = if id == 7 { "S" } else { "R" };
        db.commit(Change::PutFile(old_file(id, room, "", 0)));
    }
    let ids: Vec<i64> = db.list_files_in_room("R").iter().map(|f| f.id).collect();
    assert_eq!(ids, vec![2, 5, 9]);
    let ids: Vec<i64> = db.list_files_in_room("S").iter().map(|f| f.id).collect();
    assert_eq!(ids, vec![7]);
    assert!(db.list_files_in_room("T").is_empty());
    db.commit(Change::PutFile(old_file(5, "S", "", 0)));
    let ids: Vec<i64> = db.list_files_in_room("S").iter().map(|f| f.id).collect();
    assert_eq!(ids, vec![5, 7]);
}

#[test]
fn an_upload_is_read_back() {
    let mut db = Db::new();
    let id = add_file(&mut db, "R", "a.wav");
    let before = db.get_file(id).unwrap();
    let change = db.mark_uploaded(id, "u.wav").unwrap();
    db.commit(change);
    let after = db.get_file(id).unwrap();
    assert!(after.uploaded);
    assert_eq!(after.path, "u.wav");
    assert_eq!(after.name, before.name);
    assert_eq!(after.owner, before.owner);
    assert_eq!(db.progress_for_room("R"), (0, 1));
    assert_eq!(db.mark_uploaded(99, "u.wav"), None);
}

#[test]
fn a_label_is_read_back() {
    let mut db = Db::new();
    let id = add_file(&mut db, "R", "a.wav");
    assert!(db.get_annotation(id).is_none());
    let change = db.upsert_annotation(&label(id, "nǐ hǎo"), "bob", NOW).unwrap();
    db.commit(change);
    let read = db.get_annotation(id).unwrap();
    assert_eq!(
        read,
        Annotation {
            file_id: id,
            is_check: 1,
            lab: "nǐ hǎo".to_string(),
            lab_without_tone: "ni hao".to_string(),
            raw_text: "nihao".to_string(),
            annotated_by: Some("bob".to_string()),
            updated_at: Some(NOW.to_string()),
        }
    );
    let change = db.upsert_annotation(&label(id, "wo"), "carol", LATER).unwrap();
    db.commit(change);
    let read = db.get_annotation(id).unwrap();
    assert_eq!(read.lab, "wo");
    assert_eq!(read.annotated_by, Some("carol".to_string()));
    assert_eq!(read.updated_at, Some(LATER.to_string()));
    assert_eq!(
        db.upsert_annotation(&label(77, "x"), "bob", NOW),
        Err(DbError::NoSuchFile)
    );
}

#[test]
fn progress_counts_labelled_files_once() {
    let mut db = Db::new();
    let a = add_file(&mut db, "R", "a.wav");
    add_file(&mut db, "R", "b.wav");
    add_file(&mut db, "S", "c.wav");
    assert_eq!(db.progress_for_room("R"), (0, 2));
    assert_eq!(db.progress(), (0, 3));
    for _ in 0..2 {
        let change = db.set_file_status(a, "done", Some("bob"), NOW).unwrap();
        db.commit(change);
        assert_eq!(db.progress_for_room("R"), (1, 2));
        assert_eq!(db.progress_for_room("S"), (0, 1));
        assert_eq!(db.progress(), (1, 3));
    }
    let file = db.get_file(a).unwrap();
    assert_eq!(file.status, "done");
    assert_eq!(file.annotated_by, Some("bob".to_string()));
    assert_eq!(file.updated_at, Some(NOW.to_string()));
    let change = db.set_file_status(a, "pending", None, LATER).unwrap();
    db.commit(change);
    assert_eq!(db.progress_for_room("R"), (0, 2));
    assert_eq!(db.get_file(a).unwrap().annotated_by, None);
    assert_eq!(db.set_file_status(99, "done", None, NOW), None);
}

#[test]
fn only_what_was_stored_is_committed() {
    let changes = vec![
        Change::PutFile(old_file(1, "R", "", 0)),
        Change::PutFile(old_file(2, "R", "", 0)),
        Change::PutFile(old_file(3, "R", "", 0)),
    ];
    let mut db = Db::new();
    db.commit_first(&changes, 2);
    assert!(db.get_file(1).is_some());
    assert!(db.get_file(2).is_some());
    assert!(db.get_file(3).is_none());
}

#[test]
fn changes_remove_nothing() {
    let mut db = Db::new();
    add_room(&mut db, "R");
    let a = add_file(&mut db, "R", "a.wav");
    let change = db.upsert_annotation(&label(a, "x"), "bob", NOW).unwrap();
    db.commit(change);
    add_room(&mut db, "S");
    db.commit(Change::PutFile(old_file(a, "S", "", 0)));
    db.commit(Change::PutFile(old_file(-4, "S", "", 0)));
    assert!(db.room_exists("R"));
    assert!(db.get_file(a).is_some());
    assert!(db.get_annotation(a).is_some());
    assert_eq!(db.last_id(), a);
}

#[test]
fn opening_restores_the_records_in_any_order() {
    let mut first = Db::new();
    add_room(&mut first, "R");
    let a = add_file(&mut first, "R", "a.wav");
    let b = add_file(&mut first, "R", "b.wav");
    let change = first.upsert_annotation(&label(a, "x"), "bob", NOW).unwrap();
    first.commit(change);
    let rows = vec![
        Change::PutAnnotation(first.get_annotation(a).unwrap()),
        Change::PutFile(first.get_file(b).unwrap()),
        Change::PutRoom(Room {
            id: "R".to_string(),
            name: "".to_string(),
            owner: "alice".to_string(),
            created_at: Some(NOW.to_string()),
        }),
        Change::PutFile(first.get_file(a).unwrap()),
    ];
    let again = Db::open(&rows, 6);
    assert!(again.room_exists("R"));
    assert_eq!(again.list_files_in_room("R"), first.list_files_in_room("R"));
    assert_eq!(again.get_annotation(a), first.get_annotation(a));
    assert_eq!(again.get_annotation(b), None);
    assert_eq!(again.last_id(), 6);
    assert!(again.migrate_columns(LATER).is_empty());
}

#[test]
fn the_server_is_the_sum_of_its_rooms() {
    let mut db = Db::new();
    let a = add_file(&mut db, "R", "a.wav");
    add_file(&mut db, "R", "b.wav");
    let c = add_file(&mut db, "S", "c.wav");
    for id in [a, c] {
        let change = db.set_file_status(id, "done", Some("bob"), NOW).unwrap();
        db.commit(change);
    }
    assert_eq!(db.progress_for_room("R"), (1, 2));
    assert_eq!(db.progress_for_room("S"), (1, 1));
    assert_eq!(db.progress(), (2, 3));
}

#[test]
fn old_records_move_to_the_legacy_room() {
    let rows = vec![
        Change::PutFile(old_file(1, "", "one.wav", 0)),
        Change::PutFile(old_file(2, "", "", 0)),
        Change::PutFile(old_file(3, "R", "three.wav", 0)),
        Change::PutFile(old_file(4, "R", "", 1)),
    ];
    let mut db = Db::open(&rows, 4);
    let changes = db.migrate_columns(NOW);
    assert_eq!(changes.len(), 4);
    assert_eq!(
        changes[0],
        Change::PutRoom(Room {
            id: "legacy".to_string(),
            name: "".to_string(),
            owner: "".to_string(),
            created_at: Some(NOW.to_string()),
        })
    );
    db.commit_first(&changes, 4);
    assert!(db.room_exists("legacy"));
    let one = db.get_file(1).unwrap();
    assert_eq!((one.room_id.as_str(), one.uploaded), ("legacy", true));
    let two = db.get_file(2).unwrap();
    assert_eq!((two.room_id.as_str(), two.uploaded), ("legacy", false));
    let three = db.get_file(3).unwrap();
    assert_eq!((three.room_id.as_str(), three.uploaded), ("R", true));
    assert!(db.get_file(4).unwrap().uploaded);
    assert!(db.migrate_columns(LATER).is_empty());
}

#[test]
fn a_legacy_room_is_made_once() {
    let rows = vec![
        Change::PutRoom(Room {
            id: "legacy".to_string(),
            name: "old".to_string(),
            owner: "somebody".to_string(),
            created_at: None,
        }),
        Change::PutFile(old_file(1, "", "", 0)),
    ];
    let db = Db::open(&rows, 1);
    let changes = db.migrate_columns(NOW);
    assert_eq!(changes, vec![Change::PutFile(old_file(1, "legacy", "", 0))]);
    assert!(Db::new().migrate_columns(NOW).is_empty());
}

#[test]
fn flags_of_rows_are_numbers() {
    assert!(!old_file(1, "R", "", 0).uploaded);
    assert!(old_file(1, "R", "", 1).uploaded);
    assert!(old_file(1, "R", "", -3).uploaded);
}

#[test]
fn missing_columns_are_found() {
    let old = ["id", "name", "duration", "status", "path"];
    let existing: Vec<String> = old.iter().map(|c| c.to_string()).collect();
    let found: Vec<(&str, &str)> = missing_columns(&existing)
        .iter()
        .map(|c| (c.name, c.definition))
        .collect();
    assert_eq!(
        found,
        vec![
            ("room_id", "TEXT NOT NULL DEFAULT ''"),
            ("owner", "TEXT"),
            ("size", "INTEGER NOT NULL DEFAULT 0"),
            ("uploaded", "INTEGER NOT NULL DEFAULT 0"),
        ]
    );
    let all = ["room_id", "owner", "path", "size", "uploaded"];
    let existing: Vec<String> = all.iter().map(|c| c.to_string()).collect();
    assert!(missing_columns(&existing).is_empty());
    let none = missing_columns(&Vec::new());
    assert_eq!(none.len(), 5);
    assert_eq!((none[2].name, none[2].definition), ("path", "TEXT NOT NULL DEFAULT ''"));
}
