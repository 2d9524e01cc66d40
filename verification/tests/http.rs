use minlabel_server::db::Db;
use minlabel_server::http::{
    draw_room_codes, finish_download, form_field, gen_room_code, room_code, Download, FormField,
    Label, ListedFile, NewFile, RegisteredFile, Status, UploadForm,
};
use minlabel_server::record::{record_from_row, Annotation, Change, FileRecord, Room};
use minlabel_server::state::{AppState, Target};
use minlabel_server::text::{trim, PathStyle};
use serde_json::Value;

const NOW: &str = "2024-05-01 10:00:00";
const ALPHABET: &str = "ABCDEFGHJKLMNPQRSTUVWXYZ23456789";
const UUID: &str = "67e55044-10b1-426f-9247-bb680e5fe0c8";

fn server() -> AppState {
    AppState::new(Db::new())
}

fn make_room(state: &mut AppState, code: &str) {
    let plan = state.plan_room("alice", code, NOW).unwrap();
    let stored = plan.changes.len();
    assert_eq!(state.finish_room(plan, stored), Ok(code.to_string()));
}

fn new_file(name: &str, size: i64) -> NewFile {
    NewFile { name: name.to_string(), size }
}

fn register(state: &mut AppState, room: &str, names: &[&str]) -> Vec<i64> {
    let files: Vec<NewFile> = names.iter().map(|n| new_file(n, 4)).collect();
    let plan = state.register_files(room, "alice", &files).unwrap();
    let stored = plan.changes.len();
    let answer = state.finish_registration(plan, stored).unwrap();
    answer.iter().map(|f| f.id).collect()
}

fn upload(state: &mut AppState, room: &str, id: i64) -> String {
    let plan = state.upload_room_audio(room, id, "alice", PathStyle::Unix).unwrap();
    let place = plan.stored.clone();
    let written = state.record_upload(plan, true).unwrap();
    let stored = written.changes.len();
    assert_eq!(stored, 1);
    assert_eq!(state.finish_upload(written, stored), Ok(id));
    place
}

fn label(user: &str) -> Label {
    Label {
        is_check: 1,
        lab: "nǐ hǎo".to_string(),
        lab_without_tone: "ni hao".to_string(),
        raw_text: "nihao".to_string(),
        user: user.to_string(),
    }
}

fn sent(state: &mut AppState) -> Vec<(Target, Value)> {
    state
        .take_outbox()
        .iter()
        .map(|d| (d.to, serde_json::from_str(&d.text).unwrap()))
        .collect()
}

fn json(text: &str) -> Value {
    serde_json::from_str(text).unwrap()
}

#[test]
fn statuses_have_their_numbers() {
    assert_eq!(Status::BadRequest.code(), 400);
    assert_eq!(Status::Forbidden.code(), 403);
    assert_eq!(Status::NotFound.code(), 404);
    assert_eq!(Status::Conflict.code(), 409);
    assert_eq!(Status::InternalServerError.code(), 500);
}

#[test]
fn room_codes_pick_from_the_alphabet() {
    assert_eq!(room_code(&vec![0, 1, 7, 8, 23, 31]), "ABHJZ9");
    assert_eq!(room_code(&(0..32).collect()), ALPHABET);
    assert_eq!(room_code(&Vec::new()), "");
}

#[test]
fn drawn_room_codes_have_six_characters() {
    let mut codes = Vec::new();
    for _ in 0..50 {
        let code = gen_room_code();
        assert_eq!(code.len(), 6);
        assert!(code.chars().all(|c| ALPHABET.contains(c)));
        assert_eq!(trim(&code), code);
        codes.push(code);
    }
    codes.dedup();
    assert!(codes.len() > 1);
}

#[test]
fn a_room_needs_somebody_who_opens_it() {
    let state = server();
    assert_eq!(state.create_room("", NOW), Err(Status::BadRequest));
    assert_eq!(state.create_room(" \t\u{3000}", NOW), Err(Status::BadRequest));
    assert_eq!(state.plan_room(" ", "ABC234", NOW), Err(Status::BadRequest));
    let plan = state.create_room("  alice ", NOW).unwrap();
    assert_eq!(plan.id.len(), 6);
    assert_eq!(
        plan.changes,
        vec![Change::PutRoom(Room {
            id: plan.id.clone(),
            name: "".to_string(),
            owner: "alice".to_string(),
            created_at: Some(NOW.to_string()),
        })]
    );
}

#[test]
fn a_taken_code_is_refused() {
    let mut state = server();
    make_room(&mut state, "ABC234");
    assert_eq!(
        state.plan_room("bob", "ABC234", NOW),
        Err(Status::InternalServerError)
    );
}

#[test]
fn the_first_free_code_is_taken() {
    let mut state = server();
    make_room(&mut state, "AAAAAA");
    make_room(&mut state, "BBBBBB");
    let codes = |names: &[&str]| -> Vec<String> { names.iter().map(|n| n.to_string()).collect() };
    let plan = |names: &[&str]| {
        state
            .plan_from_draws(" bob ", &codes(names), NOW)
            .map(|p| (p.id, p.changes))
    };
    let room = |id: &str| {
        let row = Room {
            id: id.to_string(),
            name: "".to_string(),
            owner: "bob".to_string(),
            created_at: Some(NOW.to_string()),
        };
        Ok((id.to_string(), vec![Change::PutRoom(row)]))
    };
    assert_eq!(plan(&["CCCCCC", "DDDDDD"]), room("CCCCCC"));
    assert_eq!(plan(&["AAAAAA", "BBBBBB", "DDDDDD", "CCCCCC"]), room("DDDDDD"));
    let mut names = vec!["AAAAAA"; 10];
    names.push("EEEEEE");
    assert_eq!(plan(&names), room("EEEEEE"));
    names.insert(0, "BBBBBB");
    assert_eq!(plan(&names), Err(Status::InternalServerError));
    assert_eq!(plan(&["AAAAAA"]), Err(Status::InternalServerError));
    assert_eq!(plan(&[]), Err(Status::InternalServerError));
    assert_eq!(
        state.plan_from_draws(" ", &codes(&["AAAAAA"]), NOW),
        Err(Status::BadRequest)
    );
}

#[test]
fn eleven_codes_are_drawn() {
    let codes = draw_room_codes();
    assert_eq!(codes.len(), 11);
    for code in codes {
        assert_eq!(code.len(), 6);
        assert!(code.chars().all(|c| ALPHABET.contains(c)));
    }
}

#[test]
fn stored_names_hold_no_separator() {
    let mut state = server();
    make_room(&mut state, "R");
    let ids = register(&mut state, "R", &["a.b\\c", "x.y/z.wav"]);
    let stored = |id: i64, style: PathStyle| state.plan_upload("R", id, "alice", UUID, style);
    assert_eq!(stored(ids[0], PathStyle::Windows).unwrap().stored, format!("{UUID}.bin"));
    assert_eq!(stored(ids[0], PathStyle::Unix).unwrap().stored, format!("{UUID}.b\\c"));
    assert_eq!(stored(ids[1], PathStyle::Windows).unwrap().stored, format!("{UUID}.wav"));
    assert_eq!(stored(ids[1], PathStyle::Unix).unwrap().stored, format!("{UUID}.wav"));
}

#[test]
fn a_room_that_was_not_stored_is_not_made() {
    let mut state = server();
    let plan = state.plan_room("alice", "ABC234", NOW).unwrap();
    assert_eq!(state.finish_room(plan, 0), Err(Status::InternalServerError));
    assert!(!state.db().room_exists("ABC234"));
    make_room(&mut state, "ABC234");
    assert!(state.db().room_exists("ABC234"));
}

#[test]
fn files_are_registered_in_order() {
    let mut state = server();
    make_room(&mut state, "R");
    let files = vec![
        new_file(" a.wav ", 4),
        new_file("  ", 5),
        new_file("", 6),
        new_file("b.wav", 8),
    ];
    let plan = state.register_files("R", " alice ", &files).unwrap();
    assert!(plan.complete);
    assert_eq!(plan.room, "R");
    let answer = state.finish_registration(plan, 2);
    assert_eq!(
        answer,
        Ok(vec![
            RegisteredFile { id: 1, name: "a.wav".to_string(), size: 4 },
            RegisteredFile { id: 2, name: "b.wav".to_string(), size: 8 },
        ])
    );
    let listed = state.list_room_files("R");
    assert_eq!(listed.len(), 2);
    assert_eq!(listed[0].name, "a.wav");
    assert_eq!(listed[0].owner, Some("alice".to_string()));
    assert_eq!(listed[1].size, 8);
    assert!(!listed[1].uploaded);
    assert_eq!(listed[0].annotating_by, None);
    assert_eq!(
        sent(&mut state),
        vec![(Target::Room(0), json(r#"{"type": "progress", "done": 0, "total": 2}"#))]
    );
}

#[test]
fn registration_is_refused() {
    let mut state = server();
    make_room(&mut state, "R");
    let files = vec![new_file("a.wav", 4)];
    assert_eq!(state.register_files("S", "alice", &files), Err(Status::NotFound));
    assert_eq!(state.register_files("S", "", &files), Err(Status::NotFound));
    assert_eq!(state.register_files("R", " ", &files), Err(Status::BadRequest));
    let plan = state.register_files("R", "alice", &Vec::new()).unwrap();
    assert_eq!(state.finish_registration(plan, 0), Ok(Vec::new()));
    assert_eq!(
        sent(&mut state),
        vec![(Target::Room(0), json(r#"{"type": "progress", "done": 0, "total": 0}"#))]
    );
}

#[test]
fn a_registration_can_break_off() {
    let mut state = server();
    make_room(&mut state, "R");
    let files = vec![new_file("a.wav", 4), new_file("b.wav", 8)];
    let plan = state.register_files("R", "alice", &files).unwrap();
    assert_eq!(
        state.finish_registration(plan, 1),
        Err(Status::InternalServerError)
    );
    assert_eq!(state.list_room_files("R").len(), 1);
    assert!(sent(&mut state).is_empty());
}

#[test]
fn a_registration_can_run_out_of_numbers() {
    let room = Change::PutRoom(Room {
        id: "R".to_string(),
        name: "".to_string(),
        owner: "alice".to_string(),
        created_at: None,
    });
    let mut state = AppState::new(Db::open(&vec![room], i64::MAX - 1));
    let files = vec![new_file("a.wav", 4), new_file("b.wav", 8)];
    let plan = state.register_files("R", "alice", &files).unwrap();
    assert!(!plan.complete);
    assert_eq!(plan.changes.len(), 1);
    assert_eq!(plan.files[0].id, i64::MAX);
    assert_eq!(
        state.finish_registration(plan, 1),
        Err(Status::InternalServerError)
    );
    assert_eq!(state.list_room_files("R").len(), 1);
    assert!(sent(&mut state).is_empty());
}

#[test]
fn lists_say_who_labels() {
    let mut state = server();
    make_room(&mut state, "R");
    let ids = register(&mut state, "R", &["a.wav", "b.wav"]);
    assert!(state.claim_file("R", ids[1], "bob"));
    let listed = state.list_room_files("R");
    assert_eq!(listed[0].annotating_by, None);
    assert_eq!(listed[1].annotating_by, Some("bob".to_string()));
    assert_eq!(
        listed[1],
        ListedFile {
            id: ids[1],
            name: "b.wav".to_string(),
            size: 4,
            uploaded: false,
            owner: Some("alice".to_string()),
            duration: None,
            status: "pending".to_string(),
            annotated_by: None,
            updated_at: None,
            annotating_by: Some("bob".to_string()),
        }
    );
    assert!(state.list_room_files("S").is_empty());
}

#[test]
fn an_uploaded_file_stays_where_it_is() {
    let mut state = server();
    make_room(&mut state, "R");
    let id = register(&mut state, "R", &["a.wav"])[0];
    let place = upload(&mut state, "R", id);
    register(&mut state, "R", &["b.wav"]);
    let plan = state.save_annotation(id, label("bob"), NOW).unwrap();
    assert_eq!(state.finish_annotation(plan, 2), Ok(()));
    let file = state.db().get_file(id).unwrap();
    assert_eq!((file.path, file.name.as_str(), file.uploaded), (place, "a.wav", true));
    assert_eq!((file.room_id.as_str(), file.owner), ("R", Some("alice".to_string())));
    let again = state.upload_room_audio("R", id, "alice", PathStyle::Unix);
    assert_eq!(again, Err(Status::Conflict));
}

#[test]
fn forms_need_both_parts() {
    assert_eq!(form_field(Some("user")), FormField::User);
    assert_eq!(form_field(Some("file")), FormField::File);
    assert_eq!(form_field(Some("File")), FormField::Other);
    assert_eq!(form_field(None), FormField::Other);
    assert_eq!(UploadForm::new().complete(), Err(Status::BadRequest));
    let mut form = UploadForm::new();
    form.set_user("alice".to_string());
    assert_eq!(form.complete(), Err(Status::BadRequest));
    let mut form = UploadForm::new();
    form.set_data(b"RIFF".to_vec());
    assert_eq!(form.complete(), Err(Status::BadRequest));
    let mut form = UploadForm::new();
    form.set_user("bob".to_string());
    form.set_data(b"RIFF".to_vec());
    form.set_user("alice".to_string());
    assert_eq!(form.complete(), Ok(("alice".to_string(), b"RIFF".to_vec())));
}

#[test]
fn uploads_are_stored_under_a_random_name() {
    let mut state = server();
    make_room(&mut state, "R");
    let ids = register(&mut state, "R", &["a.wav", "noext", "x.tar.gz"]);
    let plan = state.plan_upload("R", ids[0], "alice", UUID, PathStyle::Unix).unwrap();
    assert_eq!(plan.stored, format!("{UUID}.wav"));
    assert_eq!((plan.room.as_str(), plan.id), ("R", ids[0]));
    let plan = state.plan_upload("R", ids[1], "alice", UUID, PathStyle::Unix).unwrap();
    assert_eq!(plan.stored, format!("{UUID}.bin"));
    let plan = state.plan_upload("R", ids[2], "alice", UUID, PathStyle::Unix).unwrap();
    assert_eq!(plan.stored, format!("{UUID}.gz"));
    let first = state.upload_room_audio("R", ids[0], "alice", PathStyle::Unix).unwrap();
    let second = state.upload_room_audio("R", ids[0], "alice", PathStyle::Unix).unwrap();
    assert_ne!(first.stored, second.stored);
    assert_eq!(first.stored.len(), 40);
    assert!(first.stored.ends_with(".wav"));
    for (i, c) in first.stored.chars().take(36).enumerate() {
        match i {
            8 | 13 | 18 | 23 => assert_eq!(c, '-'),
            14 => assert_eq!(c, '4'),
            19 => assert!("89ab".contains(c)),
            _ => assert!(c.is_ascii_digit() || ('a'..='f').contains(&c)),
        }
    }
}

#[test]
fn uploads_are_refused() {
    let mut state = server();
    make_room(&mut state, "R");
    make_room(&mut state, "S");
    let id = register(&mut state, "R", &["a.wav"])[0];
    assert_eq!(state.upload_room_audio("R", 99, "alice", PathStyle::Unix), Err(Status::NotFound));
    assert_eq!(state.upload_room_audio("S", id, "alice", PathStyle::Unix), Err(Status::NotFound));
    assert_eq!(state.upload_room_audio("R", id, "bob", PathStyle::Unix), Err(Status::Forbidden));
    assert_eq!(state.upload_room_audio("R", id, " alice", PathStyle::Unix), Err(Status::Forbidden));
    upload(&mut state, "R", id);
    assert_eq!(state.upload_room_audio("R", id, "alice", PathStyle::Unix), Err(Status::Conflict));
    assert_eq!(state.upload_room_audio("R", id, "bob", PathStyle::Unix), Err(Status::Forbidden));
}

#[test]
fn a_file_without_an_owner_cannot_be_uploaded() {
    let file = record_from_row(
        1,
        "R".to_string(),
        "a.wav".to_string(),
        "".to_string(),
        4,
        0,
        None,
        None,
        "pending".to_string(),
        None,
        None,
    );
    let state = AppState::new(Db::open(&vec![Change::PutFile(file)], 1));
    assert_eq!(state.upload_room_audio("R", 1, "", PathStyle::Unix), Err(Status::Forbidden));
}

#[test]
fn an_upload_is_announced_and_downloaded() {
    let mut state = server();
    make_room(&mut state, "R");
    let id = register(&mut state, "R", &["a.wav"])[0];
    state.take_outbox();
    assert_eq!(state.download_audio(id), Err(Status::NotFound));
    assert_eq!(state.download_audio(99), Err(Status::NotFound));
    let place = upload(&mut state, "R", id);
    assert_eq!(
        sent(&mut state),
        vec![(Target::Room(0), json(r#"{"type": "file_uploaded", "file_id": 1}"#))]
    );
    let plan = state.download_audio(id).unwrap();
    assert_eq!(plan, Download { path: place, name: "a.wav".to_string() });
    let head = finish_download(&plan, true, PathStyle::Unix).unwrap();
    assert_eq!(head.content_type, "audio/wav");
    assert_eq!(head.content_disposition, "attachment; filename=\"a.wav\"");
    assert_eq!(finish_download(&plan, false, PathStyle::Unix), Err(Status::NotFound));
}

#[test]
fn an_upload_can_break_off() {
    let mut state = server();
    make_room(&mut state, "R");
    let id = register(&mut state, "R", &["a.wav"])[0];
    state.take_outbox();
    let plan = state.upload_room_audio("R", id, "alice", PathStyle::Unix).unwrap();
    assert_eq!(
        state.record_upload(plan, false),
        Err(Status::InternalServerError)
    );
    let plan = state.upload_room_audio("R", id, "alice", PathStyle::Unix).unwrap();
    let written = state.record_upload(plan, true).unwrap();
    assert_eq!(state.finish_upload(written, 0), Err(Status::InternalServerError));
    assert!(!state.db().get_file(id).unwrap().uploaded);
    assert!(sent(&mut state).is_empty());
}

#[test]
fn names_go_into_headers() {
    let head = |name: &str| {
        let download = Download { path: "p".to_string(), name: name.to_string() };
        finish_download(&download, true, PathStyle::Unix).map(|h| h.content_disposition)
    };
    assert_eq!(head("录音.wav"), Ok("attachment; filename=\"录音.wav\"".to_string()));
    assert_eq!(head("a\tb.wav"), Ok("attachment; filename=\"a\tb.wav\"".to_string()));
    assert_eq!(head("a\u{80}b"), Ok("attachment; filename=\"a\u{80}b\"".to_string()));
    assert_eq!(head("a\"b"), Ok("attachment; filename=\"a\"b\"".to_string()));
    assert_eq!(head("a\nb.wav"), Err(Status::InternalServerError));
    assert_eq!(head("a\u{0}"), Err(Status::InternalServerError));
    assert_eq!(head("a\u{1f}"), Err(Status::InternalServerError));
    assert_eq!(head("a\u{7f}"), Err(Status::InternalServerError));
}

#[test]
fn a_file_without_a_label_has_an_empty_one() {
    let state = server();
    assert_eq!(
        state.get_annotation(12),
        Annotation {
            file_id: 12,
            is_check: 0,
            lab: "".to_string(),
            lab_without_tone: "".to_string(),
            raw_text: "".to_string(),
            annotated_by: None,
            updated_at: None,
        }
    );
}

#[test]
fn a_label_is_saved_and_announced() {
    let mut state = server();
    make_room(&mut state, "R");
    let ids = register(&mut state, "R", &["a.wav", "b.wav"]);
    assert!(state.claim_file("R", ids[0], "bob"));
    state.take_outbox();
    let plan = state.save_annotation(ids[0], label("bob"), NOW).unwrap();
    assert_eq!(plan.room, "R");
    assert_eq!(plan.changes.len(), 2);
    assert_eq!(state.finish_annotation(plan, 2), Ok(()));
    assert_eq!(
        state.get_annotation(ids[0]),
        Annotation {
            file_id: ids[0],
            is_check: 1,
            lab: "nǐ hǎo".to_string(),
            lab_without_tone: "ni hao".to_string(),
            raw_text: "nihao".to_string(),
            annotated_by: Some("bob".to_string()),
            updated_at: Some(NOW.to_string()),
        }
    );
    let file: FileRecord = state.db().get_file(ids[0]).unwrap();
    assert_eq!(file.status, "done");
    assert_eq!(file.annotated_by, Some("bob".to_string()));
    assert_eq!(state.claim_owner(ids[0]), None);
    assert_eq!(state.get_progress(), (1, 2));
    assert_eq!(
        sent(&mut state),
        vec![
            (
                Target::Room(0),
                json(
                    r#"{"type": "annotated", "user": "bob", "file_id": 1, "data": {"is_check": 1,
                        "lab": "nǐ hǎo", "lab_without_tone": "ni hao", "raw_text": "nihao"}}"#
                )
            ),
            (Target::Room(0), json(r#"{"type": "progress", "done": 1, "total": 2}"#)),
        ]
    );
}

#[test]
fn a_label_leaves_the_claims_of_others() {
    let mut state = server();
    make_room(&mut state, "R");
    let id = register(&mut state, "R", &["a.wav"])[0];
    assert!(state.claim_file("R", id, "carol"));
    let plan = state.save_annotation(id, label("bob"), NOW).unwrap();
    assert_eq!(state.finish_annotation(plan, 2), Ok(()));
    assert_eq!(state.claim_owner(id), Some("carol".to_string()));
}

#[test]
fn a_label_needs_a_file() {
    let state = server();
    assert_eq!(state.save_annotation(5, label("bob"), NOW), Err(Status::NotFound));
}

#[test]
fn a_label_can_break_off() {
    let mut state = server();
    make_room(&mut state, "R");
    let id = register(&mut state, "R", &["a.wav"])[0];
    state.take_outbox();
    let plan = state.save_annotation(id, label("bob"), NOW).unwrap();
    assert_eq!(state.finish_annotation(plan, 0), Err(Status::InternalServerError));
    assert_eq!(state.get_annotation(id).annotated_by, None);
    let plan = state.save_annotation(id, label("bob"), NOW).unwrap();
    assert_eq!(state.finish_annotation(plan, 1), Err(Status::InternalServerError));
    assert_eq!(state.get_annotation(id).annotated_by, Some("bob".to_string()));
    assert_eq!(state.get_progress(), (0, 1));
    assert!(sent(&mut state).is_empty());
}
