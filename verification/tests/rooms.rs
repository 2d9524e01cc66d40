//! The flow of a room with two clients: create a room, register files, a peer
//! asks for a file, the owner uploads it on demand, the peer downloads and
//! labels it.
use minlabel_server::db::Db;
use minlabel_server::http::{finish_download, Label, NewFile, Status};
use minlabel_server::state::{AppState, Delivery, Target};
use minlabel_server::text::PathStyle;
use serde_json::Value;

const NOW: &str = "2024-05-01 10:00:00";
const ALICE: u64 = 1;
const BOB: u64 = 2;

fn make_room(state: &mut AppState, user: &str) -> String {
    let plan = state.create_room(user, NOW).unwrap();
    let stored = plan.changes.len();
    state.finish_room(plan, stored).unwrap()
}

fn register(state: &mut AppState, room: &str, user: &str, files: &[(&str, i64)]) -> Vec<i64> {
    let files: Vec<NewFile> = files
        .iter()
        .map(|(name, size)| NewFile { name: name.to_string(), size: *size })
        .collect();
    let plan = state.register_files(room, user, &files).unwrap();
    let stored = plan.changes.len();
    let answer = state.finish_registration(plan, stored).unwrap();
    answer.iter().map(|f| f.id).collect()
}

/// Joins a room; the answer is the channel to listen to.
fn connect(state: &mut AppState, user: &str, room: &str, conn: u64) -> usize {
    let visitor = state.ws_handler(user, room).unwrap();
    state.connect(&visitor.room, &visitor.user, conn)
}

fn request(kind: &str, file_id: i64) -> String {
    format!("{{\"type\": \"{kind}\", \"file_id\": {file_id}}}")
}

/// What a client hears of what is to be sent, of one kind.
fn heard(deliveries: &[Delivery], conn: u64, channel: usize, kind: &str) -> Vec<Value> {
    deliveries
        .iter()
        .filter(|d| d.to == Target::Client(conn) || d.to == Target::Room(channel))
        .map(|d| serde_json::from_str::<Value>(&d.text).unwrap())
        .filter(|m| m["type"] == kind)
        .collect()
}

#[test]
fn full_room_flow() {
    let mut state = AppState::new(Db::new());

    // Alice creates a room.
    let code = make_room(&mut state, "alice");
    assert_eq!(code.len(), 6);

    // Alice registers the files without their bytes.
    let ids = register(&mut state, &code, "alice", &[("a.wav", 4), ("b.wav", 8)]);
    assert_eq!(ids.len(), 2);
    let (a_id, b_id) = (ids[0], ids[1]);

    // A fresh list shows them as not uploaded.
    let list = state.list_room_files(&code);
    assert!(!list[0].uploaded);
    assert_eq!(list[0].owner, Some("alice".to_string()));
    assert_eq!(list[0].size, 4);

    // Both clients join.
    let channel = connect(&mut state, "alice", &code, ALICE);
    assert_eq!(connect(&mut state, "bob", &code, BOB), channel);
    state.take_outbox();

    // Bob asks for a.wav; Alice is told to upload it.
    let text = request("request_file", a_id);
    assert_eq!(state.handle_client_message(&code, "bob", BOB, &text, NOW), None);
    let out = state.take_outbox();
    let req = heard(&out, ALICE, channel, "file_requested");
    assert_eq!(req.len(), 1);
    assert_eq!(req[0]["file_id"], a_id);

    // Alice uploads the bytes on demand.
    let plan = state.upload_room_audio(&code, a_id, "alice", PathStyle::Unix).unwrap();
    let stored_at = plan.stored.clone();
    let written = state.record_upload(plan, true).unwrap();
    assert_eq!(state.finish_upload(written, 1), Ok(a_id));

    // Bob hears of it and downloads the file.
    let out = state.take_outbox();
    let evt = heard(&out, BOB, channel, "file_uploaded");
    assert_eq!(evt.len(), 1);
    assert_eq!(evt[0]["file_id"], a_id);
    let download = state.download_audio(a_id).unwrap();
    assert_eq!(download.path, stored_at);
    assert!(finish_download(&download, true, PathStyle::Unix).is_ok());

    // Asking for the same file again is answered directly.
    assert_eq!(state.handle_client_message(&code, "bob", BOB, &text, NOW), None);
    let out = state.take_outbox();
    let ready = heard(&out, BOB, channel, "file_ready");
    assert_eq!(ready.len(), 1);
    assert_eq!(ready[0]["file_id"], a_id);

    // Somebody who does not own a file cannot upload it.
    let refused = state.upload_room_audio(&code, b_id, "bob", PathStyle::Unix);
    assert_eq!(refused.map_err(|s| s.code()), Err(403));

    // Bob labels the file; Alice hears of it.
    let label = Label {
        is_check: 1,
        lab: "ni hao".to_string(),
        lab_without_tone: "ni hao".to_string(),
        raw_text: "nihao".to_string(),
        user: "bob".to_string(),
    };
    let plan = state.save_annotation(a_id, label, NOW).unwrap();
    assert_eq!(state.finish_annotation(plan, 2), Ok(()));
    let out = state.take_outbox();
    let annotated = heard(&out, ALICE, channel, "annotated");
    assert_eq!(annotated.len(), 1);
    assert_eq!(annotated[0]["file_id"], a_id);
    assert_eq!(annotated[0]["user"], "bob");
    assert_eq!(annotated[0]["data"]["lab"], "ni hao");

    // Bob claims the other file; Alice hears of it.
    let text = request("claim", b_id);
    assert_eq!(state.handle_client_message(&code, "bob", BOB, &text, NOW), None);
    let out = state.take_outbox();
    let presence = heard(&out, ALICE, channel, "presence");
    assert_eq!(presence.len(), 1);
    assert_eq!(presence[0]["user"], "bob");
    assert_eq!(presence[0]["file_id"], b_id);
}

#[test]
fn offline_owner_is_reported() {
    let mut state = AppState::new(Db::new());
    let code = make_room(&mut state, "alice");
    let a_id = register(&mut state, &code, "alice", &[("a.wav", 4)])[0];

    // Alice never connects; Bob's request reports the file as unavailable.
    let channel = connect(&mut state, "bob", &code, BOB);
    state.take_outbox();
    let text = request("request_file", a_id);
    assert_eq!(state.handle_client_message(&code, "bob", BOB, &text, NOW), None);
    let out = state.take_outbox();
    let evt = heard(&out, BOB, channel, "file_unavailable");
    assert_eq!(evt.len(), 1);
    assert_eq!(evt[0]["file_id"], a_id);

    // An unknown room is refused at connect time.
    assert_eq!(state.ws_handler("x", "NOPE"), Err(Status::NotFound));
}

#[test]
fn rooms_are_isolated() {
    let mut state = AppState::new(Db::new());
    let room_a = make_room(&mut state, "a");
    let room_b = make_room(&mut state, "a");
    assert_ne!(room_a, room_b);
    let a_id = register(&mut state, &room_a, "a", &[("a.wav", 1)])[0];

    // The list of the other room does not contain the file.
    assert_eq!(state.list_room_files(&room_b).len(), 0);

    // Claiming a file from outside its room is rejected.
    let channel = connect(&mut state, "bob", &room_b, BOB);
    state.take_outbox();
    let text = request("claim", a_id);
    assert_eq!(state.handle_client_message(&room_b, "bob", BOB, &text, NOW), None);
    let out = state.take_outbox();
    let rejected = heard(&out, BOB, channel, "claim_rejected");
    assert_eq!(rejected.len(), 1);
    assert_eq!(rejected[0]["file_id"], a_id);
}
