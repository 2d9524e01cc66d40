use minlabel_server::db::Db;
use minlabel_server::http::{NewFile, Status};
use minlabel_server::message::{ClientMessage, ServerMessage};
use minlabel_server::record::{record_from_row, Change};
use minlabel_server::state::{AppState, Delivery, Target};
use minlabel_server::ws::{Frame, Heard};
use serde_json::Value;

const NOW: &str = "2024-05-01 10:00:00";
const BOB: u64 = 7;

/// Rooms `R` and `S`; the files 1 and 2 in `R` and 3 in `S`, owned by alice.
fn server() -> AppState {
    let mut state = AppState::new(Db::new());
    for (room, names) in [("R", vec!["a.wav", "b.wav"]), ("S", vec!["c.wav"])] {
        let plan = state.plan_room("alice", room, NOW).unwrap();
        state.finish_room(plan, 1).unwrap();
        let files: Vec<NewFile> = names
            .iter()
            .map(|n| NewFile { name: n.to_string(), size: 1 })
            .collect();
        let plan = state.register_files(room, "alice", &files).unwrap();
        let stored = plan.changes.len();
        state.finish_registration(plan, stored).unwrap();
    }
    state.take_outbox();
    state
}

fn say(state: &mut AppState, room: &str, user: &str, text: &str) {
    assert_eq!(state.handle_client_message(room, user, BOB, text, NOW), None);
}

fn sent(state: &mut AppState) -> Vec<(Target, Value)> {
    state
        .take_outbox()
        .iter()
        .map(|d| (d.to, serde_json::from_str(&d.text).unwrap()))
        .collect()
}

fn json(text: &str) -> Value {
    serde_json::from_str(text).unwrap()
}

#[test]
fn visitors_are_let_in() {
    let state = server();
    let visitor = state.ws_handler(" bob ", "R").unwrap();
    assert_eq!((visitor.user.as_str(), visitor.room.as_str()), ("bob", "R"));
    assert_eq!(state.ws_handler("", "R"), Err(Status::BadRequest));
    assert_eq!(state.ws_handler("bob", " "), Err(Status::BadRequest));
    assert_eq!(state.ws_handler(" ", "NOPE"), Err(Status::BadRequest));
    assert_eq!(state.ws_handler("bob", "NOPE"), Err(Status::NotFound));
    assert_eq!(state.ws_handler("bob", " R"), Err(Status::NotFound));
}

#[test]
fn a_connection_learns_how_far_the_room_is() {
    let mut state = server();
    let channel = state.connect("R", "bob", BOB);
    assert_eq!(channel, state.room_channel("R"));
    assert_eq!(state.client_of("R", "bob"), Some(BOB));
    assert_eq!(
        sent(&mut state),
        vec![(Target::Client(BOB), json(r#"{"type": "progress", "done": 0, "total": 2}"#))]
    );
}

#[test]
fn rooms_have_their_own_channels() {
    let mut state = AppState::new(Db::new());
    let r = state.room_channel("R");
    let s = state.room_channel("S");
    assert_ne!(r, s);
    assert_eq!(state.room_channel("R"), r);
    assert_eq!(state.room_channel("S"), s);
    state.broadcast_to("S", "hello");
    state.send_to(3, "you");
    assert_eq!(
        state.take_outbox(),
        vec![
            Delivery { to: Target::Room(s), text: "hello".to_string() },
            Delivery { to: Target::Client(3), text: "you".to_string() },
        ]
    );
    assert!(state.take_outbox().is_empty());
}

#[test]
fn a_claim_is_announced_or_rejected() {
    let mut state = server();
    let channel = state.room_channel("R");
    say(&mut state, "R", "bob", r#"{"type": "claim", "file_id": 1}"#);
    assert_eq!(state.claim_owner(1), Some("bob".to_string()));
    say(&mut state, "R", "bob", r#"{"type": "claim", "file_id": 1}"#);
    say(&mut state, "R", "carol", r#"{"type": "claim", "file_id": 1}"#);
    say(&mut state, "R", "carol", r#"{"type": "claim", "file_id": 3}"#);
    say(&mut state, "R", "carol", r#"{"type": "claim", "file_id": 99}"#);
    assert_eq!(
        sent(&mut state),
        vec![
            (
                Target::Room(channel),
                json(r#"{"type": "presence", "user": "bob", "file_id": 1}"#)
            ),
            (
                Target::Room(channel),
                json(r#"{"type": "presence", "user": "bob", "file_id": 1}"#)
            ),
            (
                Target::Client(BOB),
                json(r#"{"type": "claim_rejected", "file_id": 1, "owner": "bob"}"#)
            ),
            (
                Target::Client(BOB),
                json(r#"{"type": "claim_rejected", "file_id": 3, "owner": null}"#)
            ),
            (
                Target::Client(BOB),
                json(r#"{"type": "claim_rejected", "file_id": 99, "owner": null}"#)
            ),
        ]
    );
    assert_eq!(state.claim_owner(3), None);
}

#[test]
fn a_release_needs_the_holder() {
    let mut state = server();
    let channel = state.room_channel("R");
    assert!(state.claim_file("R", 1, "bob"));
    say(&mut state, "R", "carol", r#"{"type": "release", "file_id": 1}"#);
    say(&mut state, "R", "bob", r#"{"type": "release", "file_id": 2}"#);
    assert!(sent(&mut state).is_empty());
    assert_eq!(state.claim_owner(1), Some("bob".to_string()));
    say(&mut state, "R", "bob", r#"{"type": "release", "file_id": 1}"#);
    assert_eq!(
        sent(&mut state),
        vec![(
            Target::Room(channel),
            json(r#"{"type": "release", "user": "bob", "file_id": 1}"#)
        )]
    );
    assert_eq!(state.claim_owner(1), None);
    assert!(!state.release_file(1, "bob"));
    assert!(state.claim_file("R", 1, "carol"));
}

#[test]
fn a_request_reaches_the_owner() {
    let mut state = server();
    state.connect("R", "alice", 1);
    state.connect("S", "alice", 2);
    state.take_outbox();
    say(&mut state, "R", "bob", r#"{"type": "request_file", "file_id": 1}"#);
    assert_eq!(
        sent(&mut state),
        vec![(Target::Client(1), json(r#"{"type": "file_requested", "file_id": 1}"#))]
    );
    say(&mut state, "R", "alice", r#"{"type": "request_file", "file_id": 1}"#);
    say(&mut state, "R", "bob", r#"{"type": "request_file", "file_id": 3}"#);
    say(&mut state, "R", "bob", r#"{"type": "request_file", "file_id": 99}"#);
    assert!(sent(&mut state).is_empty());
    state.leave("R", "alice");
    state.handle_file_request("R", "bob", BOB, 1);
    assert_eq!(
        sent(&mut state),
        vec![(Target::Client(BOB), json(r#"{"type": "file_unavailable", "file_id": 1}"#))]
    );
}

#[test]
fn a_file_without_an_owner_is_unavailable() {
    let file = record_from_row(
        1,
        "R".to_string(),
        "a.wav".to_string(),
        "".to_string(),
        4,
        0,
        None,
        None,
        "pending".to_string(),
        None,
        None,
    );
    let mut state = AppState::new(Db::open(&vec![Change::PutFile(file)], 1));
    state.handle_file_request("R", "bob", BOB, 1);
    assert_eq!(
        sent(&mut state),
        vec![(Target::Client(BOB), json(r#"{"type": "file_unavailable", "file_id": 1}"#))]
    );
}

#[test]
fn an_uploaded_file_is_ready() {
    let mut state = server();
    let change = state.db().mark_uploaded(1, "u.wav").unwrap();
    state.commit_first(&vec![change], 1);
    for user in ["bob", "alice"] {
        state.handle_file_request("R", user, BOB, 1);
        assert_eq!(
            sent(&mut state),
            vec![(Target::Client(BOB), json(r#"{"type": "file_ready", "file_id": 1}"#))]
        );
    }
}

const ANNOTATE: &str = r#"{"type": "annotate", "file_id": 1, "data": {"is_check": 1, "lab": "x",
    "lab_without_tone": "y", "raw_text": "z"}}"#;

#[test]
fn a_label_over_a_connection_is_recorded() {
    let mut state = server();
    let channel = state.room_channel("R");
    assert!(state.claim_file("R", 1, "bob"));
    let plan = state.handle_client_message("R", "bob", BOB, ANNOTATE, NOW).unwrap();
    assert_eq!((plan.room.as_str(), plan.id, plan.changes.len()), ("R", 1, 2));
    assert!(sent(&mut state).is_empty());
    state.finish_label(plan, 2);
    assert_eq!(
        sent(&mut state),
        vec![
            (
                Target::Room(channel),
                json(
                    r#"{"type": "annotated", "user": "bob", "file_id": 1, "data": {"is_check": 1,
                        "lab": "x", "lab_without_tone": "y", "raw_text": "z"}}"#
                )
            ),
            (Target::Room(channel), json(r#"{"type": "progress", "done": 1, "total": 2}"#)),
        ]
    );
    assert_eq!(state.claim_owner(1), None);
    assert_eq!(state.get_annotation(1).lab, "x");
    assert_eq!(state.get_annotation(1).annotated_by, Some("bob".to_string()));
    assert_eq!(state.db().get_file(1).unwrap().status, "done");
}

#[test]
fn a_label_over_a_connection_can_break_off() {
    let mut state = server();
    let plan = state.handle_client_message("R", "bob", BOB, ANNOTATE, NOW).unwrap();
    state.finish_label(plan, 0);
    assert!(sent(&mut state).is_empty());
    assert_eq!(state.get_annotation(1).annotated_by, None);
    let plan = state.handle_client_message("R", "bob", BOB, ANNOTATE, NOW).unwrap();
    state.finish_label(plan, 1);
    let told = sent(&mut state);
    assert_eq!(told.len(), 2);
    assert_eq!(told[1].1, json(r#"{"type": "progress", "done": 0, "total": 2}"#));
    assert_eq!(state.get_annotation(1).lab, "x");
    assert_eq!(state.db().get_file(1).unwrap().status, "pending");
}

#[test]
fn a_label_over_a_connection_needs_a_file() {
    let mut state = server();
    let text = r#"{"type": "annotate", "file_id": 99, "data": {}}"#;
    assert_eq!(state.handle_client_message("R", "bob", BOB, text, NOW), None);
    assert!(sent(&mut state).is_empty());
}

#[test]
fn frames_are_heard() {
    let mut state = server();
    for frame in [Frame::Binary, Frame::Ping, Frame::Pong] {
        assert_eq!(state.hear("R", "bob", BOB, frame, NOW), Heard::Listen);
    }
    assert_eq!(state.hear("R", "bob", BOB, Frame::Close, NOW), Heard::End);
    assert_eq!(
        state.hear("R", "bob", BOB, Frame::Text("no message".to_string()), NOW),
        Heard::Listen
    );
    assert!(sent(&mut state).is_empty());
    let claim = r#"{"type": "claim", "file_id": 2}"#.to_string();
    assert_eq!(state.hear("R", "bob", BOB, Frame::Text(claim), NOW), Heard::Listen);
    assert_eq!(state.claim_owner(2), Some("bob".to_string()));
    match state.hear("R", "bob", BOB, Frame::Text(ANNOTATE.to_string()), NOW) {
        Heard::Record(plan) => assert_eq!(plan.label.lab_without_tone, "y"),
        other => panic!("{other:?}"),
    }
}

#[test]
fn messages_can_be_given_directly() {
    let mut state = server();
    let claim = ClientMessage::Claim { file_id: 2 };
    assert_eq!(state.handle_message("R", "bob", BOB, claim, NOW), None);
    assert_eq!(state.claim_owner(2), Some("bob".to_string()));
    let request = ClientMessage::RequestFile { file_id: 2 };
    state.take_outbox();
    assert_eq!(state.handle_message("R", "bob", BOB, request, NOW), None);
    assert_eq!(
        sent(&mut state),
        vec![(Target::Client(BOB), json(r#"{"type": "file_unavailable", "file_id": 2}"#))]
    );
}

#[test]
fn leaving_frees_every_file() {
    let mut state = server();
    let r = state.room_channel("R");
    let s = state.room_channel("S");
    state.connect("R", "bob", BOB);
    assert!(state.claim_file("R", 1, "bob"));
    assert!(state.claim_file("R", 2, "carol"));
    assert!(state.claim_file("S", 3, "bob"));
    state.take_outbox();
    let mut released = state.disconnect("R", "bob");
    let told = sent(&mut state);
    assert_eq!(told.len(), 2);
    for ((to, message), id) in told.iter().zip(&released) {
        assert_eq!(*to, Target::Room(if *id == 3 { s } else { r }));
        let expected = ServerMessage::Release { user: "bob".to_string(), file_id: *id };
        assert_eq!(*message, expected.to_json());
    }
    released.sort();
    assert_eq!(released, vec![1, 3]);
    assert_eq!(state.claim_owner(1), None);
    assert_eq!(state.claim_owner(2), Some("carol".to_string()));
    assert_eq!(state.claim_owner(3), None);
    assert_eq!(state.client_of("R", "bob"), None);
}

#[test]
fn a_release_is_heard_in_the_room_of_the_file() {
    let mut state = server();
    let s = state.room_channel("S");
    assert!(state.claim_file("S", 3, "bob"));
    say(&mut state, "R", "bob", r#"{"type": "release", "file_id": 3}"#);
    assert_eq!(
        sent(&mut state),
        vec![(Target::Room(s), json(r#"{"type": "release", "user": "bob", "file_id": 3}"#))]
    );
    assert_eq!(state.claim_owner(3), None);
}

#[test]
fn a_file_of_another_room_cannot_be_labelled() {
    let mut state = server();
    let text = r#"{"type": "annotate", "file_id": 3, "data": {"lab": "x"}}"#;
    assert_eq!(state.handle_client_message("R", "bob", BOB, text, NOW), None);
    assert!(sent(&mut state).is_empty());
    assert_eq!(state.get_annotation(3).annotated_by, None);
    assert_eq!(state.db().get_file(3).unwrap().status, "pending");
    assert_eq!(state.db().progress_for_room("S"), (0, 1));
    assert!(state.handle_client_message("S", "bob", BOB, text, NOW).is_some());
}

#[test]
fn leaving_without_files_is_quiet() {
    let mut state = server();
    state.connect("R", "bob", BOB);
    state.take_outbox();
    assert!(state.disconnect("R", "bob").is_empty());
    assert!(sent(&mut state).is_empty());
    assert_eq!(state.release_all("bob"), Vec::<i64>::new());
}

#[test]
fn a_later_connection_takes_the_place() {
    let mut state = server();
    state.join("R", "bob", 1);
    state.join("R", "carol", 2);
    state.join("R", "bob", 3);
    state.join("S", "bob", 4);
    assert_eq!(state.client_of("R", "bob"), Some(3));
    assert_eq!(state.client_of("R", "carol"), Some(2));
    assert_eq!(state.client_of("S", "bob"), Some(4));
    state.leave("R", "bob");
    assert_eq!(state.client_of("R", "bob"), None);
    assert_eq!(state.client_of("R", "carol"), Some(2));
    assert_eq!(state.client_of("S", "bob"), Some(4));
    state.leave("R", "bob");
    assert_eq!(state.client_of("S", "bob"), Some(4));
}

#[test]
fn progress_is_told_and_announced() {
    let mut state = server();
    let progress = state.progress_of("R");
    assert_eq!(progress, ServerMessage::Progress { done: 0, total: 2 });
    state.tell(5, &progress);
    state.announce("R", &progress);
    let channel = state.room_channel("R");
    let text = json(r#"{"type": "progress", "done": 0, "total": 2}"#);
    assert_eq!(
        sent(&mut state),
        vec![(Target::Client(5), text.clone()), (Target::Room(channel), text)]
    );
}
