use minlabel_server::message::{
    interpret, parse_message, read_fields, ClientMessage, LabelFields, MessageFields, ServerMessage,
};
use serde_json::Value;

fn read(text: &str) -> Value {
    serde_json::from_str(text).unwrap()
}

#[test]
fn messages_of_the_server_are_json() {
    let user = || "张三".to_string();
    let cases = [
        (
            ServerMessage::Presence { user: user(), file_id: 3 },
            r#"{"type": "presence", "user": "张三", "file_id": 3}"#,
        ),
        (
            ServerMessage::Release { user: user(), file_id: 3 },
            r#"{"type": "release", "user": "张三", "file_id": 3}"#,
        ),
        (
            ServerMessage::ClaimRejected { file_id: 3, owner: Some(user()) },
            r#"{"type": "claim_rejected", "file_id": 3, "owner": "张三"}"#,
        ),
        (
            ServerMessage::ClaimRejected { file_id: -3, owner: None },
            r#"{"type": "claim_rejected", "file_id": -3, "owner": null}"#,
        ),
        (
            ServerMessage::Annotated {
                user: user(),
                file_id: 3,
                is_check: 1,
                lab: "nǐ \"hǎo\"".to_string(),
                lab_without_tone: "ni\nhao".to_string(),
                raw_text: "你好\\".to_string(),
            },
            r#"{"type": "annotated", "user": "张三", "file_id": 3, "data": {"is_check": 1,
                "lab": "nǐ \"hǎo\"", "lab_without_tone": "ni\nhao", "raw_text": "你好\\"}}"#,
        ),
        (
            ServerMessage::Progress { done: 12, total: u64::MAX },
            r#"{"type": "progress", "done": 12, "total": 18446744073709551615}"#,
        ),
        (
            ServerMessage::FileRequested { file_id: 3 },
            r#"{"type": "file_requested", "file_id": 3}"#,
        ),
        (
            ServerMessage::FileUploaded { file_id: 3 },
            r#"{"type": "file_uploaded", "file_id": 3}"#,
        ),
        (
            ServerMessage::FileReady { file_id: i64::MAX },
            r#"{"type": "file_ready", "file_id": 9223372036854775807}"#,
        ),
        (
            ServerMessage::FileUnavailable { file_id: i64::MIN },
            r#"{"type": "file_unavailable", "file_id": -9223372036854775808}"#,
        ),
    ];
    for (message, text) in cases {
        assert_eq!(message.to_json(), read(text));
        assert_eq!(read(&message.to_text()), read(text));
    }
}

#[test]
fn different_messages_read_differently() {
    let messages = [
        ServerMessage::FileReady { file_id: 1 },
        ServerMessage::FileReady { file_id: 2 },
        ServerMessage::FileUploaded { file_id: 1 },
        ServerMessage::Presence { user: "a".to_string(), file_id: 1 },
        ServerMessage::Release { user: "a".to_string(), file_id: 1 },
        ServerMessage::Presence { user: "b".to_string(), file_id: 1 },
    ];
    for (i, a) in messages.iter().enumerate() {
        for (j, b) in messages.iter().enumerate() {
            assert_eq!(a.to_text() == b.to_text(), i == j);
        }
    }
}

#[test]
fn the_text_of_a_message_is_compact() {
    assert_eq!(
        ServerMessage::FileReady { file_id: 7 }.to_text(),
        r#"{"file_id":7,"type":"file_ready"}"#
    );
}

#[test]
fn client_messages_are_read() {
    assert_eq!(
        parse_message(r#"{"type": "claim", "file_id": 3}"#),
        Some(ClientMessage::Claim { file_id: 3 })
    );
    assert_eq!(
        parse_message(r#"{"type": "release", "file_id": -3}"#),
        Some(ClientMessage::Release { file_id: -3 })
    );
    assert_eq!(
        parse_message(r#"{"file_id": 9223372036854775807, "type": "request_file"}"#),
        Some(ClientMessage::RequestFile { file_id: i64::MAX })
    );
    assert_eq!(
        parse_message(
            r#"{"type": "annotate", "file_id": 3, "data": {"is_check": 1, "lab": "a",
                "lab_without_tone": "b", "raw_text": "c"}}"#
        ),
        Some(ClientMessage::Annotate {
            file_id: 3,
            is_check: 1,
            lab: "a".to_string(),
            lab_without_tone: "b".to_string(),
            raw_text: "c".to_string(),
        })
    );
}

#[test]
fn what_a_label_lacks_is_zero_or_empty() {
    let empty = Some(ClientMessage::Annotate {
        file_id: 3,
        is_check: 0,
        lab: "".to_string(),
        lab_without_tone: "".to_string(),
        raw_text: "".to_string(),
    });
    assert_eq!(parse_message(r#"{"type": "annotate", "file_id": 3, "data": {}}"#), empty);
    assert_eq!(parse_message(r#"{"type": "annotate", "file_id": 3, "data": 5}"#), empty);
    assert_eq!(parse_message(r#"{"type": "annotate", "file_id": 3, "data": null}"#), empty);
    assert_eq!(
        parse_message(
            r#"{"type": "annotate", "file_id": 3, "data": {"is_check": "1", "lab": 2, "raw_text": []}}"#
        ),
        empty
    );
    assert_eq!(parse_message(r#"{"type": "annotate", "file_id": 3}"#), None);
}

#[test]
fn what_is_no_message_is_passed_over() {
    for text in [
        "",
        "hello",
        "{",
        "[]",
        "3",
        "null",
        r#"{"file_id": 3}"#,
        r#"{"type": 3, "file_id": 3}"#,
        r#"{"type": "claim"}"#,
        r#"{"type": "claim", "file_id": "3"}"#,
        r#"{"type": "claim", "file_id": 3.0}"#,
        r#"{"type": "claim", "file_id": 9223372036854775808}"#,
        r#"{"type": "claim", "file_id": null}"#,
        r#"{"type": "Claim", "file_id": 3}"#,
        r#"{"type": "unknown", "file_id": 3}"#,
        r#"["type", "claim", "file_id", 3]"#,
    ] {
        assert_eq!(parse_message(text), None, "{text}");
    }
}

#[test]
fn other_members_are_passed_over() {
    assert_eq!(
        parse_message(r#"{"type": "claim", "file_id": 3, "user": "mallory", "x": [1, {}]}"#),
        Some(ClientMessage::Claim { file_id: 3 })
    );
    assert_eq!(
        parse_message(r#"{"type": "claim", "file_id": 3, "type": "release"}"#),
        Some(ClientMessage::Release { file_id: 3 })
    );
}

#[test]
fn fields_are_read_by_type() {
    let fields = read_fields(&read(
        r#"{"type": "annotate", "file_id": 8, "data": {"is_check": 2, "lab": "x", "raw_text": 1}}"#,
    ));
    assert_eq!(
        fields,
        MessageFields {
            kind: Some("annotate".to_string()),
            file_id: Some(8),
            data: Some(LabelFields {
                is_check: Some(2),
                lab: Some("x".to_string()),
                lab_without_tone: None,
                raw_text: None,
            }),
        }
    );
    let nothing = read_fields(&read("[]"));
    assert_eq!(nothing, MessageFields { kind: None, file_id: None, data: None });
    assert_eq!(interpret(nothing), None);
}

#[test]
fn fields_make_up_a_message() {
    let fields = |kind: &str| MessageFields {
        kind: Some(kind.to_string()),
        file_id: Some(4),
        data: None,
    };
    assert_eq!(interpret(fields("claim")), Some(ClientMessage::Claim { file_id: 4 }));
    assert_eq!(interpret(fields("release")), Some(ClientMessage::Release { file_id: 4 }));
    assert_eq!(interpret(fields("request_file")), Some(ClientMessage::RequestFile { file_id: 4 }));
    assert_eq!(interpret(fields("annotate")), None);
    assert_eq!(interpret(fields("")), None);
}
