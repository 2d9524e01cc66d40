//! The messages between the server and the people in a room.
use crate::json::{
    json_as_i64, json_as_str, json_from_text, json_get, json_i64, json_null, json_object,
    json_parse, json_print, json_text, json_to_text, json_u64, json_view, json_with, JsonView,
};
use crate::record::opt_text;
use crate::text::same_text;
use serde_json::Value;
use vstd::prelude::*;

verus! {

/// What the server tells somebody.
#[derive(Debug, PartialEq, Eq)]
pub enum ServerMessage {
    /// Somebody has begun to label a file.
    Presence { user: String, file_id: i64 },
    /// Somebody labels a file no longer.
    Release { user: String, file_id: i64 },
    /// A file cannot be claimed; where somebody holds it, by whom.
    ClaimRejected { file_id: i64, owner: Option<String> },
    /// Somebody has labelled a file.
    Annotated {
        user: String,
        file_id: i64,
        is_check: i64,
        lab: String,
        lab_without_tone: String,
        raw_text: String,
    },
    /// How many files are labelled, of how many.
    Progress { done: u64, total: u64 },
    /// The owner of a file is asked to upload it.
    FileRequested { file_id: i64 },
    /// The bytes of a file have arrived.
    FileUploaded { file_id: i64 },
    /// The bytes of a requested file are there.
    FileReady { file_id: i64 },
    /// The bytes of a requested file cannot be had.
    FileUnavailable { file_id: i64 },
}

/// What a `ServerMessage` says.
pub enum ServerMessageView {
    Presence { user: Seq<char>, file_id: i64 },
    Release { user: Seq<char>, file_id: i64 },
    ClaimRejected { file_id: i64, owner: Option<Seq<char>> },
    Annotated {
        user: Seq<char>,
        file_id: i64,
        is_check: i64,
        lab: Seq<char>,
        lab_without_tone: Seq<char>,
        raw_text: Seq<char>,
    },
    Progress { done: nat, total: nat },
    FileRequested { file_id: i64 },
    FileUploaded { file_id: i64 },
    FileReady { file_id: i64 },
    FileUnavailable { file_id: i64 },
}

impl View for ServerMessage {
    type V = ServerMessageView;

    open spec fn view(&self) -> ServerMessageView {
        match self {
            ServerMessage::Presence { user, file_id } => ServerMessageView::Presence {
                user: user@,
                file_id: *file_id,
            },
            ServerMessage::Release { user, file_id } => ServerMessageView::Release {
                user: user@,
                file_id: *file_id,
            },
            ServerMessage::ClaimRejected { file_id, owner } => ServerMessageView::ClaimRejected {
                file_id: *file_id,
                owner: opt_text(*owner),
            },
            ServerMessage::Annotated {
                user,
                file_id,
                is_check,
                lab,
                lab_without_tone,
                raw_text,
            } => ServerMessageView::Annotated {
                user: user@,
                file_id: *file_id,
                is_check: *is_check,
                lab: lab@,
                lab_without_tone: lab_without_tone@,
                raw_text: raw_text@,
            },
            ServerMessage::Progress { done, total } => ServerMessageView::Progress {
                done: *done as nat,
                total: *total as nat,
            },
            ServerMessage::FileRequested { file_id } => ServerMessageView::FileRequested {
                file_id: *file_id,
            },
            ServerMessage::FileUploaded { file_id } => ServerMessageView::FileUploaded {
                file_id: *file_id,
            },
            ServerMessage::FileReady { file_id } => ServerMessageView::FileReady {
                file_id: *file_id,
            },
            ServerMessage::FileUnavailable { file_id } => ServerMessageView::FileUnavailable {
                file_id: *file_id,
            },
        }
    }
}

/// An object with the member `type`.
pub open spec fn typed(kind: Seq<char>) -> Map<Seq<char>, JsonView> {
    Map::empty().insert("type"@, JsonView::Text(kind))
}

/// An object with the members `type` and `file_id`.
pub open spec fn about_file(kind: Seq<char>, file_id: i64) -> Map<Seq<char>, JsonView> {
    typed(kind).insert("file_id"@, JsonView::Int(file_id as int))
}

/// An object with the members `type`, `file_id` and `user`.
pub open spec fn by_user(kind: Seq<char>, file_id: i64, user: Seq<char>) -> Map<
    Seq<char>,
    JsonView,
> {
    about_file(kind, file_id).insert("user"@, JsonView::Text(user))
}

/// The label itself, as the member `data` holds it.
pub open spec fn label_members(
    is_check: i64,
    lab: Seq<char>,
    lab_without_tone: Seq<char>,
    raw_text: Seq<char>,
) -> Map<Seq<char>, JsonView> {
    Map::empty().insert("is_check"@, JsonView::Int(is_check as int)).insert(
        "lab"@,
        JsonView::Text(lab),
    ).insert("lab_without_tone"@, JsonView::Text(lab_without_tone)).insert(
        "raw_text"@,
        JsonView::Text(raw_text),
    )
}

impl ServerMessageView {
    /// The member `type` of the message.
    pub open spec fn kind(self) -> Seq<char> {
        match self {
            ServerMessageView::Presence { .. } => "presence"@,
            ServerMessageView::Release { .. } => "release"@,
            ServerMessageView::ClaimRejected { .. } => "claim_rejected"@,
            ServerMessageView::Annotated { .. } => "annotated"@,
            ServerMessageView::Progress { .. } => "progress"@,
            ServerMessageView::FileRequested { .. } => "file_requested"@,
            ServerMessageView::FileUploaded { .. } => "file_uploaded"@,
            ServerMessageView::FileReady { .. } => "file_ready"@,
            ServerMessageView::FileUnavailable { .. } => "file_unavailable"@,
        }
    }

    /// The members of the message.
    pub open spec fn members(self) -> Map<Seq<char>, JsonView> {
        match self {
            ServerMessageView::Presence { user, file_id } => by_user(self.kind(), file_id, user),
            ServerMessageView::Release { user, file_id } => by_user(self.kind(), file_id, user),
            ServerMessageView::ClaimRejected { file_id, owner } => about_file(
                self.kind(),
                file_id,
            ).insert(
                "owner"@,
                match owner {
                    Some(o) => JsonView::Text(o),
                    None => JsonView::Null,
                },
            ),
            ServerMessageView::Annotated {
                user,
                file_id,
                is_check,
                lab,
                lab_without_tone,
                raw_text,
            } => by_user(self.kind(), file_id, user).insert(
                "data"@,
                JsonView::Object(label_members(is_check, lab, lab_without_tone, raw_text)),
            ),
            ServerMessageView::Progress { done, total } => typed(self.kind()).insert(
                "done"@,
                JsonView::Int(done as int),
            ).insert("total"@, JsonView::Int(total as int)),
            ServerMessageView::FileRequested { file_id } => about_file(self.kind(), file_id),
            ServerMessageView::FileUploaded { file_id } => about_file(self.kind(), file_id),
            ServerMessageView::FileReady { file_id } => about_file(self.kind(), file_id),
            ServerMessageView::FileUnavailable { file_id } => about_file(self.kind(), file_id),
        }
    }

    /// The message as a JSON value.
    pub open spec fn json(self) -> JsonView {
        JsonView::Object(self.members())
    }

    /// The message as it is sent.
    pub open spec fn text(self) -> Seq<char> {
        json_print(self.json())
    }
}

fn typed_value(kind: &str) -> (value: Value)
    ensures
        json_view(value) == JsonView::Object(typed(kind@)),
{
    json_with(json_object(), "type", json_text(kind))
}

fn file_value(kind: &str, file_id: i64) -> (value: Value)
    ensures
        json_view(value) == JsonView::Object(about_file(kind@, file_id)),
{
    json_with(typed_value(kind), "file_id", json_i64(file_id))
}

fn user_value(kind: &str, file_id: i64, user: &str) -> (value: Value)
    ensures
        json_view(value) == JsonView::Object(by_user(kind@, file_id, user@)),
{
    json_with(file_value(kind, file_id), "user", json_text(user))
}

fn label_value(is_check: i64, lab: &str, lab_without_tone: &str, raw_text: &str) -> (value: Value)
    ensures
        json_view(value) == JsonView::Object(
            label_members(is_check, lab@, lab_without_tone@, raw_text@),
        ),
{
    let value = json_with(json_object(), "is_check", json_i64(is_check));
    let value = json_with(value, "lab", json_text(lab));
    let value = json_with(value, "lab_without_tone", json_text(lab_without_tone));
    json_with(value, "raw_text", json_text(raw_text))
}

/// The messages of the server have plain keys only.
proof fn lemma_json_is_message(message: ServerMessageView)
    ensures
        message.json().is_message(),
{
    reveal_strlit("type");
    reveal_strlit("file_id");
    reveal_strlit("user");
    reveal_strlit("owner");
    reveal_strlit("data");
    reveal_strlit("done");
    reveal_strlit("total");
    reveal_strlit("is_check");
    reveal_strlit("lab");
    reveal_strlit("lab_without_tone");
    reveal_strlit("raw_text");
}

impl ServerMessage {
    /// The message as a JSON value.
    pub fn to_json(&self) -> (value: Value)
        ensures
            json_view(value) == self@.json(),
    {
        match self {
            ServerMessage::Presence { user, file_id } => user_value("presence", *file_id, user),
            ServerMessage::Release { user, file_id } => user_value("release", *file_id, user),
            ServerMessage::ClaimRejected { file_id, owner } => {
                let owner_value = match owner {
                    Some(o) => json_text(o),
                    None => json_null(),
                };
                json_with(file_value("claim_rejected", *file_id), "owner", owner_value)
            },
            ServerMessage::Annotated {
                user,
                file_id,
                is_check,
                lab,
                lab_without_tone,
                raw_text,
            } => json_with(
                user_value("annotated", *file_id, user),
                "data",
                label_value(*is_check, lab, lab_without_tone, raw_text),
            ),
            ServerMessage::Progress { done, total } => json_with(
                json_with(typed_value("progress"), "done", json_u64(*done)),
                "total",
                json_u64(*total),
            ),
            ServerMessage::FileRequested { file_id } => file_value("file_requested", *file_id),
            ServerMessage::FileUploaded { file_id } => file_value("file_uploaded", *file_id),
            ServerMessage::FileReady { file_id } => file_value("file_ready", *file_id),
            ServerMessage::FileUnavailable { file_id } => file_value("file_unavailable", *file_id),
        }
    }

    /// The message as it is sent. Whoever reads it finds the message in it.
    pub fn to_text(&self) -> (text: String)
        ensures
            text@ == self@.text(),
            json_parse(text@) == Some(self@.json()),
    {
        let value = self.to_json();
        proof {
            lemma_json_is_message(self@);
        }
        json_to_text(&value)
    }
}

/// What somebody tells the server.
#[derive(Debug, PartialEq, Eq)]
pub enum ClientMessage {
    /// They begin to label a file.
    Claim { file_id: i64 },
    /// They label a file no longer.
    Release { file_id: i64 },
    /// They need the bytes of a file.
    RequestFile { file_id: i64 },
    /// They have labelled a file.
    Annotate {
        file_id: i64,
        is_check: i64,
        lab: String,
        lab_without_tone: String,
        raw_text: String,
    },
}

/// What a `ClientMessage` says.
pub enum ClientMessageView {
    Claim { file_id: i64 },
    Release { file_id: i64 },
    RequestFile { file_id: i64 },
    Annotate {
        file_id: i64,
        is_check: i64,
        lab: Seq<char>,
        lab_without_tone: Seq<char>,
        raw_text: Seq<char>,
    },
}

impl View for ClientMessage {
    type V = ClientMessageView;

    open spec fn view(&self) -> ClientMessageView {
        match self {
            ClientMessage::Claim { file_id } => ClientMessageView::Claim { file_id: *file_id },
            ClientMessage::Release { file_id } => ClientMessageView::Release { file_id: *file_id },
            ClientMessage::RequestFile { file_id } => ClientMessageView::RequestFile {
                file_id: *file_id,
            },
            ClientMessage::Annotate { file_id, is_check, lab, lab_without_tone, raw_text } =>
                ClientMessageView::Annotate {
                file_id: *file_id,
                is_check: *is_check,
                lab: lab@,
                lab_without_tone: lab_without_tone@,
                raw_text: raw_text@,
            },
        }
    }
}

/// The members of the member `data` of a message, those that have the right
/// type.
#[derive(Debug, PartialEq, Eq)]
pub struct LabelFields {
    pub is_check: Option<i64>,
    pub lab: Option<String>,
    pub lab_without_tone: Option<String>,
    pub raw_text: Option<String>,
}

/// The members of a message, those that have the right type.
#[derive(Debug, PartialEq, Eq)]
pub struct MessageFields {
    pub kind: Option<String>,
    pub file_id: Option<i64>,
    pub data: Option<LabelFields>,
}

/// What `LabelFields` say.
pub struct LabelFieldsView {
    pub is_check: Option<i64>,
    pub lab: Option<Seq<char>>,
    pub lab_without_tone: Option<Seq<char>>,
    pub raw_text: Option<Seq<char>>,
}

/// What `MessageFields` say.
pub struct MessageFieldsView {
    pub kind: Option<Seq<char>>,
    pub file_id: Option<i64>,
    pub data: Option<LabelFieldsView>,
}

impl View for LabelFields {
    type V = LabelFieldsView;

    open spec fn view(&self) -> LabelFieldsView {
        LabelFieldsView {
            is_check: self.is_check,
            lab: opt_text(self.lab),
            lab_without_tone: opt_text(self.lab_without_tone),
            raw_text: opt_text(self.raw_text),
        }
    }
}

impl View for MessageFields {
    type V = MessageFieldsView;

    open spec fn view(&self) -> MessageFieldsView {
        MessageFieldsView {
            kind: opt_text(self.kind),
            file_id: self.file_id,
            data: match self.data {
                Some(d) => Some(d@),
                None => None,
            },
        }
    }
}

/// The member `key` of a value, where it is a text.
pub open spec fn text_member(value: JsonView, key: Seq<char>) -> Option<Seq<char>> {
    match value.member(key) {
        Some(m) => m.as_text(),
        None => None,
    }
}

/// The member `key` of a value, where it is an integer of 64 bits.
pub open spec fn int_member(value: JsonView, key: Seq<char>) -> Option<i64> {
    match value.member(key) {
        Some(m) => match m.as_int() {
            Some(n) => Some(n as i64),
            None => None,
        },
        None => None,
    }
}

/// What a message reads in its member `data`.
pub open spec fn label_fields(value: JsonView) -> LabelFieldsView {
    LabelFieldsView {
        is_check: int_member(value, "is_check"@),
        lab: text_member(value, "lab"@),
        lab_without_tone: text_member(value, "lab_without_tone"@),
        raw_text: text_member(value, "raw_text"@),
    }
}

/// What is read of a message.
pub open spec fn message_fields(value: JsonView) -> MessageFieldsView {
    MessageFieldsView {
        kind: text_member(value, "type"@),
        file_id: int_member(value, "file_id"@),
        data: match value.member("data"@) {
            Some(d) => Some(label_fields(d)),
            None => None,
        },
    }
}

/// The text, or the empty text.
pub open spec fn or_empty(text: Option<Seq<char>>) -> Seq<char> {
    match text {
        Some(t) => t,
        None => ""@,
    }
}

/// The message that the fields make up: every message names a file, a label
/// needs data, and what the data lack is zero or empty.
pub open spec fn message_of(fields: MessageFieldsView) -> Option<ClientMessageView> {
    match (fields.kind, fields.file_id) {
        (Some(kind), Some(file_id)) => if kind == "claim"@ {
            Some(ClientMessageView::Claim { file_id })
        } else if kind == "release"@ {
            Some(ClientMessageView::Release { file_id })
        } else if kind == "request_file"@ {
            Some(ClientMessageView::RequestFile { file_id })
        } else if kind == "annotate"@ {
            match fields.data {
                Some(data) => Some(
                    ClientMessageView::Annotate {
                        file_id,
                        is_check: match data.is_check {
                            Some(n) => n,
                            None => 0,
                        },
                        lab: or_empty(data.lab),
                        lab_without_tone: or_empty(data.lab_without_tone),
                        raw_text: or_empty(data.raw_text),
                    },
                ),
                None => None,
            }
        } else {
            None
        },
        _ => None,
    }
}

/// The message in a text that has been read.
pub open spec fn read_message(value: Option<JsonView>) -> Option<ClientMessageView> {
    match value {
        Some(v) => message_of(message_fields(v)),
        None => None,
    }
}

fn member_text(value: &Value, key: &str) -> (text: Option<String>)
    ensures
        opt_text(text) == text_member(json_view(*value), key@),
{
    match json_get(value, key) {
        Some(m) => match json_as_str(m) {
            Some(t) => Some(t.to_owned()),
            None => None,
        },
        None => None,
    }
}

fn member_i64(value: &Value, key: &str) -> (number: Option<i64>)
    ensures
        number == int_member(json_view(*value), key@),
{
    match json_get(value, key) {
        Some(m) => json_as_i64(m),
        None => None,
    }
}

fn text_or_empty(text: Option<String>) -> (out: String)
    ensures
        out@ == or_empty(opt_text(text)),
{
    match text {
        Some(t) => t,
        None => "".to_owned(),
    }
}

/// Reads the members of a message.
pub fn read_fields(value: &Value) -> (fields: MessageFields)
    ensures
        fields@ == message_fields(json_view(*value)),
{
    MessageFields {
        kind: member_text(value, "type"),
        file_id: member_i64(value, "file_id"),
        data: match json_get(value, "data") {
            Some(data) => Some(
                LabelFields {
                    is_check: member_i64(data, "is_check"),
                    lab: member_text(data, "lab"),
                    lab_without_tone: member_text(data, "lab_without_tone"),
                    raw_text: member_text(data, "raw_text"),
                },
            ),
            None => None,
        },
    }
}

/// The message that the fields make up, if they make up one.
pub fn interpret(fields: MessageFields) -> (message: Option<ClientMessage>)
    ensures
        match message {
            Some(m) => message_of(fields@) == Some(m@),
            None => message_of(fields@) is None,
        },
{
    let kind = match fields.kind {
        Some(k) => k,
        None => {
            return None;
        },
    };
    let file_id: i64 = match fields.file_id {
        Some(id) => id,
        None => {
            return None;
        },
    };
    if same_text(&kind, "claim") {
        Some(ClientMessage::Claim { file_id })
    } else if same_text(&kind, "release") {
        Some(ClientMessage::Release { file_id })
    } else if same_text(&kind, "request_file") {
        Some(ClientMessage::RequestFile { file_id })
    } else if same_text(&kind, "annotate") {
        match fields.data {
            Some(data) => Some(
                ClientMessage::Annotate {
                    file_id,
                    is_check: match data.is_check {
                        Some(n) => n,
                        None => 0,
                    },
                    lab: text_or_empty(data.lab),
                    lab_without_tone: text_or_empty(data.lab_without_tone),
                    raw_text: text_or_empty(data.raw_text),
                },
            ),
            None => None,
        }
    } else {
        None
    }
}

/// Reads a message. What is no message is passed over.
pub fn parse_message(text: &str) -> (message: Option<ClientMessage>)
    ensures
        match message {
            Some(m) => read_message(json_parse(text@)) == Some(m@),
            None => read_message(json_parse(text@)) is None,
        },
{
    match json_from_text(text) {
        Some(value) => interpret(read_fields(&value)),
        None => None,
    }
}

} // verus!
