//! What goes over the wire: what each message says, and what is understood.
use crate::json::{json_parse, json_view, JsonView};
use crate::laws::messages::lemma_keys_differ;
use crate::laws::words::{
    file_packet, label_packet, progress_packet, rejection_packet, user_packet,
};
use crate::message::{
    interpret, label_members, parse_message, read_fields, ClientMessage, MessageFields,
    ServerMessage, ServerMessageView,
};
use serde_json::Value;
use vstd::prelude::*;

verus! {

/// The text of a message, from the ground up.
pub open spec fn wire_text(message: ServerMessageView) -> Seq<char> {
    match message {
        ServerMessageView::Presence { user, file_id } => user_packet("presence"@, user, file_id),
        ServerMessageView::Release { user, file_id } => user_packet("release"@, user, file_id),
        ServerMessageView::ClaimRejected { file_id, owner } => rejection_packet(file_id, owner),
        ServerMessageView::Annotated {
            user,
            file_id,
            is_check,
            lab,
            lab_without_tone,
            raw_text,
        } => label_packet(user, file_id, is_check, lab, lab_without_tone, raw_text),
        ServerMessageView::Progress { done, total } => progress_packet(done, total),
        ServerMessageView::FileRequested { file_id } => file_packet("file_requested"@, file_id),
        ServerMessageView::FileUploaded { file_id } => file_packet("file_uploaded"@, file_id),
        ServerMessageView::FileReady { file_id } => file_packet("file_ready"@, file_id),
        ServerMessageView::FileUnavailable { file_id } => file_packet("file_unavailable"@, file_id),
    }
}

/// The order in which the members of a message were put in makes no difference.
pub(crate) proof fn lemma_wire()
    ensures
        forall|m: ServerMessageView| #[trigger] m.text() == wire_text(m),
{
    lemma_keys_differ();
    assert forall|m: ServerMessageView| #[trigger] m.text() == wire_text(m) by {
        match m {
            ServerMessageView::Presence { user, file_id } => {
                assert(m.members() =~= map![
                    "type"@ => JsonView::Text("presence"@),
                    "user"@ => JsonView::Text(user),
                    "file_id"@ => JsonView::Int(file_id as int),
                ]);
            },
            ServerMessageView::Release { user, file_id } => {
                assert(m.members() =~= map![
                    "type"@ => JsonView::Text("release"@),
                    "user"@ => JsonView::Text(user),
                    "file_id"@ => JsonView::Int(file_id as int),
                ]);
            },
            ServerMessageView::Annotated {
                user,
                file_id,
                is_check,
                lab,
                lab_without_tone,
                raw_text,
            } => {
                let data = map![
                    "is_check"@ => JsonView::Int(is_check as int),
                    "lab"@ => JsonView::Text(lab),
                    "lab_without_tone"@ => JsonView::Text(lab_without_tone),
                    "raw_text"@ => JsonView::Text(raw_text),
                ];
                assert(label_members(is_check, lab, lab_without_tone, raw_text) =~= data);
                assert(m.members() =~= map![
                    "type"@ => JsonView::Text("annotated"@),
                    "user"@ => JsonView::Text(user),
                    "file_id"@ => JsonView::Int(file_id as int),
                    "data"@ => JsonView::Object(data),
                ]);
            },
            _ => {},
        }
    }
}

/// The messages of the server are, letter by letter, the texts of these
/// objects, and whoever reads them finds these objects.
pub proof fn law_messages_are_these_texts(message: ServerMessage, text: String)
    requires
        call_ensures(ServerMessage::to_text, (&message,), text),
    ensures
        text@ == match message {
            ServerMessage::Presence { user, file_id } => user_packet("presence"@, user@, file_id),
            ServerMessage::Release { user, file_id } => user_packet("release"@, user@, file_id),
            ServerMessage::ClaimRejected { file_id, owner } => rejection_packet(
                file_id,
                match owner {
                    Some(o) => Some(o@),
                    None => None,
                },
            ),
            ServerMessage::Annotated {
                user,
                file_id,
                is_check,
                lab,
                lab_without_tone,
                raw_text,
            } => label_packet(user@, file_id, is_check, lab@, lab_without_tone@, raw_text@),
            ServerMessage::Progress { done, total } => progress_packet(done as nat, total as nat),
            ServerMessage::FileRequested { file_id } => file_packet("file_requested"@, file_id),
            ServerMessage::FileUploaded { file_id } => file_packet("file_uploaded"@, file_id),
            ServerMessage::FileReady { file_id } => file_packet("file_ready"@, file_id),
            ServerMessage::FileUnavailable { file_id } => file_packet(
                "file_unavailable"@,
                file_id,
            ),
        },
        json_parse(text@) matches Some(JsonView::Object(members)) && members["type"@]
            == JsonView::Text(
            match message {
                ServerMessage::Presence { .. } => "presence"@,
                ServerMessage::Release { .. } => "release"@,
                ServerMessage::ClaimRejected { .. } => "claim_rejected"@,
                ServerMessage::Annotated { .. } => "annotated"@,
                ServerMessage::Progress { .. } => "progress"@,
                ServerMessage::FileRequested { .. } => "file_requested"@,
                ServerMessage::FileUploaded { .. } => "file_uploaded"@,
                ServerMessage::FileReady { .. } => "file_ready"@,
                ServerMessage::FileUnavailable { .. } => "file_unavailable"@,
            },
        ),
{
    lemma_wire();
    lemma_keys_differ();
}

/// A message as a JSON value has the text of the message.
pub proof fn law_values_have_the_texts(message: ServerMessage, value: Value, text: String)
    requires
        call_ensures(ServerMessage::to_json, (&message,), value),
        call_ensures(ServerMessage::to_text, (&message,), text),
    ensures
        json_parse(text@) == Some(json_view(value)),
{
}

/// The text that stands under a key of an object.
pub open spec fn text_at(value: JsonView, key: Seq<char>) -> Option<Seq<char>> {
    match value {
        JsonView::Object(members) => if members.contains_key(key) {
            match members[key] {
                JsonView::Text(t) => Some(t),
                _ => None,
            }
        } else {
            None
        },
        _ => None,
    }
}

/// The whole number of 64 bits with a sign that stands under a key of an
/// object.
pub open spec fn number_at(value: JsonView, key: Seq<char>) -> Option<int> {
    match value {
        JsonView::Object(members) => if members.contains_key(key) {
            match members[key] {
                JsonView::Int(n) => if -0x8000_0000_0000_0000 <= n <= 0x7fff_ffff_ffff_ffff {
                    Some(n)
                } else {
                    None
                },
                _ => None,
            }
        } else {
            None
        },
        _ => None,
    }
}

/// What stands under a key of an object.
pub open spec fn value_at(value: JsonView, key: Seq<char>) -> Option<JsonView> {
    match value {
        JsonView::Object(members) => if members.contains_key(key) {
            Some(members[key])
        } else {
            None
        },
        _ => None,
    }
}

/// Whether a value is a message of this kind about this file.
pub open spec fn asks(value: Option<JsonView>, kind: Seq<char>, file_id: i64) -> bool {
    value matches Some(v) && text_at(v, "type"@) == Some(kind) && number_at(v, "file_id"@) == Some(
        file_id as int,
    )
}

/// Whether a text under a key is `t`, where an absent one is empty.
pub open spec fn text_or_nothing(value: JsonView, key: Seq<char>, t: Seq<char>) -> bool {
    match text_at(value, key) {
        Some(s) => t == s,
        None => t.len() == 0,
    }
}

/// What is read as a claim, a release or a request is an object that says so of
/// that file, and every such object is read so. A label is read from an object
/// that also has data; what the data lack is zero or empty.
pub proof fn law_messages_are_understood(text: &str, message: Option<ClientMessage>, id: i64)
    requires
        call_ensures(parse_message, (text,), message),
    ensures
        message == Some(ClientMessage::Claim { file_id: id }) <==> asks(
            json_parse(text@),
            "claim"@,
            id,
        ),
        message == Some(ClientMessage::Release { file_id: id }) <==> asks(
            json_parse(text@),
            "release"@,
            id,
        ),
        message == Some(ClientMessage::RequestFile { file_id: id }) <==> asks(
            json_parse(text@),
            "request_file"@,
            id,
        ),
        (message matches Some(ClientMessage::Annotate { file_id, .. }) && file_id == id) <==> (
        asks(json_parse(text@), "annotate"@, id) && value_at(json_parse(text@)->0, "data"@)
            is Some),
        message matches Some(
            ClientMessage::Annotate { is_check, lab, lab_without_tone, raw_text, .. },
        ) ==> ({
            let data = value_at(json_parse(text@)->0, "data"@)->0;
            &&& is_check == match number_at(data, "is_check"@) {
                Some(n) => n,
                None => 0,
            }
            &&& text_or_nothing(data, "lab"@, lab@)
            &&& text_or_nothing(data, "lab_without_tone"@, lab_without_tone@)
            &&& text_or_nothing(data, "raw_text"@, raw_text@)
        }),
{
    lemma_kinds();
    reveal_strlit("");
}

proof fn lemma_kinds()
    ensures
        "claim"@ != "release"@,
        "claim"@ != "request_file"@,
        "claim"@ != "annotate"@,
        "release"@ != "request_file"@,
        "release"@ != "annotate"@,
        "request_file"@ != "annotate"@,
{
    reveal_strlit("claim");
    reveal_strlit("release");
    reveal_strlit("request_file");
    reveal_strlit("annotate");
    assert("claim"@.len() == 5);
    assert("release"@.len() == 7);
    assert("request_file"@.len() == 12);
    assert("annotate"@.len() == 8);
}

/// A text is understood by its fields: reading them and making a message of
/// them gives what is understood of the text.
pub proof fn law_fields_make_the_message(
    text: &str,
    value: Value,
    fields: MessageFields,
    message: Option<ClientMessage>,
    direct: Option<ClientMessage>,
)
    requires
        json_parse(text@) == Some(json_view(value)),
        call_ensures(read_fields, (&value,), fields),
        call_ensures(interpret, (fields,), message),
        call_ensures(parse_message, (text,), direct),
    ensures
        match (message, direct) {
            (Some(a), Some(b)) => a@ == b@,
            (None, None) => true,
            _ => false,
        },
        fields.kind is Some == (text_at(json_view(value), "type"@) is Some),
        fields.kind matches Some(k) ==> text_at(json_view(value), "type"@) == Some(k@),
        match fields.file_id {
            Some(n) => number_at(json_view(value), "file_id"@) == Some(n as int),
            None => number_at(json_view(value), "file_id"@) is None,
        },
        fields.data is Some == (value_at(json_view(value), "data"@) is Some),
{
}

} // verus!
