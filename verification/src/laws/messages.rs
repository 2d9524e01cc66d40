//! Laws of the messages: what is said can be read.
use crate::json::JsonView;
use crate::message::{
    about_file, label_members, read_message, ClientMessageView, ServerMessageView,
};
use vstd::prelude::*;

verus! {

/// The names of the members of messages are all different.
pub(crate) proof fn lemma_keys_differ()
    ensures
        "type"@ != "file_id"@,
        "type"@ != "user"@,
        "type"@ != "owner"@,
        "type"@ != "data"@,
        "type"@ != "done"@,
        "type"@ != "total"@,
        "file_id"@ != "user"@,
        "file_id"@ != "owner"@,
        "file_id"@ != "data"@,
        "user"@ != "data"@,
        "done"@ != "total"@,
        "is_check"@ != "lab"@,
        "is_check"@ != "lab_without_tone"@,
        "is_check"@ != "raw_text"@,
        "lab"@ != "lab_without_tone"@,
        "lab"@ != "raw_text"@,
        "lab_without_tone"@ != "raw_text"@,
{
    reveal_strlit("type");
    reveal_strlit("file_id");
    reveal_strlit("user");
    reveal_strlit("owner");
    reveal_strlit("data");
    reveal_strlit("done");
    reveal_strlit("total");
    reveal_strlit("is_check");
    reveal_strlit("lab");
    reveal_strlit("lab_without_tone");
    reveal_strlit("raw_text");
    assert("type"@.len() == 4 && "type"@[0] == 't');
    assert("file_id"@.len() == 7);
    assert("user"@.len() == 4 && "user"@[0] == 'u');
    assert("owner"@.len() == 5);
    assert("data"@.len() == 4 && "data"@[0] == 'd');
    assert("done"@.len() == 4 && "done"@[0] == 'd');
    assert("total"@.len() == 5);
    assert("is_check"@.len() == 8 && "is_check"@[0] == 'i');
    assert("lab"@.len() == 3);
    assert("lab_without_tone"@.len() == 16);
    assert("raw_text"@.len() == 8 && "raw_text"@[0] == 'r');
}

/// The kinds of messages are all different.
proof fn lemma_kinds_differ()
    ensures
        forall|a: ServerMessageView, b: ServerMessageView|
            #![trigger a.kind(), b.kind()]
            a.kind() == b.kind() ==> {
                &&& a is Presence == b is Presence
                &&& a is Release == b is Release
                &&& a is ClaimRejected == b is ClaimRejected
                &&& a is Annotated == b is Annotated
                &&& a is Progress == b is Progress
                &&& a is FileRequested == b is FileRequested
                &&& a is FileUploaded == b is FileUploaded
                &&& a is FileReady == b is FileReady
                &&& a is FileUnavailable == b is FileUnavailable
            },
{
    reveal_strlit("presence");
    reveal_strlit("release");
    reveal_strlit("claim_rejected");
    reveal_strlit("annotated");
    reveal_strlit("progress");
    reveal_strlit("file_requested");
    reveal_strlit("file_uploaded");
    reveal_strlit("file_ready");
    reveal_strlit("file_unavailable");
    assert("presence"@[2] == 'e');
    assert("progress"@[2] == 'o');
    assert("claim_rejected"@[0] == 'c');
    assert("file_requested"@[0] == 'f');
    assert("claim_rejected"@.len() == 14);
    assert("file_requested"@.len() == 14);
    assert("file_uploaded"@.len() == 13);
    assert("file_unavailable"@.len() == 16);
    assert("file_ready"@.len() == 10);
    assert("annotated"@.len() == 9);
    assert("release"@.len() == 7);
    assert("presence"@.len() == 8);
    assert("progress"@.len() == 8);
}

/// Every message of the server carries its kind in the member `type`, and the
/// file it is about, if it is about one, in the member `file_id`.
pub proof fn law_message_names_its_kind(message: ServerMessageView)
    ensures
        message.json().member("type"@) == Some(JsonView::Text(message.kind())),
        match message {
            ServerMessageView::Presence { file_id, .. } | ServerMessageView::Release {
                file_id,
                ..
            } | ServerMessageView::ClaimRejected { file_id, .. } | ServerMessageView::Annotated {
                file_id,
                ..
            } | ServerMessageView::FileRequested { file_id }
            | ServerMessageView::FileUploaded { file_id } | ServerMessageView::FileReady { file_id }
            | ServerMessageView::FileUnavailable { file_id } => message.json().member("file_id"@)
                == Some(JsonView::Int(file_id as int)),
            ServerMessageView::Progress { done, total } => message.json().member("done"@) == Some(
                JsonView::Int(done as int),
            ) && message.json().member("total"@) == Some(JsonView::Int(total as int)),
        },
{
    lemma_keys_differ();
}

/// Every message about a user names them in the member `user`, and a message
/// about a label carries the label in the member `data`.
pub proof fn law_message_names_its_user(message: ServerMessageView)
    ensures
        match message {
            ServerMessageView::Presence { user, .. } | ServerMessageView::Release { user, .. } =>
                message.json().member("user"@) == Some(JsonView::Text(user)),
            ServerMessageView::ClaimRejected { owner, .. } => message.json().member("owner"@)
                == Some(
                match owner {
                    Some(o) => JsonView::Text(o),
                    None => JsonView::Null,
                },
            ),
            ServerMessageView::Annotated {
                user,
                is_check,
                lab,
                lab_without_tone,
                raw_text,
                ..
            } => {
                let data = JsonView::Object(
                    label_members(is_check, lab, lab_without_tone, raw_text),
                );
                &&& message.json().member("user"@) == Some(JsonView::Text(user))
                &&& message.json().member("data"@) == Some(data)
                &&& data.member("is_check"@) == Some(JsonView::Int(is_check as int))
                &&& data.member("lab"@) == Some(JsonView::Text(lab))
                &&& data.member("lab_without_tone"@) == Some(JsonView::Text(lab_without_tone))
                &&& data.member("raw_text"@) == Some(JsonView::Text(raw_text))
            },
            _ => true,
        },
{
    lemma_keys_differ();
}

/// Two messages that look the same are the same.
pub proof fn law_messages_differ(a: ServerMessageView, b: ServerMessageView)
    requires
        a.json() == b.json(),
    ensures
        a == b,
{
    law_message_names_its_kind(a);
    law_message_names_its_kind(b);
    law_message_names_its_user(a);
    law_message_names_its_user(b);
    lemma_kinds_differ();
    assert(a.kind() == b.kind());
}

/// The four messages that a client sends are understood, for every file, and
/// for every label.
pub proof fn law_client_messages_are_understood(
    file_id: i64,
    is_check: i64,
    lab: Seq<char>,
    lab_without_tone: Seq<char>,
    raw_text: Seq<char>,
)
    ensures
        read_message(Some(JsonView::Object(about_file("claim"@, file_id)))) == Some(
            ClientMessageView::Claim { file_id },
        ),
        read_message(Some(JsonView::Object(about_file("release"@, file_id)))) == Some(
            ClientMessageView::Release { file_id },
        ),
        read_message(Some(JsonView::Object(about_file("request_file"@, file_id)))) == Some(
            ClientMessageView::RequestFile { file_id },
        ),
        read_message(
            Some(
                JsonView::Object(
                    about_file("annotate"@, file_id).insert(
                        "data"@,
                        JsonView::Object(label_members(is_check, lab, lab_without_tone, raw_text)),
                    ),
                ),
            ),
        ) == Some(
            ClientMessageView::Annotate { file_id, is_check, lab, lab_without_tone, raw_text },
        ),
{
    lemma_keys_differ();
    reveal_strlit("claim");
    reveal_strlit("release");
    reveal_strlit("request_file");
    reveal_strlit("annotate");
    assert("claim"@.len() == 5);
    assert("release"@.len() == 7);
    assert("request_file"@.len() == 12);
    assert("annotate"@.len() == 8);
}

/// Members that no message knows make no difference.
pub proof fn law_other_members_are_passed_over(
    members: Map<Seq<char>, JsonView>,
    key: Seq<char>,
    value: JsonView,
)
    requires
        key != "type"@,
        key != "file_id"@,
        key != "data"@,
    ensures
        read_message(Some(JsonView::Object(members.insert(key, value)))) == read_message(
            Some(JsonView::Object(members)),
        ),
{
}

} // verus!
