//! The words in which the laws of the calls are put: what they mean is said
//! here from the ground up, without the functions that the calls go by.
use crate::db::DbView;
use crate::json::{json_print, JsonView};
use crate::laws::names::law_blank_texts;
use crate::record::{Annotation, AnnotationRow, FileRecord, FileRow, Room, RoomRow};
use crate::state::{DeliveryView, StateView, TargetView};
use crate::text::{is_white, trimmed};
use vstd::prelude::*;

verus! {

/// The code points of white space.
pub open spec fn is_blank_char(c: char) -> bool {
    let n = c as int;
    9 <= n <= 13 || n == 32 || n == 0x85 || n == 0xa0 || n == 0x1680 || 0x2000 <= n <= 0x200a || n
        == 0x2028 || n == 0x2029 || n == 0x202f || n == 0x205f || n == 0x3000
}

/// Whether a text is nothing but white space.
pub open spec fn is_blank(s: Seq<char>) -> bool {
    forall|i: int| #![trigger s[i]] 0 <= i < s.len() ==> is_blank_char(s[i])
}

/// Whether `t` is what lies in `s` from `i` to `j`, with white space alone on
/// both sides and none at its own ends.
pub open spec fn is_inside(t: Seq<char>, s: Seq<char>, i: int, j: int) -> bool {
    &&& 0 <= i <= j <= s.len()
    &&& t == s.subrange(i, j)
    &&& forall|k: int| #![trigger s[k]] 0 <= k < i ==> is_blank_char(s[k])
    &&& forall|k: int| #![trigger s[k]] j <= k < s.len() ==> is_blank_char(s[k])
    &&& t.len() > 0 ==> !is_blank_char(t[0]) && !is_blank_char(t[t.len() - 1])
}

/// Whether `t` is `s` without the white space around it.
pub open spec fn is_trim(t: Seq<char>, s: Seq<char>) -> bool {
    exists|i: int, j: int| #[trigger] is_inside(t, s, i, j)
}

/// Whether an optional text says `said`.
pub open spec fn says(text: Option<String>, said: Option<Seq<char>>) -> bool {
    match text {
        Some(t) => said == Some(t@),
        None => said is None,
    }
}

/// Whether a file says, member by member, what a row says.
pub open spec fn is_file(file: FileRecord, row: FileRow) -> bool {
    &&& file.id == row.id
    &&& file.room_id@ == row.room_id
    &&& file.name@ == row.name
    &&& file.path@ == row.path
    &&& file.size == row.size
    &&& file.uploaded == row.uploaded
    &&& says(file.owner, row.owner)
    &&& file.duration == row.duration
    &&& file.status@ == row.status
    &&& says(file.annotated_by, row.annotated_by)
    &&& says(file.updated_at, row.updated_at)
}

/// Whether an annotation says, member by member, what a row says.
pub open spec fn is_annotation(annotation: Annotation, row: AnnotationRow) -> bool {
    &&& annotation.file_id == row.file_id
    &&& annotation.is_check == row.is_check
    &&& annotation.lab@ == row.lab
    &&& annotation.lab_without_tone@ == row.lab_without_tone
    &&& annotation.raw_text@ == row.raw_text
    &&& says(annotation.annotated_by, row.annotated_by)
    &&& says(annotation.updated_at, row.updated_at)
}

/// Whether a room says, member by member, what a row says.
pub open spec fn is_room(room: Room, row: RoomRow) -> bool {
    &&& room.id@ == row.id
    &&& room.name@ == row.name
    &&& room.owner@ == row.owner
    &&& says(room.created_at, row.created_at)
}

/// How many files a room has.
pub open spec fn files_in(db: DbView, room: Seq<char>) -> nat {
    db.files.dom().filter(|id: i64| db.files[id].room_id == room).len()
}

/// How many files of a room have the status `done`.
pub open spec fn done_in(db: DbView, room: Seq<char>) -> nat {
    db.files.dom().filter(
        |id: i64| db.files[id].room_id == room && db.files[id].status == "done"@,
    ).len()
}

/// The text of an object with these members.
pub open spec fn packet(members: Map<Seq<char>, JsonView>) -> Seq<char> {
    json_print(JsonView::Object(members))
}

/// The text `{"type": "progress", "done": .., "total": ..}`.
pub open spec fn progress_packet(done: nat, total: nat) -> Seq<char> {
    packet(
        map![
            "type"@ => JsonView::Text("progress"@),
            "done"@ => JsonView::Int(done as int),
            "total"@ => JsonView::Int(total as int),
        ],
    )
}

/// The text `{"type": .., "file_id": ..}`.
pub open spec fn file_packet(kind: Seq<char>, file_id: i64) -> Seq<char> {
    packet(
        map!["type"@ => JsonView::Text(kind), "file_id"@ => JsonView::Int(file_id as int)],
    )
}

/// The text `{"type": .., "user": .., "file_id": ..}`.
pub open spec fn user_packet(kind: Seq<char>, user: Seq<char>, file_id: i64) -> Seq<char> {
    packet(
        map![
            "type"@ => JsonView::Text(kind),
            "user"@ => JsonView::Text(user),
            "file_id"@ => JsonView::Int(file_id as int),
        ],
    )
}

/// The text `{"type": "claim_rejected", "file_id": .., "owner": ..}`.
pub open spec fn rejection_packet(file_id: i64, owner: Option<Seq<char>>) -> Seq<char> {
    packet(
        map![
            "type"@ => JsonView::Text("claim_rejected"@),
            "file_id"@ => JsonView::Int(file_id as int),
            "owner"@ => match owner {
                Some(o) => JsonView::Text(o),
                None => JsonView::Null,
            },
        ],
    )
}

/// The text `{"type": "annotated", "user": .., "file_id": .., "data": {..}}`.
pub open spec fn label_packet(
    user: Seq<char>,
    file_id: i64,
    is_check: i64,
    lab: Seq<char>,
    lab_without_tone: Seq<char>,
    raw_text: Seq<char>,
) -> Seq<char> {
    packet(
        map![
            "type"@ => JsonView::Text("annotated"@),
            "user"@ => JsonView::Text(user),
            "file_id"@ => JsonView::Int(file_id as int),
            "data"@ => JsonView::Object(
                map![
                    "is_check"@ => JsonView::Int(is_check as int),
                    "lab"@ => JsonView::Text(lab),
                    "lab_without_tone"@ => JsonView::Text(lab_without_tone),
                    "raw_text"@ => JsonView::Text(raw_text),
                ],
            ),
        ],
    )
}

/// Whether a delivery carries a text to the channel of a room.
pub open spec fn reaches_room(
    state: StateView,
    delivery: DeliveryView,
    room: Seq<char>,
    text: Seq<char>,
) -> bool {
    &&& delivery.text == text
    &&& delivery.to matches TargetView::Room(channel) && 0 <= channel < state.channels.len()
        && state.channels[channel] == room
}

/// Whether a delivery carries a text to a connection.
pub open spec fn reaches(delivery: DeliveryView, conn: u64, text: Seq<char>) -> bool {
    delivery.text == text && delivery.to == TargetView::Client(conn)
}

/// Whether nothing was queued between two states.
pub open spec fn is_silent(before: StateView, after: StateView) -> bool {
    after.outbox == before.outbox
}

/// Whether one message was queued behind what was queued before.
pub open spec fn says_one(before: StateView, after: StateView) -> bool {
    after.outbox.len() == before.outbox.len() + 1 && after.outbox.drop_last() == before.outbox
}

/// What trimming gives, and when it gives nothing.
pub(crate) proof fn lemma_trim(s: Seq<char>)
    ensures
        is_trim(trimmed(s), s),
        (trimmed(s).len() == 0) == is_blank(s),
        forall|c: char| is_white(c) == is_blank_char(c),
{
    let (i, j) = lemma_trim_place(s);
    assert(is_inside(trimmed(s), s, i, j));
    law_blank_texts(s);
    if is_blank(s) {
        assert(forall|i: int| #![trigger s[i]] 0 <= i < s.len() ==> is_white(s[i]));
    }
    if trimmed(s).len() == 0 {
        assert(forall|i: int| #![trigger s[i]] 0 <= i < s.len() ==> is_white(s[i]));
    }
}

/// Where the trimmed text lies.
proof fn lemma_trim_place(s: Seq<char>) -> (place: (int, int))
    ensures
        is_inside(trimmed(s), s, place.0, place.1),
    decreases s.len(),
{
    if s.len() == 0 {
        assert(s.subrange(0, 0) =~= s);
        (0, 0)
    } else if is_white(s.first()) {
        let rest = s.drop_first();
        let (i, j) = lemma_trim_place(rest);
        assert(s.subrange(i + 1, j + 1) =~= rest.subrange(i, j));
        assert forall|k: int| #![trigger s[k]] 0 <= k < i + 1 implies is_blank_char(s[k]) by {
            if k > 0 {
                assert(s[k] == rest[k - 1]);
            }
        }
        assert forall|k: int| #![trigger s[k]] j + 1 <= k < s.len() implies is_blank_char(s[k]) by {
            assert(s[k] == rest[k - 1]);
        }
        (i + 1, j + 1)
    } else if is_white(s.last()) {
        let rest = s.drop_last();
        let (i, j) = lemma_trim_place(rest);
        assert(s.subrange(i, j) =~= rest.subrange(i, j));
        assert forall|k: int| #![trigger s[k]] 0 <= k < i implies is_blank_char(s[k]) by {
            assert(s[k] == rest[k]);
        }
        assert forall|k: int| #![trigger s[k]] j <= k < s.len() implies is_blank_char(s[k]) by {
            if k < rest.len() {
                assert(s[k] == rest[k]);
            }
        }
        (i, j)
    } else {
        assert(s.subrange(0, s.len() as int) =~= s);
        (0, s.len() as int)
    }
}

} // verus!
