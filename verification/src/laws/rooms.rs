//! Laws of the rooms: who holds a file, who hears what, and how the bytes of a
//! file come.
use crate::db::DbView;
use crate::http::{
    label_message, label_row, label_rows, labelled, upload_refusal, Label, LabelPlan, Status,
};
use crate::laws::records::{
    law_changes_keep_invariant, law_label_counts_once, law_label_is_read_back,
    law_nothing_is_removed,
};
use crate::message::{ClientMessageView, ServerMessageView};
use crate::record::{change_views, ChangeView};
use crate::state::{DeliveryView, StateView, TargetView};
use crate::ws::{after_claim, after_message, after_request, asks_label, release_told};
use vstd::prelude::*;

verus! {

/// While somebody holds a file, nobody else can claim it, in whatever room.
pub proof fn law_claim_excludes_others(
    state: StateView,
    file_id: i64,
    user: Seq<char>,
    room: Seq<char>,
    other: Seq<char>,
)
    requires
        state.wf(),
        other != user,
    ensures
        !state.claimed(file_id, user).may_claim(room, file_id, other),
        state.claimed(file_id, user).claimant(file_id) == Some(user),
{
}

/// Whoever holds a file can claim it again, and nothing changes.
pub proof fn law_claim_again(state: StateView, room: Seq<char>, file_id: i64, user: Seq<char>)
    requires
        state.wf(),
        state.may_claim(room, file_id, user),
    ensures
        state.claimed(file_id, user).may_claim(room, file_id, user),
        state.claimed(file_id, user).claimed(file_id, user) == state.claimed(file_id, user),
{
    assert(state.claims.insert(file_id, user).insert(file_id, user) =~= state.claims.insert(
        file_id,
        user,
    ));
}

/// A release undoes a claim on a file that nobody held.
pub proof fn law_release_undoes_claim(state: StateView, file_id: i64, user: Seq<char>)
    requires
        state.wf(),
        state.claimant(file_id) is None,
    ensures
        state.claimed(file_id, user).released(file_id, user) == state,
{
    assert(state.claims.insert(file_id, user).remove(file_id) =~= state.claims);
}

/// Nobody can release a file that somebody else holds.
pub proof fn law_release_needs_holder(
    state: StateView,
    file_id: i64,
    user: Seq<char>,
    other: Seq<char>,
)
    requires
        state.wf(),
        state.claimant(file_id) == Some(user),
        other != user,
    ensures
        state.released(file_id, other) == state,
{
}

/// When a user has let go of everything they hold no file, and everybody else
/// holds what they held.
pub proof fn law_release_all(state: StateView, user: Seq<char>, file_id: i64)
    requires
        state.wf(),
    ensures
        state.all_released(user).claimant(file_id) != Some(user),
        state.claimant(file_id) != Some(user) ==> state.all_released(user).claimant(file_id)
            == state.claimant(file_id),
        state.claimant(file_id) == Some(user) ==> state.all_released(user).claimant(file_id)
            is None,
{
}

/// Whoever leaves a room is gone from it; if they had not been there before,
/// it is as if they had not come.
pub proof fn law_leaving_undoes_joining(
    state: StateView,
    room: Seq<char>,
    user: Seq<char>,
    conn: u64,
)
    requires
        state.wf(),
    ensures
        state.joined(room, user, conn).client(room, user) == Some(conn),
        state.left(room, user).client(room, user) is None,
        state.client(room, user) is None ==> state.joined(room, user, conn).left(room, user)
            == state,
{
    if state.client(room, user) is None {
        assert(state.clients.insert((room, user), conn).remove((room, user)) =~= state.clients);
    }
}

/// A room keeps its channel: asking again changes nothing, and channels that
/// are made later leave it where it is.
pub proof fn law_channel_stays(state: StateView, room: Seq<char>, other: Seq<char>)
    requires
        state.wf(),
    ensures
        state.with_channel(room).with_channel(room) == state.with_channel(room),
        state.with_channel(room).with_channel(other).channel_of(room) == state.with_channel(
            room,
        ).channel_of(room),
        state.with_channel(room).wf(),
{
    let open = state.with_channel(room);
    if !state.channels.contains(room) {
        assert(open.channels[state.channels.len() as int] == room);
    }
    assert(open.channels.contains(room));
    let both = open.with_channel(other);
    let i = open.channels.index_of(room);
    assert(open.channels[i] == room);
    assert(both.channels[i] == room);
    assert(both.channels.contains(room));
    let j = both.channels.index_of(room);
    assert(both.channels[j] == room);
    if j < open.channels.len() {
        assert(open.channels[j] == room);
    } else {
        assert(other == room);
        assert(false);
    }
}

/// No two rooms share a channel.
pub proof fn law_rooms_have_their_own_channels(state: StateView, a: Seq<char>, b: Seq<char>)
    requires
        state.wf(),
        a != b,
    ensures
        ({
            let open = state.with_channel(a).with_channel(b);
            &&& 0 <= open.channel_of(a) < open.channels.len()
            &&& 0 <= open.channel_of(b) < open.channels.len()
            &&& open.channel_of(a) != open.channel_of(b)
            &&& open.channels[open.channel_of(a)] == a
            &&& open.channels[open.channel_of(b)] == b
        }),
{
    lemma_has_channel(state, a);
    lemma_has_channel(state.with_channel(a), b);
    let open = state.with_channel(a).with_channel(b);
    let i = state.with_channel(a).channel_of(a);
    assert(open.channels[i] == a);
    assert(open.channels.contains(a));
}

proof fn lemma_has_channel(state: StateView, room: Seq<char>)
    ensures
        state.with_channel(room).channels.contains(room),
        0 <= state.with_channel(room).channel_of(room) < state.with_channel(room).channels.len(),
        state.with_channel(room).channels[state.with_channel(room).channel_of(room)] == room,
        state.channels.len() <= state.with_channel(room).channels.len(),
        forall|i: int|
            #![trigger state.channels[i]]
            0 <= i < state.channels.len() ==> state.with_channel(room).channels[i]
                == state.channels[i],
{
    let open = state.with_channel(room);
    if !state.channels.contains(room) {
        assert(open.channels[state.channels.len() as int] == room);
    }
    assert(open.channels.contains(room));
}

/// Whether a delivery goes to the channel of a room.
pub open spec fn goes_to(state: StateView, room: Seq<char>, delivery: DeliveryView) -> bool {
    delivery.to matches TargetView::Room(channel) && 0 <= channel < state.channels.len()
        && state.channels[channel] == room
}

/// A message to a room goes to the channel of that room and nowhere else.
pub proof fn law_broadcast_stays_in_room(state: StateView, room: Seq<char>, text: Seq<char>)
    requires
        state.wf(),
    ensures
        ({
            let after = state.broadcast(room, text);
            &&& after.wf()
            &&& after.outbox.drop_last() == state.outbox
            &&& after.outbox.last().text == text
            &&& goes_to(after, room, after.outbox.last())
            &&& state.channels.is_prefix_of(after.channels)
            &&& after.db == state.db
            &&& after.claims == state.claims
            &&& after.clients == state.clients
        }),
{
    lemma_has_channel(state, room);
    law_channel_stays(state, room, room);
    assert(state.broadcast(room, text).outbox.drop_last() =~= state.outbox);
}

/// The file that a message is about.
pub open spec fn subject(message: ServerMessageView) -> Option<i64> {
    match message {
        ServerMessageView::Presence { file_id, .. } => Some(file_id),
        ServerMessageView::Release { file_id, .. } => Some(file_id),
        ServerMessageView::ClaimRejected { file_id, .. } => Some(file_id),
        ServerMessageView::Annotated { file_id, .. } => Some(file_id),
        ServerMessageView::Progress { .. } => None,
        ServerMessageView::FileRequested { file_id } => Some(file_id),
        ServerMessageView::FileUploaded { file_id } => Some(file_id),
        ServerMessageView::FileReady { file_id } => Some(file_id),
        ServerMessageView::FileUnavailable { file_id } => Some(file_id),
    }
}

/// Whether a message is a room's own: it is about a file of the room, or it is
/// the progress of the room.
pub open spec fn is_own(state: StateView, room: Seq<char>, said: ServerMessageView) -> bool {
    match subject(said) {
        Some(file_id) => state.db.in_room(file_id, room),
        None => said == state.progress_message(room),
    }
}

/// Whether a delivery says `said` to nobody whom it does not concern. What goes
/// to a room is its own. What goes to a single connection answers the
/// connection `conn`, or goes to somebody in `room` and is about that room.
pub open spec fn is_isolated(
    state: StateView,
    room: Seq<char>,
    conn: u64,
    delivery: DeliveryView,
    said: ServerMessageView,
) -> bool {
    &&& delivery.text == said.text()
    &&& match delivery.to {
        TargetView::Room(channel) => 0 <= channel < state.channels.len() && is_own(
            state,
            state.channels[channel],
            said,
        ),
        TargetView::Client(c) => c == conn || (is_own(state, room, said) && exists|user: Seq<char>|
            #[trigger] state.client(room, user) == Some(c)),
    }
}

/// Whatever somebody in a room says, no room hears on that account of anything
/// but its own files.
pub proof fn law_rooms_hear_of_their_own_files(
    state: StateView,
    room: Seq<char>,
    user: Seq<char>,
    conn: u64,
    message: Option<ClientMessageView>,
    i: int,
) -> (said: ServerMessageView)
    requires
        state.wf(),
        state.outbox.len() <= i < after_message(state, room, user, conn, message).outbox.len(),
    ensures
        ({
            let after = after_message(state, room, user, conn, message);
            is_isolated(after, room, conn, after.outbox[i], said)
        }),
{
    let after = after_message(state, room, user, conn, message);
    match message {
        Some(ClientMessageView::Claim { file_id }) => {
            if state.may_claim(room, file_id, user) {
                let said = ServerMessageView::Presence { user, file_id };
                law_broadcast_stays_in_room(state.claimed(file_id, user), room, said.text());
                assert(after.outbox[i] == after.outbox.last());
                said
            } else {
                ServerMessageView::ClaimRejected { file_id, owner: state.claimant(file_id) }
            }
        },
        Some(ClientMessageView::Release { file_id }) => {
            let said = ServerMessageView::Release { user, file_id };
            let home = state.db.files[file_id].room_id;
            law_broadcast_stays_in_room(state.released(file_id, user), home, said.text());
            assert(after.outbox[i] == after.outbox.last());
            said
        },
        Some(ClientMessageView::RequestFile { file_id }) => {
            let file = state.db.files[file_id];
            if file.uploaded {
                ServerMessageView::FileReady { file_id }
            } else if file.owner is None || state.client(room, file.owner->0) is None {
                ServerMessageView::FileUnavailable { file_id }
            } else {
                assert(after.client(room, file.owner->0) == state.client(room, file.owner->0));
                ServerMessageView::FileRequested { file_id }
            }
        },
        _ => ServerMessageView::Progress { done: 0, total: 0 },
    }
}

/// A message keeps the invariant of the state, and whoever was told something
/// before still is: the outbox only grows.
pub proof fn law_message_keeps_invariant(
    state: StateView,
    room: Seq<char>,
    user: Seq<char>,
    conn: u64,
    message: Option<ClientMessageView>,
)
    requires
        state.wf(),
    ensures
        after_message(state, room, user, conn, message).wf(),
        state.outbox.is_prefix_of(after_message(state, room, user, conn, message).outbox),
        after_message(state, room, user, conn, message).db == state.db,
{
    match message {
        Some(ClientMessageView::Claim { file_id }) => {
            if state.may_claim(room, file_id, user) {
                law_broadcast_stays_in_room(
                    state.claimed(file_id, user),
                    room,
                    (ServerMessageView::Presence { user, file_id }).text(),
                );
            }
        },
        Some(ClientMessageView::Release { file_id }) => {
            law_broadcast_stays_in_room(
                state.released(file_id, user),
                state.db.files[file_id].room_id,
                (ServerMessageView::Release { user, file_id }).text(),
            );
        },
        _ => {},
    }
}

/// The other steps keep the invariant too. So nobody ever holds a file that is
/// not there.
pub proof fn law_steps_keep_invariant(
    state: StateView,
    room: Seq<char>,
    user: Seq<char>,
    conn: u64,
    file_id: i64,
    changes: Seq<ChangeView>,
)
    requires
        state.wf(),
    ensures
        StateView::start(state.db).wf(),
        state.changed(changes).wf(),
        state.released(file_id, user).wf(),
        state.all_released(user).wf(),
        state.joined(room, user, conn).wf(),
        state.left(room, user).wf(),
        state.may_claim(room, file_id, user) ==> state.claimed(file_id, user).wf(),
{
    law_nothing_is_removed(state.db, changes);
    law_changes_keep_invariant(state.db, changes);
    assert forall|id: i64| #[trigger] state.changed(changes).claims.contains_key(id) implies {
        state.changed(changes).db.files.contains_key(id)
    } by {
        assert(state.db.files.dom().contains(id));
    }
}

/// A file of another room can neither be claimed nor asked for nor labelled:
/// nothing is held or recorded on that account, and nobody but the one who
/// tried hears of it.
pub proof fn law_other_rooms_files_are_out_of_reach(
    state: StateView,
    room: Seq<char>,
    user: Seq<char>,
    conn: u64,
    file_id: i64,
    now: Seq<char>,
    message: ClientMessageView,
    plan: Option<LabelPlan>,
)
    requires
        state.wf(),
        !state.db.in_room(file_id, room),
        message matches ClientMessageView::Annotate { file_id: id, .. } ==> id == file_id,
        asks_label(state, room, user, now, Some(message), plan),
    ensures
        after_claim(state, room, user, conn, file_id) == state.send(
            conn,
            (ServerMessageView::ClaimRejected { file_id, owner: state.claimant(file_id) }).text(),
        ),
        after_request(state, room, user, conn, file_id) == state,
        message is Annotate ==> plan is None && after_message(
            state,
            room,
            user,
            conn,
            Some(message),
        ) == state,
{
}

/// When somebody leaves, what is sent on that account goes, file by file, to
/// the room of the file and nowhere else.
pub proof fn law_departures_are_heard_where_they_belong(
    state: StateView,
    user: Seq<char>,
    files: Seq<i64>,
)
    requires
        state.wf(),
        forall|k: int|
            #![trigger files[k]]
            0 <= k < files.len() ==> state.db.files.contains_key(files[k]),
    ensures
        ({
            let after = release_told(state, user, files);
            &&& after.wf()
            &&& after.outbox.len() == state.outbox.len() + files.len()
            &&& state.outbox.is_prefix_of(after.outbox)
            &&& forall|k: int|
                #![trigger files[k]]
                0 <= k < files.len() ==> ({
                    let delivery = after.outbox[state.outbox.len() + k];
                    &&& delivery.text == (ServerMessageView::Release {
                        user,
                        file_id: files[k],
                    }).text()
                    &&& goes_to(after, state.db.files[files[k]].room_id, delivery)
                })
            &&& after.db == state.db
            &&& after.claims == state.claims
            &&& after.clients == state.clients
        }),
    decreases files.len(),
{
    if files.len() > 0 {
        let fewer = files.drop_last();
        let mid = release_told(state, user, fewer);
        assert forall|k: int| #![trigger fewer[k]] 0 <= k < fewer.len() implies {
            state.db.files.contains_key(fewer[k])
        } by {
            assert(fewer[k] == files[k]);
        }
        law_departures_are_heard_where_they_belong(state, user, fewer);
        let last = files[files.len() - 1];
        assert(state.db.files.contains_key(last));
        let home = state.db.files[last].room_id;
        let text = (ServerMessageView::Release { user, file_id: last }).text();
        law_broadcast_stays_in_room(mid, home, text);
        let after = mid.broadcast(home, text);
        assert(release_told(state, user, files) == after);
        assert forall|k: int| #![trigger files[k]] 0 <= k < files.len() implies ({
            let delivery = after.outbox[state.outbox.len() + k];
            &&& delivery.text == (ServerMessageView::Release { user, file_id: files[k] }).text()
            &&& goes_to(after, state.db.files[files[k]].room_id, delivery)
        }) by {
            if k < fewer.len() {
                assert(fewer[k] == files[k]);
                let delivery = mid.outbox[state.outbox.len() + k];
                assert(after.outbox[state.outbox.len() + k] == delivery);
                assert(goes_to(mid, state.db.files[files[k]].room_id, delivery));
            }
        }
    }
}

/// Whether `files` are the files that a user holds, each once.
pub open spec fn are_held(state: StateView, user: Seq<char>, files: Seq<i64>) -> bool {
    &&& files.no_duplicates()
    &&& forall|id: i64| #[trigger] files.contains(id) <==> state.claimant(id) == Some(user)
}

/// Whoever leaves a room holds nothing any longer and is not connected to it.
/// What the others hold stays theirs, and the records stay as they are. What is
/// sent on that account tells each room of its own files only.
pub proof fn law_leaving_frees_files(
    state: StateView,
    room: Seq<char>,
    user: Seq<char>,
    files: Seq<i64>,
    id: i64,
)
    requires
        state.wf(),
        are_held(state, user, files),
    ensures
        ({
            let after = release_told(state.all_released(user), user, files).left(room, user);
            &&& after.wf()
            &&& after.client(room, user) is None
            &&& after.claimant(id) == if files.contains(id) {
                None
            } else {
                state.claimant(id)
            }
            &&& after.claimant(id) != Some(user)
            &&& after.db == state.db
            &&& after.outbox.len() == state.outbox.len() + files.len()
            &&& forall|k: int|
                #![trigger files[k]]
                0 <= k < files.len() ==> ({
                    let delivery = after.outbox[state.outbox.len() + k];
                    &&& delivery.text == (ServerMessageView::Release {
                        user,
                        file_id: files[k],
                    }).text()
                    &&& goes_to(after, state.db.files[files[k]].room_id, delivery)
                    &&& state.db.in_room(files[k], state.db.files[files[k]].room_id)
                })
        }),
{
    let free = state.all_released(user);
    assert forall|k: int| #![trigger files[k]] 0 <= k < files.len() implies {
        free.db.files.contains_key(files[k])
    } by {
        assert(files.contains(files[k]));
        assert(state.claims.contains_key(files[k]));
    }
    law_departures_are_heard_where_they_belong(free, user, files);
    let told = release_told(free, user, files);
    let after = told.left(room, user);
    assert forall|k: int| #![trigger files[k]] 0 <= k < files.len() implies {
        goes_to(after, state.db.files[files[k]].room_id, after.outbox[state.outbox.len() + k])
    } by {
        assert(goes_to(
            told,
            free.db.files[files[k]].room_id,
            told.outbox[free.outbox.len() + k],
        ));
    }
}

/// Somebody who holds no file leaves without any room hearing of it.
pub proof fn law_quiet_leave(state: StateView, room: Seq<char>, user: Seq<char>, files: Seq<i64>)
    requires
        state.wf(),
        are_held(state, user, files),
        forall|id: i64| #[trigger] state.claimant(id) != Some(user),
    ensures
        release_told(state.all_released(user), user, files).left(room, user) == state.left(
            room,
            user,
        ),
{
    if files.len() > 0 {
        assert(files.contains(files[0]));
        assert(state.claimant(files[0]) != Some(user));
    }
    assert forall|id: i64| #[trigger] state.claims.contains_key(id) implies {
        state.claims[id] != user
    } by {
        assert(state.claimant(id) != Some(user));
    }
    assert(state.all_released(user).claims =~= state.claims);
}

/// How the bytes of a file come: once its owner has uploaded them, whoever in
/// the room asks for the file is told that it is ready, the owner cannot upload
/// it again, and the file is at the place where it was stored.
pub proof fn law_uploaded_file_is_ready(
    state: StateView,
    room: Seq<char>,
    id: i64,
    owner: Seq<char>,
    path: Seq<char>,
    user: Seq<char>,
    conn: u64,
)
    requires
        state.wf(),
        upload_refusal(state.db, room, id, owner) is None,
    ensures
        ({
            let row = state.db.uploaded_file(id, path)->0;
            let after = state.changed(seq![ChangeView::PutFile(row)]);
            &&& state.db.uploaded_file(id, path) is Some
            &&& after.wf()
            &&& after_request(after, room, user, conn, id) == after.send(
                conn,
                (ServerMessageView::FileReady { file_id: id }).text(),
            )
            &&& upload_refusal(after.db, room, id, owner) == Some(Status::Conflict)
            &&& after.db.file(id) is Some
            &&& after.db.files[id].uploaded
            &&& after.db.files[id].path == path
        }),
{
    let row = state.db.uploaded_file(id, path)->0;
    let rows = seq![ChangeView::PutFile(row)];
    assert(rows.drop_last() =~= seq![]);
    assert(state.db.apply_all(seq![]) == state.db);
    assert(state.db.apply_all(rows) == state.db.apply(rows.last()));
}

/// Before the upload, a request of somebody else reaches the owner if the owner
/// is connected; if not, the one who asked is told that the file cannot be had.
pub proof fn law_request_reaches_owner(
    state: StateView,
    room: Seq<char>,
    id: i64,
    owner: Seq<char>,
    user: Seq<char>,
    conn: u64,
)
    requires
        state.wf(),
        upload_refusal(state.db, room, id, owner) is None,
        user != owner,
    ensures
        match state.client(room, owner) {
            Some(c) => after_request(state, room, user, conn, id) == state.send(
                c,
                (ServerMessageView::FileRequested { file_id: id }).text(),
            ),
            None => after_request(state, room, user, conn, id) == state.send(
                conn,
                (ServerMessageView::FileUnavailable { file_id: id }).text(),
            ),
        },
{
}

/// Nobody but the owner can upload a file.
pub proof fn law_only_the_owner_uploads(
    db: DbView,
    room: Seq<char>,
    id: i64,
    owner: Seq<char>,
    other: Seq<char>,
)
    requires
        db.wf(),
        upload_refusal(db, room, id, owner) is None,
        other != owner,
    ensures
        upload_refusal(db, room, id, other) == Some(Status::Forbidden),
{
}

/// What a room hears of a label: of the label first and of its progress then.
proof fn lemma_label_is_announced(
    state: StateView,
    room: Seq<char>,
    id: i64,
    label: Label,
)
    requires
        state.wf(),
    ensures
        ({
            let after = labelled(state, room, id, label);
            let n = state.outbox.len() as int;
            &&& after.wf()
            &&& after.db == state.db
            &&& after.claimant(id) != Some(label.user@)
            &&& after.outbox.len() == n + 2
            &&& state.outbox.is_prefix_of(after.outbox)
            &&& after.outbox[n].text == label_message(id, label).text()
            &&& goes_to(after, room, after.outbox[n])
            &&& after.outbox[n + 1].text == after.progress_message(room).text()
            &&& goes_to(after, room, after.outbox[n + 1])
        }),
{
    let free = state.released(id, label.user@);
    let first = label_message(id, label).text();
    let second = free.progress_message(room).text();
    law_broadcast_stays_in_room(free, room, first);
    let mid = free.broadcast(room, first);
    law_broadcast_stays_in_room(mid, room, second);
    let after = mid.broadcast(room, second);
    let n = state.outbox.len() as int;
    assert(after.outbox[n] == mid.outbox[n]);
    assert(mid.outbox.last() == mid.outbox[n]);
}

/// A label whose rows were stored is read back, whoever gave it no longer holds
/// the file, and the room of the file hears of the label first and of its
/// progress then.
pub proof fn law_label_is_heard(state: StateView, id: i64, label: Label, now: Seq<char>)
    requires
        state.wf(),
        state.db.file(id) is Some,
    ensures
        ({
            let room = state.db.files[id].room_id;
            let stored = state.changed(label_rows(state.db, id, label, now));
            let after = labelled(stored, room, id, label);
            let n = state.outbox.len() as int;
            &&& after.wf()
            &&& after.db == stored.db
            &&& after.db.annotation(id) == Some(label_row(id, label, now))
            &&& after.claimant(id) != Some(label.user@)
            &&& after.outbox.len() == n + 2
            &&& after.outbox[n].text == label_message(id, label).text()
            &&& goes_to(after, room, after.outbox[n])
            &&& after.outbox[n + 1].text == after.progress_message(room).text()
            &&& goes_to(after, room, after.outbox[n + 1])
        }),
{
    let room = state.db.files[id].room_id;
    law_label_is_read_back(state.db, id, label, now);
    law_steps_keep_invariant(state, room, room, 0, id, label_rows(state.db, id, label, now));
    lemma_label_is_announced(
        state.changed(label_rows(state.db, id, label, now)),
        room,
        id,
        label,
    );
}

/// A label over a connection stays in the room of the connection, also when
/// only the first `stored` of its rows could be stored: the file is of that
/// room, what is sent is the room's own and goes to the room, and no other room
/// moves.
pub proof fn law_labels_stay_in_room(
    state: StateView,
    room: Seq<char>,
    user: Seq<char>,
    now: Seq<char>,
    message: Option<ClientMessageView>,
    plan: LabelPlan,
    stored: int,
    other: Seq<char>,
)
    requires
        state.wf(),
        asks_label(state, room, user, now, message, Some(plan)),
        1 <= stored <= 2,
        other != room,
    ensures
        ({
            let after = labelled(
                state.changed(change_views(plan.changes@).take(stored)),
                plan.room@,
                plan.id,
                plan.label,
            );
            let n = state.outbox.len() as int;
            &&& state.db.in_room(plan.id, room)
            &&& after.wf()
            &&& after.outbox.len() == n + 2
            &&& state.outbox.is_prefix_of(after.outbox)
            &&& after.outbox[n].text == label_message(plan.id, plan.label).text()
            &&& goes_to(after, room, after.outbox[n])
            &&& is_own(after, room, label_message(plan.id, plan.label))
            &&& after.outbox[n + 1].text == after.progress_message(room).text()
            &&& goes_to(after, room, after.outbox[n + 1])
            &&& after.db.progress(Some(other)) == state.db.progress(Some(other))
            &&& forall|k: i64| k != plan.id ==> #[trigger] after.db.file(k) == state.db.file(k)
            &&& forall|k: i64|
                k != plan.id ==> #[trigger] after.db.annotation(k) == state.db.annotation(k)
        }),
{
    let rows = label_rows(state.db, plan.id, plan.label, now);
    let part = rows.take(stored);
    law_label_is_read_back(state.db, plan.id, plan.label, now);
    law_label_counts_once(state.db, plan.id, plan.label, now, other);
    law_steps_keep_invariant(state, room, user, 0, plan.id, part);
    lemma_label_is_announced(state.changed(part), room, plan.id, plan.label);
    if stored == 1 {
        assert(part =~= seq![rows[0]]);
        assert(part.drop_last() =~= seq![]);
        assert(state.db.apply_all(part.drop_last()) == state.db);
        assert(state.db.apply_all(part) == state.db.apply(rows[0]));
        assert(state.db.apply_all(part).files == state.db.files);
    } else {
        assert(part =~= rows);
    }
}

/// An upload that was let in is announced in the room of the file.
pub proof fn law_upload_is_heard(
    state: StateView,
    room: Seq<char>,
    id: i64,
    owner: Seq<char>,
    path: Seq<char>,
)
    requires
        state.wf(),
        upload_refusal(state.db, room, id, owner) is None,
    ensures
        ({
            let row = state.db.uploaded_file(id, path)->0;
            let said = ServerMessageView::FileUploaded { file_id: id };
            let after = state.changed(seq![ChangeView::PutFile(row)]).broadcast(room, said.text());
            &&& after.wf()
            &&& is_own(after, room, said)
            &&& after.outbox.len() == state.outbox.len() + 1
            &&& after.outbox.last().text == said.text()
            &&& goes_to(after, room, after.outbox.last())
        }),
{
    law_uploaded_file_is_ready(state, room, id, owner, path, owner, 0);
    let row = state.db.uploaded_file(id, path)->0;
    let rows = seq![ChangeView::PutFile(row)];
    assert(rows.drop_last() =~= seq![]);
    assert(state.db.apply_all(seq![]) == state.db);
    assert(state.db.apply_all(rows) == state.db.apply(rows.last()));
    law_broadcast_stays_in_room(
        state.changed(rows),
        room,
        (ServerMessageView::FileUploaded { file_id: id }).text(),
    );
}

/// A room is told of its own progress.
pub proof fn law_progress_is_heard(state: StateView, room: Seq<char>)
    requires
        state.wf(),
    ensures
        ({
            let after = state.broadcast(room, state.progress_message(room).text());
            &&& is_own(after, room, state.progress_message(room))
            &&& after.outbox.last().text == after.progress_message(room).text()
            &&& goes_to(after, room, after.outbox.last())
        }),
{
    law_broadcast_stays_in_room(state, room, state.progress_message(room).text());
}

} // verus!
