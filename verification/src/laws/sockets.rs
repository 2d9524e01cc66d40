//! What the calls on the state and on connections do, in terms of what was there
//! before and what is there after.
use crate::db::Db;
use crate::http::{LabelPlan, Status};
use crate::laws::requests::{labels_file, lemma_label_changes};
use crate::laws::rooms::{law_broadcast_stays_in_room, law_departures_are_heard_where_they_belong};
use crate::laws::rows::lemma_counts;
use crate::laws::wire::lemma_wire;
use crate::laws::words::{
    done_in, file_packet, files_in, is_blank, is_silent, is_trim, lemma_trim,
    progress_packet, reaches, reaches_room, rejection_packet, says, says_one, user_packet,
};
use crate::message::{parse_message, ClientMessage, ServerMessage};
use crate::record::{change_views, Change};
use crate::state::{AppState, Delivery, StateView, Target, TargetView};
use crate::ws::{release_told, Frame, Heard, Visitor};
use vstd::prelude::*;

verus! {

/// Whether the records and the connections are as before.
pub open spec fn keeps_people(before: StateView, after: StateView) -> bool {
    after.db == before.db && after.clients == before.clients
}

/// Whether the connections of the others are as before.
pub open spec fn keeps_other_people(
    before: StateView,
    after: StateView,
    who: (Seq<char>, Seq<char>),
) -> bool {
    forall|key: (Seq<char>, Seq<char>)|
        key != who ==> #[trigger] after.clients.contains_key(key) == before.clients.contains_key(
            key,
        ) && (before.clients.contains_key(key) ==> after.clients[key] == before.clients[key])
}

/// Whether the channels are as before, but for new ones behind them.
pub open spec fn keeps_channels(before: StateView, after: StateView) -> bool {
    before.channels.is_prefix_of(after.channels)
}

/// Whether who labels the other files is as before.
pub open spec fn keeps_other_claims(before: StateView, after: StateView, id: i64) -> bool {
    forall|k: i64|
        k != id ==> #[trigger] after.claims.contains_key(k) == before.claims.contains_key(k) && (
        before.claims.contains_key(k) ==> after.claims[k] == before.claims[k])
}

/// Whether a user may have a file of a room: it is there, and nobody else has
/// it.
pub open spec fn is_free_for(
    state: StateView,
    room: Seq<char>,
    id: i64,
    user: Seq<char>,
) -> bool {
    &&& state.db.files.contains_key(id)
    &&& state.db.files[id].room_id == room
    &&& state.claims.contains_key(id) ==> state.claims[id] == user
}

/// A claim is granted exactly for a file of the room that nobody else holds.
/// Then the user holds it; otherwise nothing changes.
pub proof fn law_claims_are_granted(
    state: &mut AppState,
    room: &str,
    id: i64,
    user: &str,
    granted: bool,
    holder: Option<String>,
)
    requires
        old(state).wf(),
        call_ensures(AppState::claim_file, (state, room, id, user), granted),
        call_ensures(AppState::claim_owner, (final(state), id), holder),
    ensures
        granted == is_free_for(old(state)@, room@, id, user@),
        granted ==> final(state)@.claims.contains_key(id) && final(state)@.claims[id] == user@,
        granted ==> says(holder, Some(user@)),
        !granted ==> final(state)@.claims == old(state)@.claims,
        keeps_other_claims(old(state)@, final(state)@, id),
        keeps_people(old(state)@, final(state)@),
        final(state)@.channels == old(state)@.channels,
        is_silent(old(state)@, final(state)@),
{
}

/// Whoever is said to hold a file is the one who holds it.
pub proof fn law_holders_are_named(state: AppState, id: i64, holder: Option<String>)
    requires
        state.wf(),
        call_ensures(AppState::claim_owner, (&state, id), holder),
    ensures
        says(
            holder,
            if state@.claims.contains_key(id) {
                Some(state@.claims[id])
            } else {
                None
            },
        ),
{
}

/// A release takes a file from the user who holds it, and from nobody else.
pub proof fn law_releases_take_files(state: &mut AppState, id: i64, user: &str, released: bool)
    requires
        old(state).wf(),
        call_ensures(AppState::release_file, (state, id, user), released),
    ensures
        released == (old(state)@.claims.contains_key(id) && old(state)@.claims[id] == user@),
        released ==> !final(state)@.claims.contains_key(id),
        !released ==> final(state)@.claims == old(state)@.claims,
        keeps_other_claims(old(state)@, final(state)@, id),
        keeps_people(old(state)@, final(state)@),
        final(state)@.channels == old(state)@.channels,
        is_silent(old(state)@, final(state)@),
{
}

/// Letting go of everything takes from a user all files they hold, names each
/// once, and takes nothing from others.
pub proof fn law_everything_is_released(
    state: &mut AppState,
    user: &str,
    released: Vec<i64>,
    id: i64,
)
    requires
        old(state).wf(),
        call_ensures(AppState::release_all, (state, user), released),
    ensures
        released@.contains(id) == (old(state)@.claims.contains_key(id) && old(state)@.claims[id]
            == user@),
        released@.no_duplicates(),
        final(state)@.claims.contains_key(id) == (old(state)@.claims.contains_key(id) && old(state)@.claims[id] != user@),
        final(state)@.claims.contains_key(id) ==> final(state)@.claims[id] == old(state)@.claims[id],
        keeps_people(old(state)@, final(state)@),
        final(state)@.channels == old(state)@.channels,
        is_silent(old(state)@, final(state)@),
{
    assert(released@.contains(id) <==> old(state)@.claimant(id) == Some(user@));
}

/// Asking for the channel of a room gives its place among the channels; a room
/// that has one keeps it, and one that has none gets one behind the others.
pub proof fn law_channels_are_given(state: &mut AppState, room: &str, channel: usize)
    requires
        old(state).wf(),
        call_ensures(AppState::room_channel, (state, room), channel),
    ensures
        channel < final(state)@.channels.len(),
        final(state)@.channels[channel as int] == room@,
        keeps_channels(old(state)@, final(state)@),
        final(state)@.channels.len() <= old(state)@.channels.len() + 1,
        (exists|i: int| 0 <= i < old(state)@.channels.len() && old(state)@.channels[i] == room@)
            ==> final(state)@.channels == old(state)@.channels,
        keeps_people(old(state)@, final(state)@),
        final(state)@.claims == old(state)@.claims,
        is_silent(old(state)@, final(state)@),
{
    if exists|i: int| 0 <= i < old(state)@.channels.len() && old(state)@.channels[i] == room@ {
        assert(old(state)@.channels.contains(room@));
    }
}

/// A text for a room is queued for the channel of the room, and one for a
/// connection for that connection, behind what was queued before.
pub proof fn law_texts_are_queued(
    state: &mut AppState,
    room: &str,
    conn: u64,
    text: &str,
    other: &mut AppState,
)
    requires
        old(state).wf(),
        call_ensures(AppState::broadcast_to, (state, room, text), ()),
        old(other).wf(),
        call_ensures(AppState::send_to, (other, conn, text), ()),
    ensures
        says_one(old(state)@, final(state)@),
        reaches_room(final(state)@, final(state)@.outbox.last(), room@, text@),
        keeps_people(old(state)@, final(state)@),
        keeps_channels(old(state)@, final(state)@),
        final(state)@.claims == old(state)@.claims,
        says_one(old(other)@, final(other)@),
        reaches(final(other)@.outbox.last(), conn, text@),
        keeps_people(old(other)@, final(other)@),
        final(other)@.channels == old(other)@.channels,
        final(other)@.claims == old(other)@.claims,
{
    law_broadcast_stays_in_room(old(state)@, room@, text@);
    assert(final(other)@.outbox.drop_last() =~= old(other)@.outbox);
}

/// A message is queued as its text is.
pub proof fn law_messages_are_queued_as_texts(
    first: &mut AppState,
    second: &mut AppState,
    third: &mut AppState,
    fourth: &mut AppState,
    room: &str,
    conn: u64,
    message: ServerMessage,
    text: String,
    same: &str,
)
    requires
        old(first).wf(),
        same@ == text@,
        *old(first) == *old(second),
        *old(first) == *old(third),
        *old(first) == *old(fourth),
        call_ensures(ServerMessage::to_text, (&message,), text),
        call_ensures(AppState::announce, (first, room, &message), ()),
        call_ensures(AppState::broadcast_to, (second, room, same), ()),
        call_ensures(AppState::tell, (third, conn, &message), ()),
        call_ensures(AppState::send_to, (fourth, conn, same), ()),
    ensures
        final(first)@ == final(second)@,
        final(third)@ == final(fourth)@,
{
}

/// What is taken from the queue is all that is in it, in its order, and it is
/// then empty.
pub proof fn law_the_queue_is_emptied(state: &mut AppState, taken: Vec<Delivery>, i: int)
    requires
        old(state).wf(),
        call_ensures(AppState::take_outbox, (state,), taken),
    ensures
        taken@.len() == old(state)@.outbox.len(),
        0 <= i < taken@.len() ==> {
            &&& taken@[i].text@ == old(state)@.outbox[i].text
            &&& match taken@[i].to {
                Target::Room(channel) => old(state)@.outbox[i].to == TargetView::Room(
                    channel as int,
                ),
                Target::Client(conn) => old(state)@.outbox[i].to == TargetView::Client(conn),
            }
        },
        final(state)@.outbox.len() == 0,
        keeps_people(old(state)@, final(state)@),
        final(state)@.channels == old(state)@.channels,
        final(state)@.claims == old(state)@.claims,
{
    let views = taken@.map_values(|d: Delivery| d@);
    assert(views.len() == taken@.len());
    if 0 <= i < taken@.len() {
        assert(views[i] == taken@[i]@);
    }
}

/// Whoever joins is found in the room under their connection; whoever leaves is
/// not; nobody else moves.
pub proof fn law_people_come_and_go(
    state: &mut AppState,
    gone: &mut AppState,
    room: &str,
    user: &str,
    conn: u64,
    here: Option<u64>,
    after: Option<u64>,
    other: (Seq<char>, Seq<char>),
)
    requires
        old(state).wf(),
        call_ensures(AppState::join, (state, room, user, conn), ()),
        call_ensures(AppState::client_of, (final(state), room, user), here),
        old(gone).wf(),
        call_ensures(AppState::leave, (gone, room, user), ()),
        call_ensures(AppState::client_of, (final(gone), room, user), after),
        other != (room@, user@),
    ensures
        here == Some(conn),
        after is None,
        final(state)@.clients.contains_key(other) == old(state)@.clients.contains_key(other),
        old(state)@.clients.contains_key(other) ==> final(state)@.clients[other] == old(state)@.clients[other],
        final(gone)@.clients.contains_key(other) == old(gone)@.clients.contains_key(other),
        old(gone)@.clients.contains_key(other) ==> final(gone)@.clients[other] == old(gone)@.clients[other],
        final(state)@.db == old(state)@.db,
        final(state)@.claims == old(state)@.claims,
        final(state)@.channels == old(state)@.channels,
        is_silent(old(state)@, final(state)@),
        final(gone)@.db == old(gone)@.db,
        final(gone)@.claims == old(gone)@.claims,
        final(gone)@.channels == old(gone)@.channels,
        is_silent(old(gone)@, final(gone)@),
{
}

/// Somebody is found in a room exactly when they are connected to it.
pub proof fn law_people_are_found(state: AppState, room: &str, user: &str, conn: Option<u64>)
    requires
        state.wf(),
        call_ensures(AppState::client_of, (&state, room, user), conn),
    ensures
        conn == if state@.clients.contains_key((room@, user@)) {
            Some(state@.clients[(room@, user@)])
        } else {
            None
        },
{
}

/// The progress of a room, as a message, carries the number of the files of the
/// room that are done and the number of its files.
pub proof fn law_progress_messages_count(state: AppState, room: &str, message: ServerMessage)
    requires
        state.wf(),
        call_ensures(AppState::progress_of, (&state, room), message),
    ensures
        message matches ServerMessage::Progress { done, total } && done == done_in(
            state@.db,
            room@,
        ) && total == files_in(state@.db, room@),
{
    lemma_counts(state@.db, room@);
}

/// A state answers for its records, and starts with them and nothing else.
pub proof fn law_a_state_starts_with_its_records(
    db: Db,
    state: AppState,
    records: &Db,
)
    requires
        db.wf(),
        call_ensures(AppState::new, (db,), state),
        call_ensures(AppState::db, (&state,), records),
    ensures
        state.wf(),
        records@ == db@,
        state@.db == db@,
        forall|id: i64| !#[trigger] state@.claims.contains_key(id),
        forall|key: (Seq<char>, Seq<char>)| !#[trigger] state@.clients.contains_key(key),
        state@.channels.len() == 0,
        state@.outbox.len() == 0,
{
}

/// A state commits rows as its records do, and nothing else moves.
pub proof fn law_a_state_commits_rows(
    state: &mut AppState,
    db: &mut Db,
    changes: &Vec<Change>,
    count: usize,
)
    requires
        old(state).wf(),
        old(db).wf(),
        old(db)@ == old(state)@.db,
        count <= changes@.len(),
        call_ensures(AppState::commit_first, (state, changes, count), ()),
        call_ensures(Db::commit_first, (db, changes, count), ()),
    ensures
        final(state)@.db == final(db)@,
        final(state)@.claims == old(state)@.claims,
        final(state)@.clients == old(state)@.clients,
        final(state)@.channels == old(state)@.channels,
        is_silent(old(state)@, final(state)@),
{
}

/// Somebody is let in exactly when neither name is blank and the room is there
/// under the name as it was given. The names are then trimmed. A blank name is
/// a bad request; otherwise the room is not found.
pub proof fn law_visitors_are_let_in(
    state: AppState,
    user: &str,
    room: &str,
    visitor: Result<Visitor, Status>,
)
    requires
        state.wf(),
        call_ensures(AppState::ws_handler, (&state, user, room), visitor),
    ensures
        match visitor {
            Ok(v) => !is_blank(user@) && !is_blank(room@) && state@.db.rooms.contains_key(room@)
                && is_trim(v.user@, user@) && is_trim(v.room@, room@),
            Err(Status::BadRequest) => is_blank(user@) || is_blank(room@),
            Err(Status::NotFound) => !is_blank(user@) && !is_blank(room@)
                && !state@.db.rooms.contains_key(room@),
            Err(_) => false,
        },
{
    lemma_trim(user@);
    lemma_trim(room@);
}

/// Whoever connects is found in the room, is to listen to the channel of the
/// room, and is told, and nobody else is, how many files of the room are done
/// and how many it has.
pub proof fn law_newcomers_are_told_the_progress(
    state: &mut AppState,
    room: &str,
    user: &str,
    conn: u64,
    channel: usize,
    here: Option<u64>,
)
    requires
        old(state).wf(),
        call_ensures(AppState::connect, (state, room, user, conn), channel),
        call_ensures(AppState::client_of, (final(state), room, user), here),
    ensures
        here == Some(conn),
        channel < final(state)@.channels.len(),
        final(state)@.channels[channel as int] == room@,
        keeps_channels(old(state)@, final(state)@),
        says_one(old(state)@, final(state)@),
        reaches(
            final(state)@.outbox.last(),
            conn,
            progress_packet(done_in(old(state)@.db, room@), files_in(old(state)@.db, room@)),
        ),
        final(state)@.db == old(state)@.db,
        final(state)@.claims == old(state)@.claims,
        keeps_other_people(old(state)@, final(state)@, (room@, user@)),
{
    lemma_wire();
    lemma_counts(old(state)@.db, room@);
    assert(final(state)@.outbox.drop_last() =~= old(state)@.outbox);
}

/// A claim that is granted is announced in the room, and the user then holds
/// the file. One that is not is answered with who holds it, and changes nothing.
pub proof fn law_claims_are_heard(
    state: &mut AppState,
    room: &str,
    user: &str,
    conn: u64,
    id: i64,
    now: &str,
    plan: Option<LabelPlan>,
)
    requires
        old(state).wf(),
        call_ensures(
            AppState::handle_message,
            (state, room, user, conn, ClientMessage::Claim { file_id: id }, now),
            plan,
        ),
    ensures
        plan is None,
        says_one(old(state)@, final(state)@),
        keeps_people(old(state)@, final(state)@),
        keeps_channels(old(state)@, final(state)@),
        keeps_other_claims(old(state)@, final(state)@, id),
        if is_free_for(old(state)@, room@, id, user@) {
            &&& final(state)@.claims.contains_key(id)
            &&& final(state)@.claims[id] == user@
            &&& reaches_room(
                final(state)@,
                final(state)@.outbox.last(),
                room@,
                user_packet("presence"@, user@, id),
            )
        } else {
            &&& final(state)@.claims == old(state)@.claims
            &&& reaches(
                final(state)@.outbox.last(),
                conn,
                rejection_packet(
                    id,
                    if old(state)@.claims.contains_key(id) {
                        Some(old(state)@.claims[id])
                    } else {
                        None
                    },
                ),
            )
        },
{
    lemma_wire();
    if is_free_for(old(state)@, room@, id, user@) {
        law_broadcast_stays_in_room(
            old(state)@.claimed(id, user@),
            room@,
            user_packet("presence"@, user@, id),
        );
    } else {
        assert(final(state)@.outbox.drop_last() =~= old(state)@.outbox);
    }
}

/// A release by the holder frees the file and is announced in the room of the
/// file. One by anybody else changes nothing and is not heard.
pub proof fn law_releases_are_heard(
    state: &mut AppState,
    room: &str,
    user: &str,
    conn: u64,
    id: i64,
    now: &str,
    plan: Option<LabelPlan>,
)
    requires
        old(state).wf(),
        call_ensures(
            AppState::handle_message,
            (state, room, user, conn, ClientMessage::Release { file_id: id }, now),
            plan,
        ),
    ensures
        plan is None,
        if old(state)@.claims.contains_key(id) && old(state)@.claims[id] == user@ {
            &&& !final(state)@.claims.contains_key(id)
            &&& keeps_other_claims(old(state)@, final(state)@, id)
            &&& says_one(old(state)@, final(state)@)
            &&& old(state)@.db.files.contains_key(id)
            &&& reaches_room(
                final(state)@,
                final(state)@.outbox.last(),
                old(state)@.db.files[id].room_id,
                user_packet("release"@, user@, id),
            )
            &&& keeps_people(old(state)@, final(state)@)
            &&& keeps_channels(old(state)@, final(state)@)
        } else {
            final(state)@ == old(state)@
        },
{
    lemma_wire();
    if old(state)@.claims.contains_key(id) && old(state)@.claims[id] == user@ {
        law_broadcast_stays_in_room(
            old(state)@.released(id, user@),
            old(state)@.db.files[id].room_id,
            user_packet("release"@, user@, id),
        );
    }
}

/// Whoever asks for a file of the room is told that it is ready where it is
/// uploaded. Otherwise its owner is asked for it, if they are in the room and
/// not the one who asks, and where they are not in the room, or there is none,
/// the one who asks is told that the file cannot be had. Nothing is heard of
/// files of other rooms. Nothing but the queue changes.
pub proof fn law_requests_are_answered(
    state: &mut AppState,
    room: &str,
    user: &str,
    conn: u64,
    id: i64,
)
    requires
        old(state).wf(),
        call_ensures(AppState::handle_file_request, (state, room, user, conn, id), ()),
    ensures
        keeps_people(old(state)@, final(state)@),
        final(state)@.claims == old(state)@.claims,
        final(state)@.channels == old(state)@.channels,
        ({
            let before = old(state)@;
            let after = final(state)@;
            let file = before.db.files[id];
            if !before.db.files.contains_key(id) || file.room_id != room@ {
                is_silent(before, after)
            } else if file.uploaded {
                says_one(before, after) && reaches(
                    after.outbox.last(),
                    conn,
                    file_packet("file_ready"@, id),
                )
            } else if file.owner == Some(user@) {
                is_silent(before, after)
            } else if file.owner is Some && before.clients.contains_key((room@, file.owner->0)) {
                says_one(before, after) && reaches(
                    after.outbox.last(),
                    before.clients[(room@, file.owner->0)],
                    file_packet("file_requested"@, id),
                )
            } else {
                says_one(before, after) && reaches(
                    after.outbox.last(),
                    conn,
                    file_packet("file_unavailable"@, id),
                )
            }
        }),
{
    lemma_wire();
    if final(state)@.outbox != old(state)@.outbox {
        assert(final(state)@.outbox.drop_last() =~= old(state)@.outbox);
    }
}

/// A message that asks for a file does what a request for the file does.
pub proof fn law_request_messages_are_requests(
    first: &mut AppState,
    second: &mut AppState,
    room: &str,
    user: &str,
    conn: u64,
    id: i64,
    now: &str,
    plan: Option<LabelPlan>,
)
    requires
        old(first).wf(),
        *old(second) == *old(first),
        call_ensures(
            AppState::handle_message,
            (first, room, user, conn, ClientMessage::RequestFile { file_id: id }, now),
            plan,
        ),
        call_ensures(AppState::handle_file_request, (second, room, user, conn, id), ()),
    ensures
        plan is None,
        final(first)@ == final(second)@,
{
}

/// A label for a file of the room is to be recorded, as it was given and for
/// that room. One for another file is not. Either way nothing changes yet.
pub proof fn law_labels_are_planned(
    state: &mut AppState,
    room: &str,
    user: &str,
    conn: u64,
    id: i64,
    is_check: i64,
    lab: String,
    lab_without_tone: String,
    raw_text: String,
    now: &str,
    plan: Option<LabelPlan>,
)
    requires
        old(state).wf(),
        call_ensures(
            AppState::handle_message,
            (
                state,
                room,
                user,
                conn,
                ClientMessage::Annotate { file_id: id, is_check, lab, lab_without_tone, raw_text },
                now,
            ),
            plan,
        ),
    ensures
        final(state)@ == old(state)@,
        plan is Some == (old(state)@.db.files.contains_key(id) && old(state)@.db.files[id].room_id
            == room@),
        plan matches Some(p) ==> {
            &&& p.room@ == room@
            &&& p.id == id
            &&& p.label.is_check == is_check
            &&& p.label.lab@ == lab@
            &&& p.label.lab_without_tone@ == lab_without_tone@
            &&& p.label.raw_text@ == raw_text@
            &&& p.label.user@ == user@
            &&& labels_file(old(state)@.db, p, now@)
        },
{
    if plan is Some {
        lemma_label_changes(old(state)@.db, plan->0, now@);
    }
}

/// A text is heard as the message that is understood of it; what is no message
/// is passed over.
pub proof fn law_texts_are_heard_as_messages(
    first: &mut AppState,
    second: &mut AppState,
    room: &str,
    user: &str,
    conn: u64,
    text: &str,
    now: &str,
    message: Option<ClientMessage>,
    plan: Option<LabelPlan>,
    same: Option<LabelPlan>,
)
    requires
        old(first).wf(),
        *old(second) == *old(first),
        call_ensures(parse_message, (text,), message),
        call_ensures(AppState::handle_client_message, (first, room, user, conn, text, now), plan),
        message matches Some(m) ==> call_ensures(
            AppState::handle_message,
            (second, room, user, conn, m, now),
            same,
        ),
    ensures
        message is None ==> final(first)@ == old(first)@ && plan is None,
        message is Some ==> {
            &&& final(first)@ == final(second)@
            &&& plan is Some == same is Some
            &&& plan matches Some(p) ==> {
                let q = same->0;
                &&& p.room@ == q.room@
                &&& p.id == q.id
                &&& p.label.is_check == q.label.is_check
                &&& p.label.lab@ == q.label.lab@
                &&& p.label.lab_without_tone@ == q.label.lab_without_tone@
                &&& p.label.raw_text@ == q.label.raw_text@
                &&& p.label.user@ == q.label.user@
                &&& change_views(p.changes@) == change_views(q.changes@)
            }
        },
{
}

/// A text frame is heard as its text, and only a label is to be recorded. A
/// closing frame ends the connection; the other frames are passed over.
pub proof fn law_frames_are_heard(
    first: &mut AppState,
    second: &mut AppState,
    room: &str,
    user: &str,
    conn: u64,
    frame: Frame,
    now: &str,
    heard: Heard,
    same: &str,
    plan: Option<LabelPlan>,
)
    requires
        old(first).wf(),
        *old(second) == *old(first),
        call_ensures(AppState::hear, (first, room, user, conn, frame, now), heard),
        frame matches Frame::Text(text) ==> same@ == text@ && call_ensures(
            AppState::handle_client_message,
            (second, room, user, conn, same, now),
            plan,
        ),
    ensures
        match frame {
            Frame::Text(_) => {
                &&& final(first)@ == final(second)@
                &&& match heard {
                    Heard::Listen => plan is None,
                    Heard::Record(p) => plan is Some && p.id == plan->0.id && p.room@
                        == plan->0.room@ && p.label.is_check == plan->0.label.is_check
                        && p.label.lab@ == plan->0.label.lab@ && p.label.lab_without_tone@
                        == plan->0.label.lab_without_tone@ && p.label.raw_text@
                        == plan->0.label.raw_text@ && p.label.user@ == plan->0.label.user@
                        && change_views(p.changes@) == change_views(plan->0.changes@),
                    Heard::End => false,
                }
            },
            Frame::Close => heard == Heard::End && final(first)@ == old(first)@,
            Frame::Binary => heard == Heard::Listen && final(first)@ == old(first)@,
            Frame::Ping => heard == Heard::Listen && final(first)@ == old(first)@,
            Frame::Pong => heard == Heard::Listen && final(first)@ == old(first)@,
        },
{
}

/// Whoever disconnects is no longer found, holds nothing, and of each file they
/// held, named once, its own room hears. The others keep what they hold.
pub proof fn law_departures_are_heard(
    state: &mut AppState,
    room: &str,
    user: &str,
    released: Vec<i64>,
    id: i64,
    k: int,
    here: Option<u64>,
)
    requires
        old(state).wf(),
        call_ensures(AppState::disconnect, (state, room, user), released),
        call_ensures(AppState::client_of, (final(state), room, user), here),
    ensures
        here is None,
        released@.no_duplicates(),
        released@.contains(id) == (old(state)@.claims.contains_key(id) && old(state)@.claims[id]
            == user@),
        final(state)@.claims.contains_key(id) == (old(state)@.claims.contains_key(id) && old(state)@.claims[id] != user@),
        final(state)@.claims.contains_key(id) ==> final(state)@.claims[id] == old(state)@.claims[id],
        final(state)@.db == old(state)@.db,
        final(state)@.outbox.len() == old(state)@.outbox.len() + released@.len(),
        old(state)@.outbox.is_prefix_of(final(state)@.outbox),
        0 <= k < released@.len() ==> reaches_room(
            final(state)@,
            final(state)@.outbox[old(state)@.outbox.len() + k],
            old(state)@.db.files[released@[k]].room_id,
            user_packet("release"@, user@, released@[k]),
        ),
        keeps_other_people(old(state)@, final(state)@, (room@, user@)),
{
    lemma_wire();
    let free = old(state)@.all_released(user@);
    assert(released@.contains(id) <==> old(state)@.claimant(id) == Some(user@));
    assert forall|j: int| #![trigger released@[j]] 0 <= j < released@.len() implies {
        free.db.files.contains_key(released@[j])
    } by {
        assert(released@.contains(released@[j]));
        assert(old(state)@.claims.contains_key(released@[j]));
    }
    law_departures_are_heard_where_they_belong(free, user@, released@);
    let told = release_told(free, user@, released@);
    assert(final(state)@ == told.left(room@, user@));
    if 0 <= k < released@.len() {
        assert(released@[k] == released@[k]);
    }
}

} // verus!
