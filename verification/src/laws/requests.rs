//! What the requests do: each call, in terms of what was asked and what was
//! there before.
use crate::chance::is_uuid;
use crate::db::DbView;
use crate::http::{
    code_views, disposition_of, draw_plan, draw_room_codes, finish_download, form_field,
    gen_room_code, is_draw, is_first_free, is_header_text, is_room_code, label_message,
    label_rows, labelled, listed_views, named, new_room_row, numbered, registered_answer,
    registered_rows, registered_views, room_code, room_code_chars, room_plan, stored_name,
    Download, DownloadHead, FormField, Label, LabelPlan, ListedFile, NewFile, NewRoom,
    RegisteredFile, Registration, Status, Upload, UploadForm, WrittenUpload,
};
use crate::laws::records::{law_label_is_read_back, law_registration_is_read_back};
use crate::laws::rooms::{law_broadcast_stays_in_room, law_steps_keep_invariant};
use crate::laws::rows::lemma_counts;
use crate::laws::sockets::{keeps_channels, keeps_other_claims};
use crate::laws::wire::lemma_wire;
use crate::laws::words::{
    done_in, file_packet, files_in, is_annotation, is_blank, is_silent, is_trim, label_packet,
    lemma_trim, progress_packet, reaches_room, says, says_one,
};
use crate::record::{change_views, Annotation, Change, ChangeView, FileRecord};
use crate::state::{AppState, StateView};
use crate::text::{extension, mime_for, trimmed, PathStyle};
use vstd::prelude::*;

verus! {

/// The refusals have these numbers.
pub proof fn law_refusals_have_numbers(status: Status, code: u16)
    requires
        call_ensures(Status::code, (&status,), code),
    ensures
        status == Status::BadRequest <==> code == 400,
        status == Status::Forbidden <==> code == 403,
        status == Status::NotFound <==> code == 404,
        status == Status::Conflict <==> code == 409,
        status == Status::InternalServerError <==> code == 500,
{
}

/// The letters and digits of room codes: those that cannot be mistaken.
pub open spec fn is_code_char(c: char) -> bool {
    (('A' <= c <= 'Z' && c != 'I' && c != 'O') || '2' <= c <= '9')
}

/// A code has the characters that were picked: of the letters from `A` on
/// without `I` and `O`, and then of the digits from `2` on.
pub proof fn law_codes_have_the_picked_characters(picks: &Vec<usize>, code: String, i: int)
    requires
        forall|i: int| #![trigger picks@[i]] 0 <= i < picks@.len() ==> picks@[i] < 32,
        call_ensures(room_code, (picks,), code),
        0 <= i < picks@.len(),
    ensures
        code@.len() == picks@.len(),
        is_code_char(code@[i]),
        code@[i] as int == ({
            let n = picks@[i] as int;
            if n < 8 {
                'A' as int + n
            } else if n < 13 {
                'A' as int + n + 1
            } else if n < 24 {
                'A' as int + n + 2
            } else {
                '2' as int + n - 24
            }
        }),
{
    reveal_strlit("ABCDEFGHJKLMNPQRSTUVWXYZ23456789");
    assert(picks@[i] < 32);
}

/// What is drawn are codes of six such characters, and eleven of them.
pub proof fn law_drawn_codes_have_six_characters(code: String, codes: Vec<String>, i: int, k: int)
    requires
        call_ensures(gen_room_code, (), code),
        call_ensures(draw_room_codes, (), codes),
        0 <= i < 6,
        0 <= k < 11,
    ensures
        code@.len() == 6,
        is_code_char(code@[i]),
        codes@.len() == 11,
        codes@[k]@.len() == 6,
        is_code_char(codes@[k]@[i]),
{
    reveal_strlit("ABCDEFGHJKLMNPQRSTUVWXYZ23456789");
    let views = code_views(codes@);
    assert(views[k] == codes@[k]@);
    assert(is_room_code(views[k]));
    lemma_code_chars(code@[i]);
    lemma_code_chars(codes@[k]@[i]);
}

proof fn lemma_code_chars(c: char)
    requires
        room_code_chars().contains(c),
    ensures
        is_code_char(c),
{
    reveal_strlit("ABCDEFGHJKLMNPQRSTUVWXYZ23456789");
    let chars = room_code_chars();
    let i = choose|i: int| 0 <= i < chars.len() && chars[i] == c;
    assert(chars[i] == c);
    assert(chars.len() == 32);
}

/// Whether a plan makes this room, for this user at this time, and no other row.
pub open spec fn makes_room(
    plan: NewRoom,
    code: Seq<char>,
    user: Seq<char>,
    now: Seq<char>,
) -> bool {
    &&& plan.id@ == code
    &&& plan.changes@.len() == 1
    &&& plan.changes@[0] matches Change::PutRoom(room) && room.id@ == code && room.name@.len() == 0
        && is_trim(room.owner@, user) && says(room.created_at, Some(now))
}

proof fn lemma_makes_room(plan: NewRoom, code: Seq<char>, user: Seq<char>, now: Seq<char>)
    requires
        plan.id@ == code,
        change_views(plan.changes@) == seq![
            ChangeView::PutRoom(new_room_row(code, user, now)),
        ],
    ensures
        makes_room(plan, code, user, now),
{
    reveal_strlit("");
    lemma_trim(user);
    assert(change_views(plan.changes@).len() == 1);
    assert(change_views(plan.changes@)[0] == plan.changes@[0]@);
}

/// A room can be made under a code exactly when the user is not blank and no
/// room has the code.
pub proof fn law_rooms_are_planned(
    state: AppState,
    user: &str,
    code: &str,
    now: &str,
    plan: Result<NewRoom, Status>,
)
    requires
        state.wf(),
        call_ensures(AppState::plan_room, (&state, user, code, now), plan),
    ensures
        match plan {
            Ok(p) => !is_blank(user@) && !state@.db.rooms.contains_key(code@) && makes_room(
                p,
                code@,
                user@,
                now@,
            ),
            Err(Status::BadRequest) => is_blank(user@),
            Err(Status::InternalServerError) => !is_blank(user@) && state@.db.rooms.contains_key(
                code@,
            ),
            Err(_) => false,
        },
{
    lemma_trim(user@);
    if plan is Ok {
        lemma_makes_room(plan->Ok_0, code@, user@, now@);
    }
}

/// Of codes that were drawn, the first of eleven that no room has is taken; only
/// where all are taken there is no room.
pub proof fn law_the_first_free_code_is_taken(
    state: AppState,
    user: &str,
    codes: &Vec<String>,
    now: &str,
    plan: Result<NewRoom, Status>,
    k: int,
)
    requires
        state.wf(),
        call_ensures(AppState::plan_from_draws, (&state, user, codes, now), plan),
    ensures
        plan == Err::<NewRoom, Status>(Status::BadRequest) <==> is_blank(user@),
        !is_blank(user@) && 0 <= k < codes@.len() && k < 11 && !state@.db.rooms.contains_key(
            codes@[k]@,
        ) && (forall|i: int|
            #![trigger codes@[i]]
            0 <= i < k ==> state@.db.rooms.contains_key(codes@[i]@)) ==> plan is Ok && makes_room(
            plan->Ok_0,
            codes@[k]@,
            user@,
            now@,
        ),
        !is_blank(user@) && (forall|i: int|
            #![trigger codes@[i]]
            0 <= i < codes@.len() && i < 11 ==> state@.db.rooms.contains_key(codes@[i]@)) ==> plan
            == Err::<NewRoom, Status>(Status::InternalServerError),
{
    lemma_trim(user@);
    let views = code_views(codes@);
    assert forall|i: int| 0 <= i < codes@.len() implies views[i] == codes@[i]@ by {}
    if !is_blank(user@) {
        if plan is Ok {
            let j = choose|j: int| #[trigger]
                is_first_free(state@.db, views, j) && room_plan(
                    state@.db,
                    user@,
                    views[j],
                    now@,
                    plan,
                );
            assert(views[j] == codes@[j]@);
            lemma_makes_room(plan->Ok_0, views[j], user@, now@);
            if 0 <= k < codes@.len() && k < 11 && !state@.db.rooms.contains_key(codes@[k]@) {
                assert(views[k] == codes@[k]@);
                if j < k {
                    assert(codes@[j]@ == views[j]);
                }
            }
        } else if 0 <= k < codes@.len() && k < 11 {
            assert(views[k] == codes@[k]@);
        }
    }
}

/// A room that is opened under a drawn code: only a blank user is a bad request.
/// The code has six characters and was free.
pub proof fn law_drawn_rooms_are_new(
    state: AppState,
    user: &str,
    now: &str,
    plan: Result<NewRoom, Status>,
)
    requires
        state.wf(),
        call_ensures(AppState::create_room, (&state, user, now), plan),
    ensures
        plan == Err::<NewRoom, Status>(Status::BadRequest) <==> is_blank(user@),
        plan matches Ok(p) ==> {
            &&& makes_room(p, p.id@, user@, now@)
            &&& !state@.db.rooms.contains_key(p.id@)
            &&& p.id@.len() == 6
            &&& forall|i: int| #![trigger p.id@[i]] 0 <= i < 6 ==> is_code_char(p.id@[i])
        },
        plan matches Err(s) ==> s == Status::BadRequest || s == Status::InternalServerError,
        !is_blank(user@) && (forall|code: Seq<char>|
            code.len() == 6 ==> !#[trigger] state@.db.rooms.contains_key(code)) ==> plan is Ok,
{
    lemma_trim(user@);
    let codes = choose|codes: Seq<Seq<char>>| #[trigger]
        is_draw(codes) && draw_plan(state@.db, user@, codes, now@, plan);
    if !is_blank(user@) {
        if plan is Ok {
            let p = plan->Ok_0;
            let j = choose|j: int| #[trigger]
                is_first_free(state@.db, codes, j) && room_plan(
                    state@.db,
                    user@,
                    codes[j],
                    now@,
                    plan,
                );
            lemma_makes_room(p, codes[j], user@, now@);
            assert(is_room_code(codes[j]));
            assert forall|i: int| #![trigger p.id@[i]] 0 <= i < 6 implies is_code_char(
                p.id@[i],
            ) by {
                assert(codes[j][i] == p.id@[i]);
                lemma_code_chars(codes[j][i]);
            }
        } else {
            assert(is_room_code(codes[0]));
            assert(state@.db.rooms.contains_key(codes[0]));
        }
    }
}

/// How many of the rows of a plan were stored, when the application says that
/// `stored` were.
pub open spec fn is_stored(count: usize, stored: usize, changes: Seq<Change>) -> bool {
    if stored <= changes.len() {
        count == stored
    } else {
        count == changes.len()
    }
}

/// Whatever a request does, the records change by the rows that were stored, and
/// by no others; a room is made exactly when its rows were all stored, and the
/// answer is then its code.
pub proof fn law_rooms_are_finished(
    state: &mut AppState,
    other: &mut AppState,
    plan: NewRoom,
    stored: usize,
    count: usize,
    answer: Result<String, Status>,
)
    requires
        old(state).wf(),
        *old(other) == *old(state),
        is_stored(count, stored, plan.changes@),
        call_ensures(AppState::finish_room, (state, plan, stored), answer),
        call_ensures(AppState::commit_first, (other, &plan.changes, count), ()),
    ensures
        final(state)@ == final(other)@,
        match answer {
            Ok(id) => stored >= plan.changes@.len() && id@ == plan.id@,
            Err(s) => stored < plan.changes@.len() && s == Status::InternalServerError,
        },
{
}

/// The files of a request that have a name, in their order: where each of them
/// stands in the request.
proof fn lemma_named(files: Seq<(Seq<char>, i64)>) -> (at: Seq<int>)
    ensures
        at.len() == named(files).len(),
        at.len() <= files.len(),
        forall|i: int, j: int| 0 <= i < j < at.len() ==> at[i] < at[j],
        forall|k: int|
            #![trigger at[k]]
            0 <= k < at.len() ==> 0 <= at[k] < files.len() && !is_blank(files[at[k]].0) && is_trim(
                named(files)[k].0,
                files[at[k]].0,
            ) && named(files)[k].1 == files[at[k]].1,
        forall|i: int|
            #![trigger files[i]]
            0 <= i < files.len() && !is_blank(files[i].0) ==> at.contains(i),
    decreases files.len(),
{
    if files.len() == 0 {
        Seq::empty()
    } else {
        let fewer = files.drop_last();
        let before = lemma_named(fewer);
        let n = fewer.len() as int;
        lemma_trim(files.last().0);
        assert forall|k: int| #![trigger before[k]] 0 <= k < before.len() implies files[before[k]]
            == fewer[before[k]] by {}
        if trimmed(files.last().0).len() == 0 {
            assert(named(files) == named(fewer));
            assert forall|i: int|
                #![trigger files[i]]
                0 <= i < files.len() && !is_blank(files[i].0) implies before.contains(i) by {
                if i < n {
                    assert(fewer[i] == files[i]);
                }
            }
            before
        } else {
            let at = before.push(n);
            assert forall|i: int|
                #![trigger files[i]]
                0 <= i < files.len() && !is_blank(files[i].0) implies at.contains(i) by {
                if i < n {
                    assert(fewer[i] == files[i]);
                    let k = choose|k: int| 0 <= k < before.len() && before[k] == i;
                    assert(at[k] == i);
                } else {
                    assert(at[before.len() as int] == n);
                }
            }
            at
        }
    }
}

/// Files are registered exactly when the room is there and the user is not
/// blank.
pub proof fn law_registrations_are_let_in(
    state: AppState,
    room: &str,
    user: &str,
    files: &Vec<NewFile>,
    plan: Result<Registration, Status>,
)
    requires
        state.wf(),
        call_ensures(AppState::register_files, (&state, room, user, files), plan),
    ensures
        match plan {
            Ok(p) => state@.db.rooms.contains_key(room@) && !is_blank(user@) && p.room@ == room@,
            Err(Status::NotFound) => !state@.db.rooms.contains_key(room@),
            Err(Status::BadRequest) => state@.db.rooms.contains_key(room@) && is_blank(user@),
            Err(_) => false,
        },
{
    lemma_trim(user@);
}

/// Every file of a registration whose name is not blank is registered, once,
/// under its trimmed name and with its size, in the order of the request, and no
/// other: `at` says where in the request the registered files stand. They get
/// the numbers behind the last one, for as long as there are numbers.
pub proof fn law_named_files_are_registered(
    state: AppState,
    room: &str,
    user: &str,
    files: &Vec<NewFile>,
    plan: Result<Registration, Status>,
) -> (at: Seq<int>)
    requires
        state.wf(),
        call_ensures(AppState::register_files, (&state, room, user, files), plan),
        plan is Ok,
    ensures
        ({
            let p = plan->Ok_0;
            let last = state@.db.last_id as int;
            &&& forall|i: int, j: int| 0 <= i < j < at.len() ==> at[i] < at[j]
            &&& forall|k: int|
                #![trigger at[k]]
                0 <= k < at.len() ==> 0 <= at[k] < files@.len() && !is_blank(files@[at[k]].name@)
            &&& forall|i: int|
                #![trigger files@[i]]
                0 <= i < files@.len() && !is_blank(files@[i].name@) ==> at.contains(i)
            &&& p.complete == (last + at.len() <= i64::MAX)
            &&& p.complete ==> p.files@.len() == at.len()
            &&& !p.complete ==> last + p.files@.len() == i64::MAX
            &&& p.files@.len() <= at.len()
            &&& p.changes@.len() == p.files@.len()
            &&& forall|k: int|
                #![trigger p.files@[k]]
                0 <= k < p.files@.len() ==> {
                    &&& p.files@[k].id == last + 1 + k
                    &&& is_trim(p.files@[k].name@, files@[at[k]].name@)
                    &&& p.files@[k].size == files@[at[k]].size
                    &&& p.changes@[k] matches Change::PutFile(f) && is_registered(
                        f,
                        p.files@[k],
                        room@,
                        user@,
                    )
                }
        }),
{
    reveal_strlit("");
    let p = plan->Ok_0;
    let asked = files@.map_values(|f: NewFile| f@);
    let wanted = named(asked);
    let last_id = state@.db.last_id;
    let at = lemma_named(asked);
    lemma_trim(user@);
    assert forall|i: int| 0 <= i < files@.len() implies asked[i] == (
        files@[i].name@,
        files@[i].size,
    ) by {}
    assert forall|i: int|
        #![trigger files@[i]]
        0 <= i < files@.len() && !is_blank(files@[i].name@) implies at.contains(i) by {
        assert(asked[i].0 == files@[i].name@);
    }
    assert forall|k: int| #![trigger at[k]] 0 <= k < at.len() implies 0 <= at[k] < files@.len()
        && !is_blank(files@[at[k]].name@) by {
        assert(asked[at[k]].0 == files@[at[k]].name@);
    }
    assert(registered_views(p.files@).len() == numbered(last_id, wanted.len()));
    assert(change_views(p.changes@).len() == numbered(last_id, wanted.len()));
    assert forall|k: int| #![trigger p.files@[k]] 0 <= k < p.files@.len() implies {
        &&& p.files@[k].id == last_id + 1 + k
        &&& is_trim(p.files@[k].name@, files@[at[k]].name@)
        &&& p.files@[k].size == files@[at[k]].size
        &&& p.changes@[k] matches Change::PutFile(f) && is_registered(
            f,
            p.files@[k],
            room@,
            user@,
        )
    } by {
        assert(registered_views(p.files@)[k] == p.files@[k]@);
        assert(registered_answer(last_id, wanted)[k] == p.files@[k]@);
        assert(change_views(p.changes@)[k] == p.changes@[k]@);
        assert(registered_rows(last_id, room@, trimmed(user@), wanted)[k] == p.changes@[k]@);
        assert(asked[at[k]].0 == files@[at[k]].name@);
    }
    at
}

/// Whether a row is that of a file that was registered: in the room, owned by
/// the user under their trimmed name, without bytes and without a label.
pub open spec fn is_registered(
    file: FileRecord,
    answer: RegisteredFile,
    room: Seq<char>,
    user: Seq<char>,
) -> bool {
    &&& file.id == answer.id
    &&& file.name@ == answer.name@
    &&& file.size == answer.size
    &&& file.room_id@ == room
    &&& file.owner is Some
    &&& is_trim(file.owner->0@, user)
    &&& file.path@.len() == 0
    &&& !file.uploaded
    &&& file.duration is None
    &&& file.status@ == "pending"@
    &&& file.annotated_by is None
    &&& file.updated_at is None
}

/// A registration is answered with its files exactly when it is complete and all
/// its rows were stored. The room is then told how many of its files are done
/// and how many it has. Otherwise nothing is said. Either way the rows that were
/// stored count.
pub proof fn law_registrations_are_finished(
    state: &mut AppState,
    other: &mut AppState,
    plan: Registration,
    stored: usize,
    count: usize,
    answer: Result<Vec<RegisteredFile>, Status>,
)
    requires
        old(state).wf(),
        *old(other) == *old(state),
        is_stored(count, stored, plan.changes@),
        call_ensures(AppState::finish_registration, (state, plan, stored), answer),
        call_ensures(AppState::commit_first, (other, &plan.changes, count), ()),
    ensures
        final(state)@.db == final(other)@.db,
        final(state)@.claims == old(state)@.claims,
        final(state)@.clients == old(state)@.clients,
        keeps_channels(old(state)@, final(state)@),
        match answer {
            Ok(files) => {
                &&& plan.complete && stored >= plan.changes@.len()
                &&& files@ == plan.files@
                &&& says_one(old(state)@, final(state)@)
                &&& reaches_room(
                    final(state)@,
                    final(state)@.outbox.last(),
                    plan.room@,
                    progress_packet(
                        done_in(final(state)@.db, plan.room@),
                        files_in(final(state)@.db, plan.room@),
                    ),
                )
            },
            Err(s) => {
                &&& !plan.complete || stored < plan.changes@.len()
                &&& s == Status::InternalServerError
                &&& is_silent(old(state)@, final(state)@)
            },
        },
{
    lemma_wire();
    lemma_counts(final(other)@.db, plan.room@);
    law_broadcast_stays_in_room(
        final(other)@,
        plan.room@,
        final(other)@.progress_message(plan.room@).text(),
    );
}

/// Files that were registered are there afterwards, as they were answered, and
/// the files that were there before stay.
pub proof fn law_registered_files_are_there(
    state: &mut AppState,
    room: &str,
    user: &str,
    files: &Vec<NewFile>,
    plan: Result<Registration, Status>,
    stored: usize,
    answer: Result<Vec<RegisteredFile>, Status>,
    k: int,
    earlier: i64,
)
    requires
        old(state).wf(),
        call_ensures(AppState::register_files, (old(state), room, user, files), plan),
        plan is Ok,
        call_ensures(AppState::finish_registration, (state, plan->Ok_0, stored), answer),
        answer is Ok,
    ensures
        0 <= k < answer->Ok_0@.len() ==> {
            let entry = answer->Ok_0@[k];
            let row = final(state)@.db.files[entry.id];
            &&& !old(state)@.db.files.contains_key(entry.id)
            &&& final(state)@.db.files.contains_key(entry.id)
            &&& row.name == entry.name@
            &&& row.size == entry.size
            &&& row.room_id == room@
            &&& row.owner is Some && is_trim(row.owner->0, user@)
            &&& !row.uploaded && row.path.len() == 0
            &&& row.status == "pending"@
            &&& row.annotated_by is None && row.updated_at is None && row.duration is None
        },
        old(state)@.db.files.contains_key(earlier) ==> final(state)@.db.files.contains_key(earlier)
            && final(state)@.db.files[earlier] == old(state)@.db.files[earlier],
        final(state)@.db.rooms == old(state)@.db.rooms,
        final(state)@.db.annotations == old(state)@.db.annotations,
        files_in(final(state)@.db, room@) == files_in(old(state)@.db, room@)
            + answer->Ok_0@.len(),
        done_in(final(state)@.db, room@) == done_in(old(state)@.db, room@),
{
    reveal_strlit("");
    lemma_trim(user@);
    let p = plan->Ok_0;
    let db = old(state)@.db;
    let wanted = named(files@.map_values(|f: NewFile| f@));
    let rows = registered_rows(db.last_id, room@, trimmed(user@), wanted);
    assert(change_views(p.changes@).len() == p.changes@.len());
    assert(change_views(p.changes@).take(p.changes@.len() as int) =~= rows);
    law_registration_is_read_back(db, room@, trimmed(user@), wanted, seq![]);
    lemma_counts(db, room@);
    lemma_counts(final(state)@.db, room@);
    assert(final(state)@.db == db.apply_all(rows));
    assert(registered_views(p.files@).len() == wanted.len());
    if 0 <= k < p.files@.len() {
        assert(registered_views(p.files@)[k] == p.files@[k]@);
        assert(registered_answer(db.last_id, wanted)[k] == p.files@[k]@);
        let id = (db.last_id + 1 + k) as i64;
        assert(wanted[k] == wanted[k]);
        assert(db.file(id) is None);
        assert(final(state)@.db.file(id) is Some);
    }
    if db.files.contains_key(earlier) {
        assert(final(state)@.db.file(earlier) == db.file(earlier));
    }
}

/// The list of a room has every file of the room and no other, in the order of
/// their numbers. Each entry has, member by member, what the row of the file
/// says, and names whoever labels the file now.
pub proof fn law_lists_show_the_rows(
    state: AppState,
    room: &str,
    listed: Vec<ListedFile>,
    id: i64,
)
    requires
        state.wf(),
        call_ensures(AppState::list_room_files, (&state, room), listed),
    ensures
        forall|i: int, j: int| 0 <= i < j < listed@.len() ==> listed@[i].id < listed@[j].id,
        forall|i: int|
            #![trigger listed@[i]]
            0 <= i < listed@.len() ==> {
                let row = state@.db.files[listed@[i].id];
                &&& state@.db.files.contains_key(listed@[i].id)
                &&& row.room_id == room@
                &&& listed@[i].name@ == row.name
                &&& listed@[i].size == row.size
                &&& listed@[i].uploaded == row.uploaded
                &&& says(listed@[i].owner, row.owner)
                &&& listed@[i].duration == row.duration
                &&& listed@[i].status@ == row.status
                &&& says(listed@[i].annotated_by, row.annotated_by)
                &&& says(listed@[i].updated_at, row.updated_at)
                &&& says(
                    listed@[i].annotating_by,
                    if state@.claims.contains_key(listed@[i].id) {
                        Some(state@.claims[listed@[i].id])
                    } else {
                        None
                    },
                )
            },
        state@.db.files.contains_key(id) && state@.db.files[id].room_id == room@ ==> exists|i: int|
            0 <= i < listed@.len() && (#[trigger] listed@[i]).id == id,
{
    let views = listed_views(listed@);
    assert forall|i: int, j: int| 0 <= i < j < listed@.len() implies listed@[i].id
        < listed@[j].id by {
        assert(views[i] == listed@[i]@);
        assert(views[j] == listed@[j]@);
    }
    assert forall|i: int| #![trigger listed@[i]] 0 <= i < listed@.len() implies {
        let row = state@.db.files[listed@[i].id];
        &&& state@.db.files.contains_key(listed@[i].id)
        &&& row.room_id == room@
        &&& listed@[i].name@ == row.name
        &&& listed@[i].size == row.size
        &&& listed@[i].uploaded == row.uploaded
        &&& says(listed@[i].owner, row.owner)
        &&& listed@[i].duration == row.duration
        &&& listed@[i].status@ == row.status
        &&& says(listed@[i].annotated_by, row.annotated_by)
        &&& says(listed@[i].updated_at, row.updated_at)
        &&& says(
            listed@[i].annotating_by,
            if state@.claims.contains_key(listed@[i].id) {
                Some(state@.claims[listed@[i].id])
            } else {
                None
            },
        )
    } by {
        assert(views[i] == listed@[i]@);
    }
    if state@.db.files.contains_key(id) && state@.db.files[id].room_id == room@ {
        assert(state@.db.in_room(id, room@));
        let i = choose|i: int| 0 <= i < views.len() && (#[trigger] views[i]).id == id;
        assert(views[i] == listed@[i]@);
        assert(listed@[i].id == id);
    }
}

/// Whether a user may upload a file: it is in the room, theirs, and not uploaded
/// yet.
pub open spec fn awaits_upload(
    state: StateView,
    room: Seq<char>,
    id: i64,
    user: Seq<char>,
) -> bool {
    &&& state.db.files.contains_key(id)
    &&& state.db.files[id].room_id == room
    &&& state.db.files[id].owner == Some(user)
    &&& !state.db.files[id].uploaded
}

/// Whether an upload is refused for the reason that there is: the file is not in
/// the room, it is not the user's, or it has been uploaded.
pub open spec fn is_refused(
    state: StateView,
    room: Seq<char>,
    id: i64,
    user: Seq<char>,
    status: Status,
) -> bool {
    let here = state.db.files.contains_key(id) && state.db.files[id].room_id == room;
    let own = here && state.db.files[id].owner == Some(user);
    match status {
        Status::NotFound => !here,
        Status::Forbidden => here && !own,
        Status::Conflict => own && state.db.files[id].uploaded,
        _ => false,
    }
}

/// An upload is let in whenever the file is in the room, belongs to whoever
/// uploads and has not been uploaded, and never otherwise. It is then to be
/// stored under the identifier with the extension of the file, or with `bin`.
/// A refusal says which of the three fails.
pub proof fn law_uploads_are_let_in(
    state: AppState,
    room: &str,
    id: i64,
    user: &str,
    uuid: &str,
    style: PathStyle,
    plan: Result<Upload, Status>,
    name: &str,
    ext: Option<String>,
)
    requires
        state.wf(),
        call_ensures(AppState::plan_upload, (&state, room, id, user, uuid, style), plan),
        state@.db.files.contains_key(id) ==> name@ == state@.db.files[id].name,
        call_ensures(extension, (name, style), ext),
    ensures
        plan is Ok <==> awaits_upload(state@, room@, id, user@),
        plan matches Ok(u) ==> u.room@ == room@ && u.id == id && u.stored@ == uuid@ + seq!['.']
            + match ext {
            Some(e) => e@,
            None => seq!['b', 'i', 'n'],
        },
        plan matches Err(s) ==> is_refused(state@, room@, id, user@, s),
{
    reveal_strlit(".");
    reveal_strlit("bin");
    assert("."@ =~= seq!['.']);
    assert("bin"@ =~= seq!['b', 'i', 'n']);
}

/// The same, where the identifier is drawn by chance.
pub proof fn law_drawn_uploads_are_let_in(
    state: AppState,
    room: &str,
    id: i64,
    user: &str,
    style: PathStyle,
    plan: Result<Upload, Status>,
    name: &str,
    ext: Option<String>,
)
    requires
        state.wf(),
        call_ensures(AppState::upload_room_audio, (&state, room, id, user, style), plan),
        state@.db.files.contains_key(id) ==> name@ == state@.db.files[id].name,
        call_ensures(extension, (name, style), ext),
    ensures
        plan is Ok <==> awaits_upload(state@, room@, id, user@),
        plan matches Ok(u) ==> u.room@ == room@ && u.id == id && u.stored@.len() >= 37
            && is_uuid(u.stored@.take(36)) && u.stored@.skip(36) == seq!['.'] + match ext {
            Some(e) => e@,
            None => seq!['b', 'i', 'n'],
        },
        plan matches Err(s) ==> is_refused(state@, room@, id, user@, s),
{
    reveal_strlit(".");
    reveal_strlit("bin");
    assert("."@ =~= seq!['.']);
    assert("bin"@ =~= seq!['b', 'i', 'n']);
    if plan is Ok {
        let u = plan->Ok_0;
        let tail = seq!['.'] + match ext {
            Some(e) => e@,
            None => seq!['b', 'i', 'n'],
        };
        let uuid = choose|uuid: Seq<char>| #[trigger]
            is_uuid(uuid) && u.stored@ == stored_name(
                uuid,
                state@.db.files[id].name,
                style,
            );
        assert(u.stored@ =~= uuid + tail);
        assert(u.stored@.take(36) =~= uuid);
        assert(u.stored@.skip(36) =~= tail);
    }
}

/// Once the bytes of an upload are written and its row is stored, the file is
/// uploaded at that place and is otherwise as before, the room hears of it, and
/// the answer is the number of the file. The list of the room then shows the
/// file as uploaded, and it can be downloaded from that place.
pub proof fn law_uploads_are_recorded(
    state: &mut AppState,
    upload: Upload,
    written: Result<WrittenUpload, Status>,
    stored: usize,
    answer: Result<i64, Status>,
    room: &str,
    listed: Vec<ListedFile>,
    download: Result<Download, Status>,
    i: int,
    other: i64,
)
    requires
        old(state).wf(),
        old(state)@.db.files.contains_key(upload.id),
        call_ensures(AppState::record_upload, (old(state), upload, true), written),
        written is Ok,
        stored >= 1,
        call_ensures(AppState::finish_upload, (state, written->Ok_0, stored), answer),
        call_ensures(AppState::list_room_files, (final(state), room), listed),
        call_ensures(AppState::download_audio, (final(state), upload.id), download),
    ensures
        answer == Ok::<i64, Status>(upload.id),
        ({
            let was = old(state)@.db.files[upload.id];
            let is = final(state)@.db.files[upload.id];
            &&& final(state)@.db.files.contains_key(upload.id)
            &&& is.uploaded
            &&& is.path == upload.stored@
            &&& is.id == was.id && is.room_id == was.room_id && is.name == was.name
            &&& is.size == was.size && is.owner == was.owner && is.duration == was.duration
            &&& is.status == was.status && is.annotated_by == was.annotated_by
            &&& is.updated_at == was.updated_at
        }),
        other != upload.id ==> final(state)@.db.files.contains_key(other) == old(state)@.db.files.contains_key(other) && (old(state)@.db.files.contains_key(other) ==> final(state)@.db.files[other] == old(state)@.db.files[other]),
        final(state)@.db.annotations == old(state)@.db.annotations,
        final(state)@.db.rooms == old(state)@.db.rooms,
        final(state)@.claims == old(state)@.claims,
        final(state)@.clients == old(state)@.clients,
        keeps_channels(old(state)@, final(state)@),
        says_one(old(state)@, final(state)@),
        reaches_room(
            final(state)@,
            final(state)@.outbox.last(),
            upload.room@,
            file_packet("file_uploaded"@, upload.id),
        ),
        0 <= i < listed@.len() && listed@[i].id == upload.id ==> listed@[i].uploaded,
        download matches Ok(d) && d.path@ == upload.stored@ && d.name@ == old(state)@.db.files[upload.id].name,
{
    lemma_wire();
    let w = written->Ok_0;
    let db = old(state)@.db;
    let row = db.uploaded_file(upload.id, upload.stored@)->0;
    let rows = seq![ChangeView::PutFile(row)];
    assert(change_views(w.changes@) == rows);
    assert(change_views(w.changes@).len() == w.changes@.len());
    assert(rows.take(1) =~= rows);
    assert(rows.drop_last() =~= seq![]);
    assert(db.apply_all(seq![]) == db);
    assert(db.apply_all(rows) == db.apply(rows.last()));
    let mid = old(state)@.changed(rows);
    law_steps_keep_invariant(
        old(state)@,
        upload.room@,
        upload.room@,
        0,
        upload.id,
        rows,
    );
    law_broadcast_stays_in_room(mid, upload.room@, file_packet("file_uploaded"@, upload.id));
    assert(final(state).wf());
    if 0 <= i < listed@.len() {
        assert(listed_views(listed@)[i] == listed@[i]@);
    }
}

/// An upload whose bytes could not be written, or whose row could not be stored,
/// fails, and the file is not uploaded by it.
pub proof fn law_broken_uploads_change_nothing(
    state: &mut AppState,
    upload: Upload,
    written: Result<WrittenUpload, Status>,
    failed: Result<WrittenUpload, Status>,
    answer: Result<i64, Status>,
)
    requires
        old(state).wf(),
        old(state)@.db.files.contains_key(upload.id),
        call_ensures(AppState::record_upload, (old(state), upload, false), failed),
        call_ensures(AppState::record_upload, (old(state), upload, true), written),
        written matches Ok(w) ==> call_ensures(AppState::finish_upload, (state, w, 0), answer),
    ensures
        failed == Err::<WrittenUpload, Status>(Status::InternalServerError),
        written is Ok,
        answer == Err::<i64, Status>(Status::InternalServerError),
        final(state)@ == old(state)@,
{
    let w = written->Ok_0;
    assert(change_views(w.changes@).len() == w.changes@.len());
    assert(change_views(w.changes@).take(0) =~= seq![]);
    assert(old(state)@.db.apply_all(seq![]) == old(state)@.db);
}

/// A file can be downloaded exactly when it is there and has been uploaded: from
/// its path, under its name.
pub proof fn law_downloads_are_let_in(state: AppState, id: i64, plan: Result<Download, Status>)
    requires
        state.wf(),
        call_ensures(AppState::download_audio, (&state, id), plan),
    ensures
        plan is Ok == (state@.db.files.contains_key(id) && state@.db.files[id].uploaded),
        plan matches Ok(d) ==> d.path@ == state@.db.files[id].path && d.name@
            == state@.db.files[id].name,
        plan matches Err(s) ==> s == Status::NotFound,
{
}

/// A download whose bytes were read has the media type of its name and is to be
/// saved under its name. It fails where the bytes could not be read, and where
/// the name has a control character.
pub proof fn law_downloads_are_named(
    download: Download,
    read: bool,
    style: PathStyle,
    head: Result<DownloadHead, Status>,
    name: &str,
    mime: &'static str,
)
    requires
        call_ensures(finish_download, (&download, read, style), head),
        name@ == download.name@,
        call_ensures(mime_for, (name, style), mime),
    ensures
        head == Err::<DownloadHead, Status>(Status::NotFound) <==> !read,
        head == Err::<DownloadHead, Status>(Status::InternalServerError) <==> read && (exists|
            i: int,
        |
            #![trigger download.name@[i]]
            0 <= i < download.name@.len() && is_control(download.name@[i])),
        head matches Err(s) ==> s == Status::NotFound || s == Status::InternalServerError,
        head matches Ok(h) ==> h.content_type@ == mime@ && h.content_disposition@
            == "attachment; filename="@ + seq!['"'] + download.name@ + seq!['"'],
{
    reveal_strlit("attachment; filename=\"");
    reveal_strlit("attachment; filename=");
    reveal_strlit("\"");
    let full = disposition_of(download.name@);
    let n = "attachment; filename=\""@.len() as int;
    assert(full =~= "attachment; filename="@ + seq!['"'] + download.name@ + seq!['"']);
    assert forall|i: int| 0 <= i < download.name@.len() implies full[n + i] == download.name@[i] by {}
    if read {
        if is_header_text(full) {
            assert forall|i: int|
                #![trigger download.name@[i]]
                0 <= i < download.name@.len() implies !is_control(download.name@[i]) by {
                assert(full[n + i] == download.name@[i]);
            }
        } else {
            let j = choose|j: int|
                #![trigger full[j]]
                0 <= j < full.len() && !(full[j] == '\t' || (full[j] >= ' ' && full[j]
                    != '\u{7f}'));
            if j < n {
                assert(full[j] == "attachment; filename=\""@[j]);
                assert(false);
            } else if j == full.len() - 1 {
                assert(full[j] == '"');
                assert(false);
            } else {
                assert(full[j] == download.name@[j - n]);
                assert(is_control(download.name@[j - n]));
            }
        }
    }
}

/// The control characters of ASCII, without the tabulator.
pub open spec fn is_control(c: char) -> bool {
    let n = c as int;
    (n < 32 && n != 9) || n == 127
}

/// Whether the rows of a plan store its label: first the annotation of the file,
/// with what was given, the user and the time, and then the file, as done by the
/// user at that time and otherwise as it was.
pub open spec fn labels_file(db: DbView, plan: LabelPlan, now: Seq<char>) -> bool {
    let row = db.files[plan.id];
    let label = plan.label;
    &&& plan.changes@.len() == 2
    &&& plan.changes@[0] matches Change::PutAnnotation(a) && {
        &&& a.file_id == plan.id
        &&& a.is_check == label.is_check
        &&& a.lab@ == label.lab@
        &&& a.lab_without_tone@ == label.lab_without_tone@
        &&& a.raw_text@ == label.raw_text@
        &&& says(a.annotated_by, Some(label.user@))
        &&& says(a.updated_at, Some(now))
    }
    &&& plan.changes@[1] matches Change::PutFile(f) && {
        &&& f.id == row.id
        &&& f.status@ == "done"@
        &&& says(f.annotated_by, Some(label.user@))
        &&& says(f.updated_at, Some(now))
        &&& f.room_id@ == row.room_id
        &&& f.name@ == row.name
        &&& f.path@ == row.path
        &&& f.size == row.size
        &&& f.uploaded == row.uploaded
        &&& says(f.owner, row.owner)
        &&& f.duration == row.duration
    }
}

pub(crate) proof fn lemma_label_changes(db: DbView, plan: LabelPlan, now: Seq<char>)
    requires
        change_views(plan.changes@) == label_rows(db, plan.id, plan.label, now),
    ensures
        labels_file(db, plan, now),
{
    let views = change_views(plan.changes@);
    assert(views.len() == 2);
    assert(views[0] == plan.changes@[0]@);
    assert(views[1] == plan.changes@[1]@);
}

/// A label is to be recorded for every file that is there, for the room of the
/// file and as it was given. There is none for a file that is not there.
pub proof fn law_labels_are_let_in(
    state: AppState,
    id: i64,
    label: Label,
    now: &str,
    plan: Result<LabelPlan, Status>,
)
    requires
        state.wf(),
        call_ensures(AppState::save_annotation, (&state, id, label, now), plan),
    ensures
        match plan {
            Ok(p) => {
                &&& state@.db.files.contains_key(id)
                &&& p.id == id
                &&& p.room@ == state@.db.files[id].room_id
                &&& p.label.is_check == label.is_check
                &&& p.label.lab@ == label.lab@
                &&& p.label.lab_without_tone@ == label.lab_without_tone@
                &&& p.label.raw_text@ == label.raw_text@
                &&& p.label.user@ == label.user@
                &&& labels_file(state@.db, p, now@)
            },
            Err(s) => !state@.db.files.contains_key(id) && s == Status::NotFound,
        },
{
    if plan is Ok {
        lemma_label_changes(state@.db, plan->Ok_0, now@);
    }
}

/// Whether a state is that after a label: who gave it does not hold the file any
/// longer, the room has heard of the label, member by member, and then of how
/// many of its files are done and how many it has.
pub open spec fn has_heard(
    before: StateView,
    after: StateView,
    room: Seq<char>,
    id: i64,
    label: Label,
) -> bool {
    let n = before.outbox.len() as int;
    &&& after.claims.contains_key(id) == (before.claims.contains_key(id) && before.claims[id]
        != label.user@)
    &&& keeps_other_claims(before, after, id)
    &&& after.claims.contains_key(id) ==> after.claims[id] == before.claims[id]
    &&& after.clients == before.clients
    &&& keeps_channels(before, after)
    &&& after.outbox.len() == n + 2
    &&& before.outbox.is_prefix_of(after.outbox)
    &&& reaches_room(
        after,
        after.outbox[n],
        room,
        label_packet(
            label.user@,
            id,
            label.is_check,
            label.lab@,
            label.lab_without_tone@,
            label.raw_text@,
        ),
    )
    &&& reaches_room(
        after,
        after.outbox[n + 1],
        room,
        progress_packet(done_in(after.db, room), files_in(after.db, room)),
    )
}

proof fn lemma_heard(state: StateView, room: Seq<char>, id: i64, label: Label)
    requires
        state.wf(),
    ensures
        has_heard(state, labelled(state, room, id, label), room, id, label),
        labelled(state, room, id, label).db == state.db,
{
    lemma_wire();
    lemma_counts(state.db, room);
    let free = state.released(id, label.user@);
    let first = label_message(id, label).text();
    let second = free.progress_message(room).text();
    law_broadcast_stays_in_room(free, room, first);
    let mid = free.broadcast(room, first);
    law_broadcast_stays_in_room(mid, room, second);
    let after = mid.broadcast(room, second);
    let n = state.outbox.len() as int;
    assert(after.outbox[n] == mid.outbox[n]);
    assert(mid.outbox.last() == mid.outbox[n]);
}

/// A label is recorded when its two rows were stored, and fails otherwise; either
/// way the rows that were stored count. The room hears of it exactly when it is
/// recorded.
pub proof fn law_labels_are_finished(
    state: &mut AppState,
    other: &mut AppState,
    plan: LabelPlan,
    stored: usize,
    count: usize,
    answer: Result<(), Status>,
)
    requires
        old(state).wf(),
        *old(other) == *old(state),
        is_stored(count, stored, plan.changes@),
        call_ensures(AppState::finish_annotation, (state, plan, stored), answer),
        call_ensures(AppState::commit_first, (other, &plan.changes, count), ()),
    ensures
        final(state)@.db == final(other)@.db,
        match answer {
            Ok(_) => stored >= plan.changes@.len() && has_heard(
                old(state)@,
                final(state)@,
                plan.room@,
                plan.id,
                plan.label,
            ),
            Err(s) => stored < plan.changes@.len() && s == Status::InternalServerError
                && final(state)@ == final(other)@,
        },
{
    lemma_heard(final(other)@, plan.room@, plan.id, plan.label);
}

/// A label over a connection is recorded, and heard of in the room, as soon as
/// its first row was stored; with none stored nothing changes.
pub proof fn law_labels_over_connections_are_finished(
    state: &mut AppState,
    other: &mut AppState,
    plan: LabelPlan,
    stored: usize,
    count: usize,
)
    requires
        old(state).wf(),
        *old(other) == *old(state),
        is_stored(count, stored, plan.changes@),
        call_ensures(AppState::finish_label, (state, plan, stored), ()),
        call_ensures(AppState::commit_first, (other, &plan.changes, count), ()),
    ensures
        count == 0 ==> final(state)@ == old(state)@,
        count > 0 ==> final(state)@.db == final(other)@.db && has_heard(
            old(state)@,
            final(state)@,
            plan.room@,
            plan.id,
            plan.label,
        ),
{
    lemma_heard(final(other)@, plan.room@, plan.id, plan.label);
}

/// A label that was saved is read back, member by member, as it was given, with
/// the user and the time. The file is done, and otherwise as before. No other
/// file and no other label moves.
pub proof fn law_saved_labels_are_read_back(
    state: &mut AppState,
    id: i64,
    label: Label,
    now: &str,
    plan: Result<LabelPlan, Status>,
    stored: usize,
    answer: Result<(), Status>,
    read: Annotation,
    other: i64,
)
    requires
        old(state).wf(),
        old(state)@.db.files.contains_key(id),
        call_ensures(AppState::save_annotation, (old(state), id, label, now), plan),
        plan matches Ok(p) ==> call_ensures(
            AppState::finish_annotation,
            (state, p, stored),
            answer,
        ),
        stored >= 2,
        call_ensures(AppState::get_annotation, (final(state), id), read),
        other != id,
    ensures
        plan is Ok,
        answer is Ok,
        read.file_id == id,
        read.is_check == label.is_check,
        read.lab@ == label.lab@,
        read.lab_without_tone@ == label.lab_without_tone@,
        read.raw_text@ == label.raw_text@,
        says(read.annotated_by, Some(label.user@)),
        says(read.updated_at, Some(now@)),
        ({
            let was = old(state)@.db.files[id];
            let is = final(state)@.db.files[id];
            &&& final(state)@.db.files.contains_key(id)
            &&& is.status == "done"@
            &&& is.annotated_by == Some(label.user@)
            &&& is.updated_at == Some(now@)
            &&& is.id == was.id && is.room_id == was.room_id && is.name == was.name
            &&& is.path == was.path && is.size == was.size && is.uploaded == was.uploaded
            &&& is.owner == was.owner && is.duration == was.duration
        }),
        final(state)@.db.files.contains_key(other) == old(state)@.db.files.contains_key(other),
        old(state)@.db.files.contains_key(other) ==> final(state)@.db.files[other] == old(state)@.db.files[other],
        final(state)@.db.annotations.contains_key(other) == old(state)@.db.annotations.contains_key(other),
        old(state)@.db.annotations.contains_key(other) ==> final(state)@.db.annotations[other]
            == old(state)@.db.annotations[other],
        final(state)@.db.rooms == old(state)@.db.rooms,
        has_heard(old(state)@, final(state)@, old(state)@.db.files[id].room_id, id, label),
{
    let db = old(state)@.db;
    let p = plan->Ok_0;
    let rows = label_rows(db, id, label, now@);
    assert(change_views(p.changes@).len() == p.changes@.len());
    assert(rows.take(2) =~= rows);
    law_label_is_read_back(db, id, label, now@);
    law_steps_keep_invariant(
        old(state)@,
        p.room@,
        p.room@,
        0,
        id,
        rows,
    );
    lemma_heard(old(state)@.changed(rows), p.room@, id, label);
    let after = db.apply_all(rows);
    assert(final(state)@.db == after);
    assert(final(state).wf());
    assert(after.file(id) is Some);
    assert(after.annotation(id) is Some);
    assert(after.file(other) == db.file(other));
    assert(after.annotation(other) == db.annotation(other));
}

/// The annotation of a file that has none is empty, with nobody and no time.
pub proof fn law_unlabelled_files_read_empty(state: AppState, id: i64, read: Annotation)
    requires
        state.wf(),
        call_ensures(AppState::get_annotation, (&state, id), read),
    ensures
        state@.db.annotations.contains_key(id) ==> is_annotation(
            read,
            state@.db.annotations[id],
        ),
        !state@.db.annotations.contains_key(id) ==> {
            &&& read.file_id == id
            &&& read.is_check == 0
            &&& read.lab@.len() == 0
            &&& read.lab_without_tone@.len() == 0
            &&& read.raw_text@.len() == 0
            &&& read.annotated_by is None
            &&& read.updated_at is None
        },
{
    reveal_strlit("");
}

/// The progress of the server is the number of its files that are done, and the
/// number of its files.
pub proof fn law_server_progress_counts_files(state: AppState, counts: (u64, u64))
    requires
        state.wf(),
        call_ensures(AppState::get_progress, (&state,), counts),
    ensures
        counts.0 == state@.db.files.dom().filter(
            |id: i64| state@.db.files[id].status == "done"@,
        ).len(),
        counts.1 == state@.db.files.dom().len(),
{
    lemma_counts(state@.db, seq![]);
}

/// The parts of a form are told apart by their names, the last of each kind
/// counts, and both kinds are needed.
pub proof fn law_forms_are_filled(
    name: Option<&str>,
    field: FormField,
    form: &mut UploadForm,
    user: String,
    data: Vec<u8>,
    other: &mut UploadForm,
    whole: UploadForm,
    parts: Result<(String, Vec<u8>), Status>,
    fresh: UploadForm,
)
    requires
        call_ensures(form_field, (name,), field),
        call_ensures(UploadForm::new, (), fresh),
        call_ensures(UploadForm::set_user, (form, user), ()),
        call_ensures(UploadForm::set_data, (other, data), ()),
        call_ensures(UploadForm::complete, (whole,), parts),
    ensures
        field == FormField::User <==> name is Some && name->0@ == "user"@,
        field == FormField::File <==> name is Some && name->0@ == "file"@,
        fresh.user is None,
        fresh.data is None,
        final(form).user matches Some(u) && u@ == user@,
        final(form).data == old(form).data,
        final(other).data matches Some(d) && d@ == data@,
        final(other).user == old(other).user,
        parts is Ok <==> whole.user is Some && whole.data is Some,
        parts matches Ok(p) ==> p.0@ == whole.user->0@ && p.1@ == whole.data->0@,
        parts matches Err(s) ==> s == Status::BadRequest,
{
    reveal_strlit("user");
    reveal_strlit("file");
    assert("user"@[0] == 'u');
    assert("file"@[0] == 'f');
}

} // verus!
