//! Laws of the records: what is written is read back, and nothing else moves.
use crate::db::{
    counted, counts, done, is_listing, legacy, migrated_file, new_file_row, pending, DbView,
};
use crate::http::{
    label_row, label_rows, numbered, registered_row, registered_rows, shows_room, upload_refusal,
    Label, ListedFileView, Status,
};
use crate::record::{ChangeView, FileRow, RoomRow};
use crate::state::StateView;
use vstd::prelude::*;

verus! {

/// A change keeps the invariant of the records.
pub proof fn law_change_keeps_invariant(db: DbView, change: ChangeView)
    requires
        db.wf(),
    ensures
        db.apply(change).wf(),
{
}

/// Several changes keep the invariant of the records.
pub proof fn law_changes_keep_invariant(db: DbView, changes: Seq<ChangeView>)
    requires
        db.wf(),
    ensures
        db.apply_all(changes).wf(),
    decreases changes.len(),
{
    if changes.len() > 0 {
        law_changes_keep_invariant(db, changes.drop_last());
    }
}

/// Changes never remove a room, a file or an annotation.
pub proof fn law_nothing_is_removed(db: DbView, changes: Seq<ChangeView>)
    ensures
        db.rooms.dom().subset_of(db.apply_all(changes).rooms.dom()),
        db.files.dom().subset_of(db.apply_all(changes).files.dom()),
        db.annotations.dom().subset_of(db.apply_all(changes).annotations.dom()),
        db.last_id <= db.apply_all(changes).last_id,
    decreases changes.len(),
{
    if changes.len() > 0 {
        law_nothing_is_removed(db, changes.drop_last());
    }
}

/// A room that has been made is there, and the other rooms are as before.
pub proof fn law_new_room_exists(db: DbView, room: RoomRow, other: Seq<char>)
    requires
        db.wf(),
    ensures
        db.apply(ChangeView::PutRoom(room)).rooms.contains_key(room.id),
        db.apply(ChangeView::PutRoom(room)).rooms[room.id] == room,
        other != room.id ==> db.apply(ChangeView::PutRoom(room)).rooms.contains_key(other)
            == db.rooms.contains_key(other),
        db.apply(ChangeView::PutRoom(room)).files == db.files,
{
}

/// No more files are labelled than there are.
pub proof fn law_progress_is_a_part(db: DbView, room: Option<Seq<char>>)
    requires
        db.wf(),
    ensures
        db.progress(room).0 <= db.progress(room).1,
{
    let part = counted(db.files, room, true);
    let whole = counted(db.files, room, false);
    assert(part.subset_of(whole));
    vstd::set_lib::lemma_len_subset(part, whole);
}

/// A room has no more files, and no more labelled files, than the server.
pub proof fn law_room_is_a_part(db: DbView, room: Seq<char>)
    requires
        db.wf(),
    ensures
        db.progress(Some(room)).0 <= db.progress(None).0,
        db.progress(Some(room)).1 <= db.progress(None).1,
{
    vstd::set_lib::lemma_len_subset(
        counted(db.files, Some(room), true),
        counted(db.files, None, true),
    );
    vstd::set_lib::lemma_len_subset(
        counted(db.files, Some(room), false),
        counted(db.files, None, false),
    );
}

/// The progress of some rooms together.
pub open spec fn progress_over(db: DbView, rooms: Seq<Seq<char>>) -> (nat, nat)
    decreases rooms.len(),
{
    if rooms.len() == 0 {
        (0, 0)
    } else {
        let others = progress_over(db, rooms.drop_last());
        let last = db.progress(Some(rooms.last()));
        (others.0 + last.0, others.1 + last.1)
    }
}

/// The files that count in some of the rooms.
spec fn counted_over(db: DbView, rooms: Seq<Seq<char>>, only_done: bool) -> Set<i64> {
    counted(db.files, None, only_done).filter(|id: i64| rooms.contains(db.files[id].room_id))
}

proof fn lemma_counted_over(db: DbView, rooms: Seq<Seq<char>>)
    requires
        db.wf(),
        rooms.no_duplicates(),
    ensures
        progress_over(db, rooms).0 == counted_over(db, rooms, true).len(),
        progress_over(db, rooms).1 == counted_over(db, rooms, false).len(),
    decreases rooms.len(),
{
    if rooms.len() == 0 {
        assert(counted_over(db, rooms, true) =~= Set::empty());
        assert(counted_over(db, rooms, false) =~= Set::empty());
    } else {
        lemma_counted_over(db, rooms.drop_last());
        lemma_one_room_more(db, rooms, true);
        lemma_one_room_more(db, rooms, false);
    }
}

proof fn lemma_one_room_more(db: DbView, rooms: Seq<Seq<char>>, only_done: bool)
    requires
        db.wf(),
        rooms.no_duplicates(),
        rooms.len() > 0,
    ensures
        counted_over(db, rooms, only_done).len() == counted_over(
            db,
            rooms.drop_last(),
            only_done,
        ).len() + counted(db.files, Some(rooms.last()), only_done).len(),
{
    let fewer = rooms.drop_last();
    let before = counted_over(db, fewer, only_done);
    let last = counted(db.files, Some(rooms.last()), only_done);
    assert forall|room: Seq<char>| rooms.contains(room) <==> (fewer.contains(room) || room
        == rooms.last()) by {
        if fewer.contains(room) {
            let i = choose|i: int| 0 <= i < fewer.len() && fewer[i] == room;
            assert(rooms[i] == room);
        }
        if rooms.contains(room) {
            let i = choose|i: int| 0 <= i < rooms.len() && rooms[i] == room;
            if i < fewer.len() {
                assert(fewer[i] == room);
            }
        }
    }
    assert(!fewer.contains(rooms.last()));
    assert(counted_over(db, rooms, only_done) =~= before + last);
    assert(before.disjoint(last));
    vstd::set_lib::lemma_set_disjoint_lens(before, last);
}

/// The progress of the server is the sum over the rooms that have files.
pub proof fn law_progress_is_the_sum(db: DbView, rooms: Seq<Seq<char>>)
    requires
        db.wf(),
        rooms.no_duplicates(),
        forall|id: i64| #[trigger]
            db.files.contains_key(id) ==> rooms.contains(db.files[id].room_id),
    ensures
        db.progress(None) == progress_over(db, rooms),
{
    lemma_counted_over(db, rooms);
    assert(counted_over(db, rooms, true) =~= counted(db.files, None, true));
    assert(counted_over(db, rooms, false) =~= counted(db.files, None, false));
}

/// How one count moves when the row of a file is written.
proof fn lemma_count_after_put(db: DbView, file: FileRow, room: Option<Seq<char>>, only_done: bool)
    requires
        db.wf(),
    ensures
        ({
            let before = counted(db.files, room, only_done);
            let after = counted(db.apply(ChangeView::PutFile(file)).files, room, only_done);
            let was = db.files.contains_key(file.id) && counts(db.files[file.id], room, only_done);
            let is = counts(file, room, only_done);
            after.len() == before.len() + (if is {
                1int
            } else {
                0
            }) - (if was {
                1int
            } else {
                0
            })
        }),
{
    let before = counted(db.files, room, only_done);
    let after = counted(db.apply(ChangeView::PutFile(file)).files, room, only_done);
    let rest = before.remove(file.id);
    assert(before.finite());
    if counts(file, room, only_done) {
        assert(after =~= rest.insert(file.id));
    } else {
        assert(after =~= rest);
    }
    if !before.contains(file.id) {
        assert(rest =~= before);
    }
}

/// A new file gets a number that no file had, and is read back as it was
/// written. No other file moves.
pub proof fn law_new_file_is_read_back(
    db: DbView,
    room: Seq<char>,
    owner: Seq<char>,
    name: Seq<char>,
    size: i64,
    path: Seq<char>,
    duration: Option<u64>,
)
    requires
        db.wf(),
        db.last_id < i64::MAX,
    ensures
        ({
            let id = (db.last_id + 1) as i64;
            let row = new_file_row(id, room, owner, name, size, path, duration);
            let after = db.apply(ChangeView::PutFile(row));
            &&& after.wf()
            &&& db.file(id) is None
            &&& after.file(id) == Some(row)
            &&& row.uploaded == (path.len() > 0)
            &&& row.status == pending()
            &&& forall|k: i64| k != id ==> #[trigger] after.file(k) == db.file(k)
            &&& after.last_id == id
        }),
{
}

/// A new file adds one to the files of its room and of the server, and none to
/// the labelled ones. Other rooms do not count it.
pub proof fn law_new_file_counts_once(
    db: DbView,
    room: Seq<char>,
    owner: Seq<char>,
    name: Seq<char>,
    size: i64,
    path: Seq<char>,
    duration: Option<u64>,
    other: Seq<char>,
)
    requires
        db.wf(),
        db.last_id < i64::MAX,
    ensures
        ({
            let row = new_file_row((db.last_id + 1) as i64, room, owner, name, size, path, duration);
            let after = db.apply(ChangeView::PutFile(row));
            &&& after.progress(Some(room)).0 == db.progress(Some(room)).0
            &&& after.progress(Some(room)).1 == db.progress(Some(room)).1 + 1
            &&& after.progress(None).0 == db.progress(None).0
            &&& after.progress(None).1 == db.progress(None).1 + 1
            &&& other != room ==> after.progress(Some(other)) == db.progress(Some(other))
        }),
{
    let row = new_file_row((db.last_id + 1) as i64, room, owner, name, size, path, duration);
    reveal_strlit("pending");
    reveal_strlit("done");
    assert(pending().len() != done().len());
    lemma_count_after_put(db, row, Some(room), true);
    lemma_count_after_put(db, row, Some(room), false);
    lemma_count_after_put(db, row, None, true);
    lemma_count_after_put(db, row, None, false);
    lemma_count_after_put(db, row, Some(other), true);
    lemma_count_after_put(db, row, Some(other), false);
}

/// The list of the files of a room is determined: whatever is a list of them
/// is this one.
pub proof fn law_one_listing(
    files: Map<i64, FileRow>,
    room: Seq<char>,
    a: Seq<FileRow>,
    b: Seq<FileRow>,
)
    requires
        forall|id: i64| #[trigger] files.contains_key(id) ==> files[id].id == id,
        is_listing(files, room, a),
        is_listing(files, room, b),
    ensures
        a == b,
    decreases a.len(),
{
    if a.len() == 0 {
        if b.len() > 0 {
            assert(files.contains_key(b[0].id));
            assert(exists|i: int| 0 <= i < a.len() && #[trigger] a[i] == files[b[0].id]);
        }
        assert(a =~= b);
    } else {
        let last = a.last();
        assert(files.contains_key(a[a.len() - 1].id));
        let j = choose|j: int| 0 <= j < b.len() && #[trigger] b[j] == files[last.id];
        assert(b[j] == last);
        if j < b.len() - 1 {
            let top = b[b.len() - 1];
            assert(b[j].id < b[b.len() - 1].id);
            assert(files.contains_key(top.id));
            let i = choose|i: int| 0 <= i < a.len() && #[trigger] a[i] == files[top.id];
            assert(a[i] == top);
            if i < a.len() - 1 {
                assert(a[i].id < a[a.len() - 1].id);
            }
            assert(false);
        }
        let fewer = files.remove(last.id);
        let a1 = a.drop_last();
        let b1 = b.drop_last();
        lemma_shorter_listing(files, room, a);
        lemma_shorter_listing(files, room, b);
        law_one_listing(fewer, room, a1, b1);
        assert(a =~= a1.push(last));
        assert(b =~= b1.push(last));
    }
}

proof fn lemma_shorter_listing(files: Map<i64, FileRow>, room: Seq<char>, a: Seq<FileRow>)
    requires
        forall|id: i64| #[trigger] files.contains_key(id) ==> files[id].id == id,
        is_listing(files, room, a),
        a.len() > 0,
    ensures
        is_listing(files.remove(a.last().id), room, a.drop_last()),
{
    let last = a.last();
    let fewer = files.remove(last.id);
    let a1 = a.drop_last();
    assert forall|i: int| #![trigger a1[i]] 0 <= i < a1.len() implies fewer.contains_key(a1[i].id)
        && fewer[a1[i].id] == a1[i] && a1[i].room_id == room by {
        assert(a[i].id < a[a.len() - 1].id);
    }
    assert forall|id: i64| #[trigger]
        fewer.contains_key(id) && fewer[id].room_id == room implies exists|i: int|
        0 <= i < a1.len() && #[trigger] a1[i] == fewer[id] by {
        assert(files.contains_key(id));
        let i = choose|i: int| 0 <= i < a.len() && #[trigger] a[i] == files[id];
        assert(i < a1.len());
        assert(a1[i] == fewer[id]);
    }
}

/// What is shown of the files of a room is determined.
pub proof fn law_one_shown_list(
    state: StateView,
    room: Seq<char>,
    a: Seq<ListedFileView>,
    b: Seq<ListedFileView>,
)
    requires
        state.wf(),
        shows_room(state, room, a),
        shows_room(state, room, b),
    ensures
        a == b,
{
    let rows_a = lemma_shown_rows(state, room, a);
    let rows_b = lemma_shown_rows(state, room, b);
    law_one_listing(state.db.files, room, rows_a, rows_b);
    assert forall|i: int| 0 <= i < a.len() implies a[i] == b[i] by {
        assert(a[i].id == rows_a[i].id);
        assert(b[i].id == rows_b[i].id);
    }
    assert(a =~= b);
}

/// The rows behind what is shown of a room.
proof fn lemma_shown_rows(state: StateView, room: Seq<char>, a: Seq<ListedFileView>) -> (rows: Seq<
    FileRow,
>)
    requires
        state.wf(),
        shows_room(state, room, a),
    ensures
        rows.len() == a.len(),
        forall|i: int| #![trigger rows[i]] 0 <= i < a.len() ==> rows[i].id == a[i].id,
        is_listing(state.db.files, room, rows),
{
    let rows = Seq::new(a.len(), |i: int| state.db.files[a[i].id]);
    assert forall|i: int| #![trigger rows[i]] 0 <= i < rows.len() implies rows[i].id == a[i].id
        && state.db.files.contains_key(rows[i].id) && state.db.files[rows[i].id] == rows[i]
        && rows[i].room_id == room by {
        assert(state.db.in_room(a[i].id, room));
    }
    assert forall|id: i64| #[trigger]
        state.db.files.contains_key(id) && state.db.files[id].room_id == room implies exists|
        i: int,
    | 0 <= i < rows.len() && #[trigger] rows[i] == state.db.files[id] by {
        assert(state.db.in_room(id, room));
        let i = choose|i: int| 0 <= i < a.len() && (#[trigger] a[i]).id == id;
        assert(rows[i] == state.db.files[id]);
    }
    rows
}

/// Writing the row of a file of one room leaves the list of every other room
/// as it was.
pub proof fn law_listings_are_isolated(
    db: DbView,
    file: FileRow,
    other: Seq<char>,
    rows: Seq<FileRow>,
)
    requires
        db.wf(),
        file.room_id != other,
        db.files.contains_key(file.id) ==> db.files[file.id].room_id != other,
        is_listing(db.files, other, rows),
    ensures
        is_listing(db.apply(ChangeView::PutFile(file)).files, other, rows),
{
    let after = db.apply(ChangeView::PutFile(file)).files;
    assert forall|i: int| #![trigger rows[i]] 0 <= i < rows.len() implies after.contains_key(
        rows[i].id,
    ) && after[rows[i].id] == rows[i] && rows[i].room_id == other by {
        assert(db.files.contains_key(rows[i].id));
    }
    assert forall|id: i64| #[trigger]
        after.contains_key(id) && after[id].room_id == other implies exists|i: int|
        0 <= i < rows.len() && #[trigger] rows[i] == after[id] by {
        assert(db.files.contains_key(id));
    }
}

/// What the records say of a file once its bytes have been stored: it is
/// uploaded, to that place, and is otherwise as before. Nothing else moves, and
/// no count does.
pub proof fn law_upload_is_read_back(db: DbView, id: i64, path: Seq<char>, room: Option<Seq<char>>)
    requires
        db.wf(),
        db.file(id) is Some,
    ensures
        ({
            let row = db.uploaded_file(id, path)->0;
            let after = db.apply(ChangeView::PutFile(row));
            &&& after.wf()
            &&& after.file(id) == Some(FileRow { uploaded: true, path, ..db.files[id] })
            &&& forall|k: i64| k != id ==> #[trigger] after.file(k) == db.file(k)
            &&& after.annotations == db.annotations
            &&& after.rooms == db.rooms
            &&& after.last_id == db.last_id
            &&& after.progress(room) == db.progress(room)
        }),
{
    let row = db.uploaded_file(id, path)->0;
    lemma_count_after_put(db, row, room, true);
    lemma_count_after_put(db, row, room, false);
}

/// A label is read back as it was given, whatever the file had before. The file
/// counts as labelled by that user, and is otherwise as before. No other file
/// and no other label moves.
pub proof fn law_label_is_read_back(db: DbView, id: i64, label: Label, now: Seq<char>)
    requires
        db.wf(),
        db.file(id) is Some,
    ensures
        ({
            let after = db.apply_all(label_rows(db, id, label, now));
            &&& after.wf()
            &&& after.annotation(id) == Some(label_row(id, label, now))
            &&& after.file(id) == Some(
                FileRow {
                    status: done(),
                    annotated_by: Some(label.user@),
                    updated_at: Some(now),
                    ..db.files[id]
                },
            )
            &&& forall|k: i64| k != id ==> #[trigger] after.file(k) == db.file(k)
            &&& forall|k: i64| k != id ==> #[trigger] after.annotation(k) == db.annotation(k)
            &&& after.rooms == db.rooms
            &&& after.last_id == db.last_id
        }),
{
    lemma_label_rows(db, id, label, now);
}

proof fn lemma_label_rows(db: DbView, id: i64, label: Label, now: Seq<char>)
    ensures
        label_rows(db, id, label, now).len() == 2,
        db.apply_all(label_rows(db, id, label, now)) == db.apply(
            label_rows(db, id, label, now)[0],
        ).apply(label_rows(db, id, label, now)[1]),
{
    let rows = label_rows(db, id, label, now);
    assert(rows.drop_last() =~= seq![rows[0]]);
    assert(seq![rows[0]].drop_last() =~= seq![]);
    assert(seq![rows[0]].last() == rows[0]);
    assert(db.apply_all(seq![]) == db);
    assert(db.apply_all(seq![rows[0]]) == db.apply(rows[0]));
}

/// The first label of a file adds one to the labelled files of its room; a
/// further label adds none. The number of files stays, and so does the progress
/// of every other room.
pub proof fn law_label_counts_once(
    db: DbView,
    id: i64,
    label: Label,
    now: Seq<char>,
    other: Seq<char>,
)
    requires
        db.wf(),
        db.file(id) is Some,
    ensures
        ({
            let after = db.apply_all(label_rows(db, id, label, now));
            let room = db.files[id].room_id;
            let new = if db.files[id].status == done() {
                0nat
            } else {
                1
            };
            &&& after.progress(Some(room)).0 == db.progress(Some(room)).0 + new
            &&& after.progress(Some(room)).1 == db.progress(Some(room)).1
            &&& after.progress(None).0 == db.progress(None).0 + new
            &&& after.progress(None).1 == db.progress(None).1
            &&& other != room ==> after.progress(Some(other)) == db.progress(Some(other))
        }),
{
    lemma_label_rows(db, id, label, now);
    let rows = label_rows(db, id, label, now);
    let mid = db.apply(rows[0]);
    assert(mid.files == db.files);
    let file = rows[1]->PutFile_0;
    let room = db.files[id].room_id;
    lemma_count_after_put(mid, file, Some(room), true);
    lemma_count_after_put(mid, file, Some(room), false);
    lemma_count_after_put(mid, file, None, true);
    lemma_count_after_put(mid, file, None, false);
    lemma_count_after_put(mid, file, Some(other), true);
    lemma_count_after_put(mid, file, Some(other), false);
}

/// Files that are registered together are all there afterwards, in their order
/// and under fresh numbers: in the room, owned by whoever registered them, not
/// uploaded, not labelled. No earlier file moves. The room counts them all.
pub proof fn law_registration_is_read_back(
    db: DbView,
    room: Seq<char>,
    owner: Seq<char>,
    files: Seq<(Seq<char>, i64)>,
    other: Seq<char>,
)
    requires
        db.wf(),
        files.len() <= i64::MAX - db.last_id,
    ensures
        ({
            let after = db.apply_all(registered_rows(db.last_id, room, owner, files));
            &&& after.wf()
            &&& after.last_id == db.last_id + files.len()
            &&& forall|k: int|
                #![trigger files[k]]
                0 <= k < files.len() ==> ({
                    let id = (db.last_id + 1 + k) as i64;
                    &&& db.file(id) is None
                    &&& after.file(id) == Some(
                        FileRow {
                            id,
                            room_id: room,
                            name: files[k].0,
                            path: ""@,
                            size: files[k].1,
                            uploaded: false,
                            owner: Some(owner),
                            duration: None,
                            status: pending(),
                            annotated_by: None,
                            updated_at: None,
                        },
                    )
                })
            &&& forall|id: i64| id <= db.last_id ==> #[trigger] after.file(id) == db.file(id)
            &&& after.rooms == db.rooms
            &&& after.annotations == db.annotations
            &&& after.progress(Some(room)).0 == db.progress(Some(room)).0
            &&& after.progress(Some(room)).1 == db.progress(Some(room)).1 + files.len()
            &&& other != room ==> after.progress(Some(other)) == db.progress(Some(other))
        }),
    decreases files.len(),
{
    reveal_strlit("");
    let rows = registered_rows(db.last_id, room, owner, files);
    if files.len() == 0 {
        assert(db.apply_all(rows) == db);
    } else {
        let fewer = files.drop_last();
        let n = fewer.len() as int;
        law_registration_is_read_back(db, room, owner, fewer, other);
        assert(rows.drop_last() =~= registered_rows(db.last_id, room, owner, fewer));
        let mid = db.apply_all(rows.drop_last());
        let after = mid.apply(rows.last());
        assert(rows.last() == ChangeView::PutFile(
            registered_row(db.last_id, room, owner, files, n),
        ));
        law_new_file_counts_once(
            mid,
            room,
            owner,
            files[n].0,
            files[n].1,
            ""@,
            None,
            other,
        );
        assert(db.apply_all(rows) == after);
        assert forall|k: int| #![trigger files[k]] 0 <= k < files.len() implies ({
            let id = (db.last_id + 1 + k) as i64;
            &&& db.file(id) is None
            &&& after.file(id) == Some(
                FileRow {
                    id,
                    room_id: room,
                    name: files[k].0,
                    path: ""@,
                    size: files[k].1,
                    uploaded: false,
                    owner: Some(owner),
                    duration: None,
                    status: pending(),
                    annotated_by: None,
                    updated_at: None,
                },
            )
        }) by {
            if k < n {
                assert(fewer[k] == files[k]);
            }
        }
        assert forall|id: i64| id <= db.last_id implies #[trigger] after.file(id) == db.file(id) by {
            assert(mid.file(id) == db.file(id));
        }
    }
}

/// Whether every file has a room, and every file with bytes at a path counts as
/// uploaded.
pub open spec fn is_settled(db: DbView) -> bool {
    forall|id: i64| #[trigger]
        db.files.contains_key(id) ==> db.files[id].room_id.len() > 0 && (db.files[id].path.len() > 0
            ==> db.files[id].uploaded)
}

/// Migration leaves no file without a room, gives the files that it moves a
/// room that is there, and counts every file with bytes as uploaded.
pub proof fn law_migration_settles(db: DbView, now: Seq<char>)
    requires
        db.wf(),
    ensures
        db.migrated(now).wf(),
        is_settled(db.migrated(now)),
        db.migrated(now).files.dom() == db.files.dom(),
        db.has_stray() ==> db.migrated(now).rooms.contains_key(legacy()),
        forall|id: i64| #[trigger]
            db.files.contains_key(id) ==> ({
                let f = db.migrated(now).files[id];
                &&& db.files[id].room_id.len() == 0 ==> f.room_id == legacy()
                &&& db.files[id].room_id.len() > 0 ==> f.room_id == db.files[id].room_id
                &&& f.path.len() > 0 ==> f.uploaded
                &&& f == (FileRow { room_id: f.room_id, uploaded: f.uploaded, ..db.files[id] })
            }),
        forall|room: Seq<char>| #[trigger]
            db.rooms.contains_key(room) ==> db.migrated(now).rooms.contains_key(room)
                && db.migrated(now).rooms[room] == db.rooms[room],
        db.migrated(now).annotations == db.annotations,
{
    reveal_strlit("legacy");
    let after = db.migrated(now);
    assert(after.files.dom() =~= db.files.dom());
    assert forall|id: i64| #[trigger] after.files.contains_key(id) implies after.files[id].id == id
        && id <= after.last_id && after.files[id].room_id.len() > 0 && (after.files[id].path.len()
        > 0 ==> after.files[id].uploaded) by {
        assert(db.files.contains_key(id));
    }
}

/// Settled records need no migration.
pub proof fn law_settled_records_need_no_migration(db: DbView, now: Seq<char>)
    requires
        db.wf(),
        is_settled(db),
    ensures
        db.migrated(now) == db,
{
    assert(!db.has_stray());
    assert forall|id: i64| #[trigger] db.files.contains_key(id) implies migrated_file(db.files[id])
        == db.files[id] by {}
    assert(db.migrated(now).files =~= db.files);
}

/// Records that have been migrated need no migration.
pub proof fn law_migration_is_done_once(db: DbView, now: Seq<char>, later: Seq<char>)
    requires
        db.wf(),
    ensures
        db.migrated(now).migrated(later) == db.migrated(now),
{
    law_migration_settles(db, now);
    law_settled_records_need_no_migration(db.migrated(now), later);
}

/// Whether two rows of a file differ in its label at most.
pub open spec fn is_relabelled(before: FileRow, after: FileRow) -> bool {
    after == (FileRow {
        status: after.status,
        annotated_by: after.annotated_by,
        updated_at: after.updated_at,
        ..before
    })
}

/// Whether a row is one that the server writes on these records: a room under a
/// free name, a file under a fresh number and in a room, a file that has been
/// labelled, a file whose bytes have come, or the label of a file. The bytes of
/// a file come a second time where two uploads of it overlap; `again` says
/// whether that is admitted.
pub open spec fn is_planned(db: DbView, change: ChangeView, again: bool) -> bool {
    match change {
        ChangeView::PutRoom(room) => !db.rooms.contains_key(room.id),
        ChangeView::PutFile(file) => if db.files.contains_key(file.id) {
            let before = db.files[file.id];
            is_relabelled(before, file) || ((again || !before.uploaded) && file == (FileRow {
                uploaded: true,
                path: file.path,
                ..before
            }))
        } else {
            file.id > db.last_id && file.room_id.len() > 0 && (file.path.len() > 0
                ==> file.uploaded)
        },
        ChangeView::PutAnnotation(annotation) => db.files.contains_key(annotation.file_id),
    }
}

/// Whether the server writes these rows one after the other.
pub open spec fn are_planned(db: DbView, changes: Seq<ChangeView>, again: bool) -> bool
    decreases changes.len(),
{
    changes.len() == 0 || (are_planned(db, changes.drop_last(), again) && is_planned(
        db.apply_all(changes.drop_last()),
        changes.last(),
        again,
    ))
}

/// What is planned stays planned when only the first rows could be stored.
pub proof fn law_parts_of_plans_are_planned(
    db: DbView,
    changes: Seq<ChangeView>,
    stored: int,
    again: bool,
)
    requires
        are_planned(db, changes, again),
        0 <= stored <= changes.len(),
    ensures
        are_planned(db, changes.take(stored), again),
    decreases changes.len(),
{
    if stored < changes.len() {
        law_parts_of_plans_are_planned(db, changes.drop_last(), stored, again);
        assert(changes.drop_last().take(stored) =~= changes.take(stored));
    } else {
        assert(changes.take(stored) =~= changes);
    }
}

/// What the server does one after the other is planned as a whole.
pub proof fn law_plans_follow_each_other(
    db: DbView,
    first: Seq<ChangeView>,
    second: Seq<ChangeView>,
    again: bool,
)
    requires
        are_planned(db, first, again),
        are_planned(db.apply_all(first), second, again),
    ensures
        are_planned(db, first + second, again),
        db.apply_all(first + second) == db.apply_all(first).apply_all(second),
    decreases second.len(),
{
    if second.len() == 0 {
        assert(first + second =~= first);
    } else {
        law_plans_follow_each_other(db, first, second.drop_last(), again);
        assert((first + second).drop_last() =~= first + second.drop_last());
    }
}

/// The server writes nothing that is not planned: a new room, a registration in
/// a room with a name, a label, a new status, and an upload.
pub proof fn law_requests_are_planned(
    db: DbView,
    room: RoomRow,
    name: Seq<char>,
    owner: Seq<char>,
    files: Seq<(Seq<char>, i64)>,
    id: i64,
    label: Label,
    path: Seq<char>,
    status: Seq<char>,
    annotated_by: Option<Seq<char>>,
    now: Seq<char>,
    again: bool,
)
    requires
        db.wf(),
    ensures
        !db.rooms.contains_key(room.id) ==> are_planned(
            db,
            seq![ChangeView::PutRoom(room)],
            again,
        ),
        name.len() > 0 ==> are_planned(
            db,
            registered_rows(db.last_id, name, owner, files),
            again,
        ),
        db.file(id) is Some ==> are_planned(db, label_rows(db, id, label, now), again),
        db.file(id) is Some ==> are_planned(
            db,
            seq![ChangeView::PutFile(db.file_with_status(id, status, annotated_by, now)->0)],
            again,
        ),
        db.file(id) is Some && (again || !db.files[id].uploaded) ==> are_planned(
            db,
            seq![ChangeView::PutFile(db.uploaded_file(id, path)->0)],
            again,
        ),
{
    lemma_one_planned(db, ChangeView::PutRoom(room), again);
    lemma_one_planned(
        db,
        ChangeView::PutFile(db.file_with_status(id, status, annotated_by, now)->0),
        again,
    );
    lemma_one_planned(db, ChangeView::PutFile(db.uploaded_file(id, path)->0), again);
    if name.len() > 0 {
        lemma_registration_is_planned(
            db,
            name,
            owner,
            files,
            numbered(db.last_id, files.len()) as int,
            again,
        );
        let rows = registered_rows(db.last_id, name, owner, files);
        assert(rows.take(rows.len() as int) =~= rows);
    }
    if db.file(id) is Some {
        let rows = label_rows(db, id, label, now);
        lemma_label_rows(db, id, label, now);
        lemma_one_planned(db, rows[0], again);
        assert(rows.drop_last() =~= seq![rows[0]]);
        assert(seq![rows[0]].drop_last() =~= seq![]);
        assert(db.apply_all(seq![]) == db);
        assert(db.apply_all(seq![rows[0]]) == db.apply(rows[0]));
    }
}

/// A new file in a room with a name is planned.
pub proof fn law_new_files_are_planned(
    db: DbView,
    room: Seq<char>,
    owner: Seq<char>,
    name: Seq<char>,
    size: i64,
    path: Seq<char>,
    duration: Option<u64>,
    again: bool,
)
    requires
        db.wf(),
        db.last_id < i64::MAX,
        room.len() > 0,
    ensures
        are_planned(
            db,
            seq![
                ChangeView::PutFile(
                    new_file_row(
                        (db.last_id + 1) as i64,
                        room,
                        owner,
                        name,
                        size,
                        path,
                        duration,
                    ),
                ),
            ],
            again,
        ),
{
    lemma_one_planned(
        db,
        ChangeView::PutFile(
            new_file_row((db.last_id + 1) as i64, room, owner, name, size, path, duration),
        ),
        again,
    );
}

proof fn lemma_one_planned(db: DbView, change: ChangeView, again: bool)
    ensures
        are_planned(db, seq![change], again) == is_planned(db, change, again),
        db.apply_all(seq![change]) == db.apply(change),
{
    assert(seq![change].drop_last() =~= seq![]);
    assert(db.apply_all(seq![]) == db);
    assert(are_planned(db, seq![], again));
}

proof fn lemma_registration_is_planned(
    db: DbView,
    room: Seq<char>,
    owner: Seq<char>,
    files: Seq<(Seq<char>, i64)>,
    n: int,
    again: bool,
)
    requires
        db.wf(),
        room.len() > 0,
        0 <= n <= numbered(db.last_id, files.len()),
    ensures
        are_planned(db, registered_rows(db.last_id, room, owner, files).take(n), again),
        db.apply_all(registered_rows(db.last_id, room, owner, files).take(n)).last_id == db.last_id
            + n,
        db.apply_all(registered_rows(db.last_id, room, owner, files).take(n)).wf(),
    decreases n,
{
    reveal_strlit("");
    let rows = registered_rows(db.last_id, room, owner, files);
    if n > 0 {
        lemma_registration_is_planned(db, room, owner, files, n - 1, again);
        assert(rows.take(n).drop_last() =~= rows.take(n - 1));
        assert(rows.take(n).last() == rows[n - 1]);
    }
}

/// Records that need no migration never come to need one by what the server
/// does, overlapping uploads among it.
pub proof fn law_settled_records_stay_settled(db: DbView, changes: Seq<ChangeView>)
    requires
        db.wf(),
        is_settled(db),
        are_planned(db, changes, true),
    ensures
        is_settled(db.apply_all(changes)),
    decreases changes.len(),
{
    if changes.len() > 0 {
        let before = db.apply_all(changes.drop_last());
        law_settled_records_stay_settled(db, changes.drop_last());
        law_changes_keep_invariant(db, changes.drop_last());
        let after = before.apply(changes.last());
        assert forall|id: i64| #[trigger] after.files.contains_key(id) implies {
            after.files[id].room_id.len() > 0 && (after.files[id].path.len() > 0
                ==> after.files[id].uploaded)
        } by {
            if before.files.contains_key(id) {
                assert(before.files[id].room_id.len() > 0);
            }
        }
    }
}

/// Once the bytes of a file have come, the file keeps its place, its name, its
/// room and its owner through whatever the server does later, but for an upload
/// that was let in before and overlaps.
pub proof fn law_uploaded_files_stay(db: DbView, changes: Seq<ChangeView>, id: i64)
    requires
        db.wf(),
        are_planned(db, changes, false),
        db.file(id) is Some,
        db.files[id].uploaded,
    ensures
        ({
            let after = db.apply_all(changes);
            &&& after.file(id) is Some
            &&& is_relabelled(db.files[id], after.files[id])
            &&& after.files[id].uploaded
            &&& after.files[id].path == db.files[id].path
            &&& after.files[id].name == db.files[id].name
            &&& after.files[id].room_id == db.files[id].room_id
            &&& after.files[id].owner == db.files[id].owner
        }),
    decreases changes.len(),
{
    if changes.len() > 0 {
        law_uploaded_files_stay(db, changes.drop_last(), id);
    }
}

/// A file that has been uploaded is let in no more, whatever the server does in
/// between, overlapping uploads among it, and whoever tries. Its name, its room
/// and its owner stay.
pub proof fn law_files_are_let_in_once(
    db: DbView,
    changes: Seq<ChangeView>,
    room: Seq<char>,
    id: i64,
    user: Seq<char>,
)
    requires
        db.wf(),
        are_planned(db, changes, true),
        db.file(id) is Some,
        db.files[id].uploaded,
    ensures
        ({
            let after = db.apply_all(changes);
            &&& after.file(id) is Some
            &&& after.files[id].uploaded
            &&& after.files[id].name == db.files[id].name
            &&& after.files[id].room_id == db.files[id].room_id
            &&& after.files[id].owner == db.files[id].owner
            &&& upload_refusal(after, room, id, user) is Some
            &&& db.files[id].room_id == room && db.files[id].owner == Some(user)
                ==> upload_refusal(after, room, id, user) == Some(Status::Conflict)
        }),
    decreases changes.len(),
{
    if changes.len() > 0 {
        law_files_are_let_in_once(db, changes.drop_last(), room, id, user);
    }
}

/// Whether a row is one of the records.
pub open spec fn is_row(db: DbView, row: ChangeView) -> bool {
    match row {
        ChangeView::PutRoom(room) => db.rooms.contains_key(room.id) && db.rooms[room.id] == room,
        ChangeView::PutFile(file) => db.files.contains_key(file.id) && db.files[file.id] == file,
        ChangeView::PutAnnotation(a) => db.annotations.contains_key(a.file_id)
            && db.annotations[a.file_id] == a,
    }
}

/// Whether `rows` are the records, row by row, in some order.
pub open spec fn is_dump(db: DbView, rows: Seq<ChangeView>) -> bool {
    &&& forall|i: int| #![trigger rows[i]] 0 <= i < rows.len() ==> is_row(db, rows[i])
    &&& forall|id: Seq<char>| #[trigger]
        db.rooms.contains_key(id) ==> rows.contains(ChangeView::PutRoom(db.rooms[id]))
    &&& forall|id: i64| #[trigger]
        db.files.contains_key(id) ==> rows.contains(ChangeView::PutFile(db.files[id]))
    &&& forall|id: i64| #[trigger]
        db.annotations.contains_key(id) ==> rows.contains(
            ChangeView::PutAnnotation(db.annotations[id]),
        )
}

/// What has been read of a dump so far.
proof fn lemma_partial_dump(db: DbView, rows: Seq<ChangeView>)
    requires
        db.wf(),
        forall|i: int| #![trigger rows[i]] 0 <= i < rows.len() ==> is_row(db, rows[i]),
    ensures
        ({
            let read = (DbView { last_id: db.last_id, ..DbView::empty() }).apply_all(rows);
            &&& read.last_id == db.last_id
            &&& forall|id: Seq<char>| #[trigger]
                read.rooms.contains_key(id) ==> db.rooms.contains_key(id) && read.rooms[id]
                    == db.rooms[id]
            &&& forall|id: i64| #[trigger]
                read.files.contains_key(id) ==> db.files.contains_key(id) && read.files[id]
                    == db.files[id]
            &&& forall|id: i64| #[trigger]
                read.annotations.contains_key(id) ==> db.annotations.contains_key(id)
                    && read.annotations[id] == db.annotations[id]
            &&& forall|i: int| #![trigger rows[i]] 0 <= i < rows.len() ==> is_row(read, rows[i])
        }),
    decreases rows.len(),
{
    if rows.len() > 0 {
        let fewer = rows.drop_last();
        assert forall|i: int| #![trigger fewer[i]] 0 <= i < fewer.len() implies is_row(
            db,
            fewer[i],
        ) by {
            assert(rows[i] == fewer[i]);
        }
        lemma_partial_dump(db, fewer);
        assert(is_row(db, rows[rows.len() - 1]));
        let before = (DbView { last_id: db.last_id, ..DbView::empty() }).apply_all(fewer);
        let read = (DbView { last_id: db.last_id, ..DbView::empty() }).apply_all(rows);
        assert(read == before.apply(rows.last()));
        assert forall|i: int| #![trigger rows[i]] 0 <= i < rows.len() implies is_row(
            read,
            rows[i],
        ) by {
            assert(is_row(db, rows[i]));
            if i < fewer.len() {
                assert(fewer[i] == rows[i]);
                assert(is_row(before, fewer[i]));
            }
        }
    }
}

/// Records that were stored row by row are the same after they have been opened
/// again, in whatever order the rows come.
pub proof fn law_opening_restores(db: DbView, rows: Seq<ChangeView>)
    requires
        db.wf(),
        is_dump(db, rows),
    ensures
        (DbView { last_id: db.last_id, ..DbView::empty() }).apply_all(rows) == db,
{
    lemma_partial_dump(db, rows);
    let read = (DbView { last_id: db.last_id, ..DbView::empty() }).apply_all(rows);
    assert forall|id: Seq<char>| db.rooms.contains_key(id) implies #[trigger] read.rooms.contains_key(
        id,
    ) by {
        let row = ChangeView::PutRoom(db.rooms[id]);
        assert(rows.contains(row));
        let i = choose|i: int| 0 <= i < rows.len() && rows[i] == row;
        assert(is_row(read, rows[i]));
    }
    assert forall|id: i64| db.files.contains_key(id) implies #[trigger] read.files.contains_key(
        id,
    ) by {
        let row = ChangeView::PutFile(db.files[id]);
        assert(rows.contains(row));
        let i = choose|i: int| 0 <= i < rows.len() && rows[i] == row;
        assert(is_row(read, rows[i]));
    }
    assert forall|id: i64| db.annotations.contains_key(id) implies #[trigger]
        read.annotations.contains_key(id) by {
        let row = ChangeView::PutAnnotation(db.annotations[id]);
        assert(rows.contains(row));
        let i = choose|i: int| 0 <= i < rows.len() && rows[i] == row;
        assert(is_row(read, rows[i]));
    }
    assert(read.rooms =~= db.rooms);
    assert(read.files =~= db.files);
    assert(read.annotations =~= db.annotations);
}

/// Nothing is lost between two runs, and opening changes nothing: after
/// migration and whatever the server did since, overlapping uploads among it,
/// the records that are read row by row and migrated again are those of the end
/// of the first run.
pub proof fn law_reopening_changes_nothing(
    db: DbView,
    changes: Seq<ChangeView>,
    rows: Seq<ChangeView>,
    now: Seq<char>,
    later: Seq<char>,
)
    requires
        db.wf(),
        are_planned(db.migrated(now), changes, true),
        is_dump(db.migrated(now).apply_all(changes), rows),
    ensures
        ({
            let last = db.migrated(now).apply_all(changes);
            (DbView { last_id: last.last_id, ..DbView::empty() }).apply_all(rows).migrated(later)
                == last
        }),
{
    law_migration_settles(db, now);
    let first = db.migrated(now);
    law_changes_keep_invariant(first, changes);
    law_settled_records_stay_settled(first, changes);
    law_opening_restores(first.apply_all(changes), rows);
    law_settled_records_need_no_migration(first.apply_all(changes), later);
}

} // verus!
