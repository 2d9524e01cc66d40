//! What the records do: each call, in terms of the rows before and after.
use crate::columns::{lacking, later_columns, missing_columns, Column};
use crate::db::{counted, Db, DbError, DbView};
use crate::laws::records::{law_nothing_is_removed, law_settled_records_need_no_migration};
use crate::laws::words::{done_in, files_in, is_annotation, is_file, is_room, says};
use crate::record::{change_views, record_from_row, Annotation, Change, ChangeView, FileRecord};
use vstd::prelude::*;

verus! {

/// New records are empty.
pub proof fn law_new_records_are_empty(db: Db)
    requires
        call_ensures(Db::new, (), db),
    ensures
        db.wf(),
        forall|id: Seq<char>| !#[trigger] db@.rooms.contains_key(id),
        forall|id: i64| !#[trigger] db@.files.contains_key(id),
        forall|id: i64| !#[trigger] db@.annotations.contains_key(id),
        db@.last_id == 0,
{
}

/// Whether nothing but the rows under one key differs.
pub open spec fn is_put(before: DbView, change: Change, after: DbView) -> bool {
    match change {
        Change::PutRoom(room) => {
            &&& after.rooms.contains_key(room.id@)
            &&& is_room(room, after.rooms[room.id@])
            &&& forall|k: Seq<char>|
                k != room.id@ ==> #[trigger] after.rooms.contains_key(k)
                    == before.rooms.contains_key(k) && (before.rooms.contains_key(k)
                    ==> after.rooms[k] == before.rooms[k])
            &&& after.files == before.files
            &&& after.annotations == before.annotations
            &&& after.last_id == before.last_id
        },
        Change::PutFile(file) => {
            &&& after.files.contains_key(file.id)
            &&& is_file(file, after.files[file.id])
            &&& forall|k: i64|
                k != file.id ==> #[trigger] after.files.contains_key(k)
                    == before.files.contains_key(k) && (before.files.contains_key(k)
                    ==> after.files[k] == before.files[k])
            &&& after.rooms == before.rooms
            &&& after.annotations == before.annotations
            &&& after.last_id == before.last_id || after.last_id == file.id
            &&& after.last_id >= before.last_id && after.last_id >= file.id
        },
        Change::PutAnnotation(annotation) => {
            &&& after.annotations.contains_key(annotation.file_id)
            &&& is_annotation(annotation, after.annotations[annotation.file_id])
            &&& forall|k: i64|
                k != annotation.file_id ==> #[trigger] after.annotations.contains_key(k)
                    == before.annotations.contains_key(k) && (before.annotations.contains_key(k)
                    ==> after.annotations[k] == before.annotations[k])
            &&& after.rooms == before.rooms
            &&& after.files == before.files
            &&& after.last_id == before.last_id
        },
    }
}

/// A row that is committed stands under its key, member by member, and nothing
/// else moves.
pub proof fn law_commit_puts_the_row(db: &mut Db, change: Change)
    requires
        old(db).wf(),
        call_ensures(Db::commit, (db, change), ()),
    ensures
        final(db).wf(),
        is_put(old(db)@, change, final(db)@),
{
}

/// Committing no row changes nothing, and committing one row more is committing
/// it after the others.
pub proof fn law_commits_add_up(
    none: &mut Db,
    some: &mut Db,
    all: &mut Db,
    last: &mut Db,
    changes: &Vec<Change>,
    n: usize,
    more: usize,
)
    requires
        old(none).wf(),
        call_ensures(Db::commit_first, (none, changes, 0), ()),
        old(some).wf(),
        n < changes@.len(),
        more == n + 1,
        call_ensures(Db::commit_first, (some, changes, n), ()),
        *old(all) == *old(some),
        call_ensures(Db::commit_first, (all, changes, more), ()),
        *old(last) == *final(some),
        call_ensures(Db::commit, (last, changes@[n as int]), ()),
    ensures
        final(none)@ == old(none)@,
        final(all)@ == final(last)@,
{
    let views = change_views(changes@);
    assert(views.take(0).len() == 0);
    assert(views.take(n + 1).drop_last() =~= views.take(n as int));
    assert(views.take(n + 1).last() == changes@[n as int]@);
}

/// Records that are opened have the rows that were stored: none where there are
/// none, and one more where there is one more.
pub proof fn law_opening_reads_every_row(
    rows: &Vec<Change>,
    fewer: &Vec<Change>,
    last_id: i64,
    opened: Db,
    most: Db,
)
    requires
        call_ensures(Db::open, (rows, last_id), opened),
        call_ensures(Db::open, (fewer, last_id), most),
        rows@.len() > 0 ==> fewer@ == rows@.drop_last(),
    ensures
        opened.wf(),
        opened@.last_id >= last_id && opened@.last_id >= 0,
        rows@.len() == 0 ==> {
            &&& forall|id: Seq<char>| !#[trigger] opened@.rooms.contains_key(id)
            &&& forall|id: i64| !#[trigger] opened@.files.contains_key(id)
            &&& forall|id: i64| !#[trigger] opened@.annotations.contains_key(id)
            &&& opened@.last_id == if last_id > 0 {
                last_id
            } else {
                0
            }
        },
        rows@.len() > 0 ==> is_put(most@, rows@.last(), opened@),
{
    let start = DbView {
        last_id: if last_id > 0 {
            last_id
        } else {
            0
        },
        ..DbView::empty()
    };
    law_nothing_is_removed(start, change_views(rows@));
    if rows@.len() > 0 {
        assert(change_views(rows@).drop_last() =~= change_views(fewer@));
        assert(change_views(rows@).last() == rows@.last()@);
    }
}

/// A file that is read says, member by member, what its row says, and every
/// file is found.
pub proof fn law_files_are_read(db: Db, id: i64, found: Option<FileRecord>, room: &str, here: bool)
    requires
        db.wf(),
        call_ensures(Db::get_file, (&db, id), found),
        call_ensures(Db::file_in_room, (&db, id, room), here),
    ensures
        match found {
            Some(file) => db@.files.contains_key(id) && file.id == id && is_file(
                file,
                db@.files[id],
            ),
            None => !db@.files.contains_key(id),
        },
        here == (db@.files.contains_key(id) && db@.files[id].room_id == room@),
{
}

/// An annotation that is read says, member by member, what its row says, and
/// every annotation is found.
pub proof fn law_annotations_are_read(db: Db, id: i64, found: Option<Annotation>)
    requires
        db.wf(),
        call_ensures(Db::get_annotation, (&db, id), found),
    ensures
        match found {
            Some(a) => db@.annotations.contains_key(id) && a.file_id == id && is_annotation(
                a,
                db@.annotations[id],
            ),
            None => !db@.annotations.contains_key(id),
        },
{
}

/// A room is there exactly when it has a row. One that is not can be made, and
/// its row names it, its owner and the time.
pub proof fn law_rooms_are_made(
    db: Db,
    id: &str,
    owner: &str,
    now: &str,
    there: bool,
    made: Result<Change, DbError>,
)
    requires
        db.wf(),
        call_ensures(Db::room_exists, (&db, id), there),
        call_ensures(Db::create_room, (&db, id, owner, now), made),
    ensures
        there == db@.rooms.contains_key(id@),
        match made {
            Ok(Change::PutRoom(room)) => !there && room.id@ == id@ && room.name@.len() == 0
                && room.owner@ == owner@ && says(room.created_at, Some(now@)),
            Ok(_) => false,
            Err(e) => there && e == DbError::RoomExists,
        },
{
    reveal_strlit("");
}

/// A file that is inserted gets the number behind the last one and says what was
/// given. It is uploaded exactly when it comes with a path, and nobody has
/// labelled it. Only when the numbers have run out there is none.
pub proof fn law_files_are_inserted(
    db: Db,
    room: &str,
    owner: &str,
    name: &str,
    size: i64,
    path: &str,
    duration: Option<u64>,
    last: i64,
    made: Result<Change, DbError>,
)
    requires
        db.wf(),
        call_ensures(Db::last_id, (&db,), last),
        call_ensures(Db::insert_file, (&db, room, owner, name, size, path, duration), made),
    ensures
        last == db@.last_id,
        match made {
            Ok(Change::PutFile(file)) => {
                &&& last < i64::MAX
                &&& file.id == last + 1
                &&& !db@.files.contains_key(file.id)
                &&& file.room_id@ == room@
                &&& says(file.owner, Some(owner@))
                &&& file.name@ == name@
                &&& file.size == size
                &&& file.path@ == path@
                &&& file.uploaded == (path@.len() > 0)
                &&& file.status@ == "pending"@
                &&& file.annotated_by is None
                &&& file.updated_at is None
            },
            Ok(_) => false,
            Err(e) => last == i64::MAX && e == DbError::Full,
        },
{
}

/// A duration is kept as it is, but that what is not a number is none, and that
/// a zero has no sign.
pub proof fn law_durations_are_kept(
    db: Db,
    room: &str,
    owner: &str,
    name: &str,
    size: i64,
    path: &str,
    duration: Option<u64>,
    made: Result<Change, DbError>,
)
    requires
        db.wf(),
        call_ensures(Db::insert_file, (&db, room, owner, name, size, path, duration), made),
    ensures
        made matches Ok(Change::PutFile(file)) ==> match duration {
            None => file.duration is None,
            Some(bits) => {
                let size = bits as int % 0x8000_0000_0000_0000;
                if size > 0x7ff0_0000_0000_0000 {
                    file.duration is None
                } else if size == 0 {
                    file.duration == Some(0u64)
                } else {
                    file.duration == Some(bits)
                }
            },
        },
{
}

/// The list of a room has every file of the room and no other, each as its row
/// says, in the order of their numbers.
pub proof fn law_rooms_are_listed(db: Db, room: &str, files: Vec<FileRecord>, id: i64)
    requires
        db.wf(),
        call_ensures(Db::list_files_in_room, (&db, room), files),
    ensures
        forall|i: int, j: int| 0 <= i < j < files@.len() ==> files@[i].id < files@[j].id,
        forall|i: int|
            #![trigger files@[i]]
            0 <= i < files@.len() ==> db@.files.contains_key(files@[i].id) && is_file(
                files@[i],
                db@.files[files@[i].id],
            ) && files@[i].room_id@ == room@,
        db@.files.contains_key(id) && db@.files[id].room_id == room@ ==> exists|i: int|
            0 <= i < files@.len() && (#[trigger] files@[i]).id == id,
{
    let rows = files@.map_values(|f: FileRecord| f@);
    assert forall|i: int, j: int| 0 <= i < j < files@.len() implies files@[i].id < files@[j].id by {
        assert(rows[i].id < rows[j].id);
    }
    assert forall|i: int| #![trigger files@[i]] 0 <= i < files@.len() implies {
        db@.files.contains_key(files@[i].id) && is_file(files@[i], db@.files[files@[i].id])
            && files@[i].room_id@ == room@
    } by {
        assert(rows[i] == files@[i]@);
    }
    if db@.files.contains_key(id) && db@.files[id].room_id == room@ {
        let i = choose|i: int| 0 <= i < rows.len() && #[trigger] rows[i] == db@.files[id];
        assert(rows[i] == files@[i]@);
        assert(files@[i].id == id);
    }
}

/// Recording an upload of a file that is there writes the row of the file with
/// the path and as uploaded; the other members stay. For a file that is not
/// there nothing is written.
pub proof fn law_uploads_are_marked(db: Db, id: i64, path: &str, made: Option<Change>)
    requires
        db.wf(),
        call_ensures(Db::mark_uploaded, (&db, id, path), made),
    ensures
        match made {
            Some(Change::PutFile(file)) => {
                let row = db@.files[id];
                &&& db@.files.contains_key(id)
                &&& file.uploaded
                &&& file.path@ == path@
                &&& file.id == id
                &&& file.room_id@ == row.room_id
                &&& file.name@ == row.name
                &&& file.size == row.size
                &&& says(file.owner, row.owner)
                &&& file.duration == row.duration
                &&& file.status@ == row.status
                &&& says(file.annotated_by, row.annotated_by)
                &&& says(file.updated_at, row.updated_at)
            },
            Some(_) => false,
            None => !db@.files.contains_key(id),
        },
{
}

/// A new status of a file that is there writes the row of the file with the
/// status, who gave it and the time; the other members stay. For a file that is
/// not there nothing is written.
pub proof fn law_statuses_are_set(
    db: Db,
    id: i64,
    status: &str,
    annotated_by: Option<&str>,
    now: &str,
    made: Option<Change>,
)
    requires
        db.wf(),
        call_ensures(Db::set_file_status, (&db, id, status, annotated_by, now), made),
    ensures
        match made {
            Some(Change::PutFile(file)) => {
                let row = db@.files[id];
                &&& db@.files.contains_key(id)
                &&& file.status@ == status@
                &&& match annotated_by {
                    Some(user) => says(file.annotated_by, Some(user@)),
                    None => file.annotated_by is None,
                }
                &&& says(file.updated_at, Some(now@))
                &&& file.id == id
                &&& file.room_id@ == row.room_id
                &&& file.name@ == row.name
                &&& file.path@ == row.path
                &&& file.size == row.size
                &&& file.uploaded == row.uploaded
                &&& says(file.owner, row.owner)
                &&& file.duration == row.duration
            },
            Some(_) => false,
            None => !db@.files.contains_key(id),
        },
{
}

/// An annotation of a file that is there writes what was given, the user and
/// the time. There is none of a file that is not there.
pub proof fn law_annotations_are_put(
    db: Db,
    given: Annotation,
    user: &str,
    now: &str,
    made: Result<Change, DbError>,
)
    requires
        db.wf(),
        call_ensures(Db::upsert_annotation, (&db, &given, user, now), made),
    ensures
        match made {
            Ok(Change::PutAnnotation(a)) => {
                &&& db@.files.contains_key(given.file_id)
                &&& a.file_id == given.file_id
                &&& a.is_check == given.is_check
                &&& a.lab@ == given.lab@
                &&& a.lab_without_tone@ == given.lab_without_tone@
                &&& a.raw_text@ == given.raw_text@
                &&& says(a.annotated_by, Some(user@))
                &&& says(a.updated_at, Some(now@))
            },
            Ok(_) => false,
            Err(e) => !db@.files.contains_key(given.file_id) && e == DbError::NoSuchFile,
        },
{
}

/// What counts is what there is.
pub(crate) proof fn lemma_counts(db: DbView, room: Seq<char>)
    ensures
        db.progress(Some(room)) == (done_in(db, room), files_in(db, room)),
        db.progress(None) == (
            db.files.dom().filter(|id: i64| db.files[id].status == "done"@).len(),
            db.files.dom().len(),
        ),
{
    assert(counted(db.files, Some(room), true) =~= db.files.dom().filter(
        |id: i64| db.files[id].room_id == room && db.files[id].status == "done"@,
    ));
    assert(counted(db.files, Some(room), false) =~= db.files.dom().filter(
        |id: i64| db.files[id].room_id == room,
    ));
    assert(counted(db.files, None, true) =~= db.files.dom().filter(
        |id: i64| db.files[id].status == "done"@,
    ));
    assert(counted(db.files, None, false) =~= db.files.dom());
}

/// Progress is the number of the files that are done, and the number of the
/// files: of a room, or of all.
pub proof fn law_progress_counts_files(db: Db, room: &str, here: (u64, u64), everywhere: (u64, u64))
    requires
        db.wf(),
        call_ensures(Db::progress_for_room, (&db, room), here),
        call_ensures(Db::progress, (&db,), everywhere),
    ensures
        here.0 == done_in(db@, room@),
        here.1 == files_in(db@, room@),
        everywhere.0 == db@.files.dom().filter(|id: i64| db@.files[id].status == "done"@).len(),
        everywhere.1 == db@.files.dom().len(),
{
    lemma_counts(db@, room@);
}

/// Migration, once its rows are committed: a file without a room is in the room
/// `legacy`, a file with a path is uploaded, and the other members of files
/// stay. The room `legacy` is made, nameless and without an owner, exactly when
/// it is needed and missing. Nothing else moves.
pub proof fn law_old_records_are_migrated(db: &mut Db, now: &str, changes: Vec<Change>, count: usize)
    requires
        old(db).wf(),
        call_ensures(Db::migrate_columns, (old(db), now), changes),
        count == changes@.len(),
        call_ensures(Db::commit_first, (db, &changes, count), ()),
    ensures
        forall|id: i64| #[trigger]
            final(db)@.files.contains_key(id) == old(db)@.files.contains_key(id),
        forall|id: i64| #[trigger]
            final(db)@.files.contains_key(id) ==> ({
                let was = old(db)@.files[id];
                let is = final(db)@.files[id];
                &&& is.room_id == if was.room_id.len() == 0 {
                    "legacy"@
                } else {
                    was.room_id
                }
                &&& is.uploaded == (was.uploaded || was.path.len() > 0)
                &&& is.id == was.id && is.name == was.name && is.path == was.path
                &&& is.size == was.size && is.owner == was.owner && is.duration == was.duration
                &&& is.status == was.status && is.annotated_by == was.annotated_by
                &&& is.updated_at == was.updated_at
            }),
        ({
            let needed = exists|id: i64| #[trigger]
                old(db)@.files.contains_key(id) && old(db)@.files[id].room_id.len() == 0;
            let made = needed && !old(db)@.rooms.contains_key("legacy"@);
            &&& forall|id: Seq<char>|
                id != "legacy"@ ==> #[trigger] final(db)@.rooms.contains_key(id)
                    == old(db)@.rooms.contains_key(id)
            &&& forall|id: Seq<char>| #[trigger]
                old(db)@.rooms.contains_key(id) ==> final(db)@.rooms[id] == old(db)@.rooms[id]
            &&& final(db)@.rooms.contains_key("legacy"@) == (made || old(db)@.rooms.contains_key(
                "legacy"@,
            ))
            &&& made ==> {
                let room = final(db)@.rooms["legacy"@];
                room.id == "legacy"@ && room.name.len() == 0 && room.owner.len() == 0
                    && room.created_at == Some(now@)
            }
        }),
        final(db)@.annotations == old(db)@.annotations,
        final(db)@.last_id == old(db)@.last_id,
{
    reveal_strlit("");
    assert(change_views(changes@).take(changes@.len() as int) =~= change_views(changes@));
    assert(final(db)@ == old(db)@.migrated(now@));
    assert forall|id: i64| #[trigger] final(db)@.files.contains_key(id) == old(db)@.files.contains_key(id) by {}
}

/// Where every file has a room and every file with a path is uploaded, migration
/// writes nothing.
pub proof fn law_settled_records_are_left_alone(db: Db, now: &str, changes: Vec<Change>)
    requires
        db.wf(),
        forall|id: i64| #[trigger]
            db@.files.contains_key(id) ==> db@.files[id].room_id.len() > 0 && (
            db@.files[id].path.len() > 0 ==> db@.files[id].uploaded),
        call_ensures(Db::migrate_columns, (&db, now), changes),
    ensures
        changes@.len() == 0,
{
    law_settled_records_need_no_migration(db@, now@);
    if changes@.len() > 0 {
        let views = change_views(changes@);
        let last = changes@[changes@.len() - 1];
        assert(views.last() == last@);
        law_nothing_is_removed(db@, views.drop_last());
        assert(db@.apply_all(views) == db@.apply_all(views.drop_last()).apply(views.last()));
        match last@ {
            ChangeView::PutRoom(room) => {
                assert(db@.apply_all(views).rooms.contains_key(room.id));
            },
            ChangeView::PutFile(file) => {
                assert(db@.apply_all(views).files[file.id] == file);
            },
            ChangeView::PutAnnotation(_) => {},
        }
    }
}

/// A file that is read from its columns has them as its members; any number but
/// zero says that it is uploaded.
pub proof fn law_columns_are_members(
    id: i64,
    room_id: String,
    name: String,
    path: String,
    size: i64,
    uploaded: i64,
    owner: Option<String>,
    duration: Option<u64>,
    status: String,
    annotated_by: Option<String>,
    updated_at: Option<String>,
    file: FileRecord,
)
    requires
        call_ensures(
            record_from_row,
            (
                id,
                room_id,
                name,
                path,
                size,
                uploaded,
                owner,
                duration,
                status,
                annotated_by,
                updated_at,
            ),
            file,
        ),
    ensures
        file.id == id,
        file.room_id@ == room_id@,
        file.name@ == name@,
        file.path@ == path@,
        file.size == size,
        file.uploaded == (uploaded != 0),
        file.owner is Some == owner is Some,
        owner matches Some(o) ==> says(file.owner, Some(o@)),
        file.duration == duration,
        file.status@ == status@,
        file.annotated_by is Some == annotated_by is Some,
        annotated_by matches Some(a) ==> says(file.annotated_by, Some(a@)),
        file.updated_at is Some == updated_at is Some,
        updated_at matches Some(u) ==> says(file.updated_at, Some(u@)),
{
}

/// A column, where it is not among those that there are.
pub open spec fn unless_there(
    existing: Seq<String>,
    name: Seq<char>,
    definition: Seq<char>,
) -> Seq<(Seq<char>, Seq<char>)> {
    if exists|i: int| 0 <= i < existing.len() && #[trigger] existing[i]@ == name {
        seq![]
    } else {
        seq![(name, definition)]
    }
}

/// The columns to add are, in this order, those of the five that are not there.
pub proof fn law_missing_columns_are_added(existing: &Vec<String>, columns: Vec<Column>)
    requires
        call_ensures(missing_columns, (existing,), columns),
    ensures
        columns@.map_values(|c: Column| (c.name@, c.definition@)) == unless_there(
            existing@,
            "room_id"@,
            "TEXT NOT NULL DEFAULT ''"@,
        ) + unless_there(existing@, "owner"@, "TEXT"@) + unless_there(
            existing@,
            "path"@,
            "TEXT NOT NULL DEFAULT ''"@,
        ) + unless_there(existing@, "size"@, "INTEGER NOT NULL DEFAULT 0"@) + unless_there(
            existing@,
            "uploaded"@,
            "INTEGER NOT NULL DEFAULT 0"@,
        ),
{
    let names = existing@.map_values(|c: String| c@);
    let all = later_columns();
    assert forall|name: Seq<char>| #[trigger] names.contains(name) == (exists|i: int|
        0 <= i < existing@.len() && #[trigger] existing@[i]@ == name) by {
        if names.contains(name) {
            let i = choose|i: int| 0 <= i < names.len() && names[i] == name;
            assert(existing@[i]@ == name);
        }
        if exists|i: int| 0 <= i < existing@.len() && #[trigger] existing@[i]@ == name {
            let i = choose|i: int| 0 <= i < existing@.len() && #[trigger] existing@[i]@ == name;
            assert(names[i] == name);
        }
    }
    assert(columns@.map_values(|c: Column| (c.name@, c.definition@)) =~= columns@.map_values(
        |c: Column| c@,
    ));
    reveal_with_fuel(lacking, 6);
    assert(all.drop_last() =~= all.take(4));
    assert(all.take(4).drop_last() =~= all.take(3));
    assert(all.take(3).drop_last() =~= all.take(2));
    assert(all.take(2).drop_last() =~= all.take(1));
    assert(all.take(1).drop_last() =~= all.take(0));
}

} // verus!
