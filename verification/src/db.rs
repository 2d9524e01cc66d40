//! The records of the server: rooms, files and annotations.
//!
//! `Db` answers every question about the records. A function that changes them
//! first says which row it would write, as a `Change`. The application stores
//! the row durably and then hands it to `Db::commit`.
pub use crate::record::{Annotation, FileRecord};
use crate::record::{change_views, AnnotationRow, Change, ChangeView, FileRow, Room, RoomRow};
use crate::text::same_text;
use std::collections::HashMap;
use vstd::prelude::*;

verus! {

broadcast use vstd::std_specs::hash::group_hash_axioms;

/// Why the records refuse a change.
#[derive(Debug, Clone, Copy, PartialEq, Eq, Structural)]
pub enum DbError {
    /// There is a room of that name.
    RoomExists,
    /// There is no such file.
    NoSuchFile,
    /// Every number for a file has been given out.
    Full,
}

/// The status of a file that nobody has labelled.
pub open spec fn pending() -> Seq<char> {
    "pending"@
}

/// The status of a file that somebody has labelled.
pub open spec fn done() -> Seq<char> {
    "done"@
}

/// The room for files that were registered without one.
pub open spec fn legacy() -> Seq<char> {
    "legacy"@
}

/// Whether these are the bits of a double that is not a number.
pub open spec fn is_nan(bits: u64) -> bool {
    bits % 0x8000_0000_0000_0000 > 0x7ff0_0000_0000_0000
}

/// The duration as the records keep it: what is not a number is no duration,
/// and a zero has no sign.
pub open spec fn kept_duration(duration: Option<u64>) -> Option<u64> {
    match duration {
        Some(bits) => if is_nan(bits) {
            None
        } else if bits == 0x8000_0000_0000_0000 {
            Some(0)
        } else {
            Some(bits)
        },
        None => None,
    }
}

/// The row that an insertion writes.
pub open spec fn new_file_row(
    id: i64,
    room_id: Seq<char>,
    owner: Seq<char>,
    name: Seq<char>,
    size: i64,
    path: Seq<char>,
    duration: Option<u64>,
) -> FileRow {
    FileRow {
        id,
        room_id,
        name,
        path,
        size,
        uploaded: path.len() > 0,
        owner: Some(owner),
        duration: kept_duration(duration),
        status: pending(),
        annotated_by: None,
        updated_at: None,
    }
}

/// What migration makes of a file: bytes at a path count as uploaded, and a
/// file without a room moves to the legacy room.
pub open spec fn migrated_file(file: FileRow) -> FileRow {
    FileRow {
        uploaded: file.uploaded || file.path.len() > 0,
        room_id: if file.room_id.len() == 0 {
            legacy()
        } else {
            file.room_id
        },
        ..file
    }
}

/// Whether a file counts: in one room or in any, labelled or not.
pub open spec fn counts(file: FileRow, room: Option<Seq<char>>, only_done: bool) -> bool {
    &&& room matches Some(r) ==> file.room_id == r
    &&& only_done ==> file.status == done()
}

/// The files that count.
pub open spec fn counted(
    files: Map<i64, FileRow>,
    room: Option<Seq<char>>,
    only_done: bool,
) -> Set<i64> {
    files.dom().filter(|id: i64| counts(files[id], room, only_done))
}

/// Whether `rows` is the list of the files of a room in the order of their
/// numbers.
pub open spec fn is_listing(
    files: Map<i64, FileRow>,
    room: Seq<char>,
    rows: Seq<FileRow>,
) -> bool {
    &&& forall|i: int, j: int| 0 <= i < j < rows.len() ==> rows[i].id < rows[j].id
    &&& forall|i: int|
        #![trigger rows[i]]
        0 <= i < rows.len() ==> files.contains_key(rows[i].id) && files[rows[i].id] == rows[i]
            && rows[i].room_id == room
    &&& forall|id: i64| #[trigger]
        files.contains_key(id) && files[id].room_id == room ==> exists|i: int|
            0 <= i < rows.len() && #[trigger] rows[i] == files[id]
}

/// The records.
#[verifier::ext_equal]
pub struct DbView {
    pub rooms: Map<Seq<char>, RoomRow>,
    pub files: Map<i64, FileRow>,
    pub annotations: Map<i64, AnnotationRow>,
    /// The largest number that was ever given to a file.
    pub last_id: i64,
}

impl DbView {
    /// No records.
    pub open spec fn empty() -> DbView {
        DbView {
            rooms: Map::empty(),
            files: Map::empty(),
            annotations: Map::empty(),
            last_id: 0,
        }
    }

    /// Each row stands under its key, and no file has a number that is still
    /// to be given out.
    pub open spec fn wf(self) -> bool {
        &&& 0 <= self.last_id
        &&& self.files.dom().finite()
        &&& forall|id: Seq<char>| #[trigger]
            self.rooms.contains_key(id) ==> self.rooms[id].id == id
        &&& forall|id: i64| #[trigger]
            self.files.contains_key(id) ==> self.files[id].id == id && id <= self.last_id
        &&& forall|id: i64| #[trigger]
            self.annotations.contains_key(id) ==> self.annotations[id].file_id == id
    }

    /// The records after a change.
    pub open spec fn apply(self, change: ChangeView) -> DbView {
        match change {
            ChangeView::PutRoom(room) => DbView { rooms: self.rooms.insert(room.id, room), ..self },
            ChangeView::PutFile(file) => DbView {
                files: self.files.insert(file.id, file),
                last_id: if file.id > self.last_id {
                    file.id
                } else {
                    self.last_id
                },
                ..self
            },
            ChangeView::PutAnnotation(annotation) => DbView {
                annotations: self.annotations.insert(annotation.file_id, annotation),
                ..self
            },
        }
    }

    /// The records after several changes.
    pub open spec fn apply_all(self, changes: Seq<ChangeView>) -> DbView
        decreases changes.len(),
    {
        if changes.len() == 0 {
            self
        } else {
            self.apply_all(changes.drop_last()).apply(changes.last())
        }
    }

    pub open spec fn file(self, id: i64) -> Option<FileRow> {
        if self.files.contains_key(id) {
            Some(self.files[id])
        } else {
            None
        }
    }

    pub open spec fn annotation(self, id: i64) -> Option<AnnotationRow> {
        if self.annotations.contains_key(id) {
            Some(self.annotations[id])
        } else {
            None
        }
    }

    pub open spec fn in_room(self, id: i64, room: Seq<char>) -> bool {
        self.files.contains_key(id) && self.files[id].room_id == room
    }

    /// How many files of a room, or of all rooms, are labelled, and how many
    /// there are.
    pub open spec fn progress(self, room: Option<Seq<char>>) -> (nat, nat) {
        (counted(self.files, room, true).len(), counted(self.files, room, false).len())
    }

    /// The row that records where the bytes of a file are.
    pub open spec fn uploaded_file(self, id: i64, path: Seq<char>) -> Option<FileRow> {
        match self.file(id) {
            Some(f) => Some(FileRow { uploaded: true, path, ..f }),
            None => None,
        }
    }

    /// The row that records a new status of a file.
    pub open spec fn file_with_status(
        self,
        id: i64,
        status: Seq<char>,
        annotated_by: Option<Seq<char>>,
        now: Seq<char>,
    ) -> Option<FileRow> {
        match self.file(id) {
            Some(f) => Some(FileRow { status, annotated_by, updated_at: Some(now), ..f }),
            None => None,
        }
    }

    /// Whether some file has no room.
    pub open spec fn has_stray(self) -> bool {
        exists|id: i64| #[trigger] self.files.contains_key(id) && self.files[id].room_id.len() == 0
    }

    /// The records after migration.
    pub open spec fn migrated(self, now: Seq<char>) -> DbView {
        DbView {
            rooms: if self.has_stray() && !self.rooms.contains_key(legacy()) {
                self.rooms.insert(
                    legacy(),
                    RoomRow { id: legacy(), name: ""@, owner: ""@, created_at: Some(now) },
                )
            } else {
                self.rooms
            },
            files: self.files.map_values(|f: FileRow| migrated_file(f)),
            ..self
        }
    }
}

/// Whether the files stand in the order of their numbers.
spec fn sorted(files: Seq<FileRecord>) -> bool {
    forall|i: int, j: int| 0 <= i < j < files.len() ==> files[i].id < files[j].id
}

spec fn has_id(files: Seq<FileRecord>, id: i64) -> bool {
    exists|i: int| 0 <= i < files.len() && #[trigger] files[i].id == id
}

spec fn place(files: Seq<FileRecord>, id: i64) -> int {
    choose|i: int| 0 <= i < files.len() && #[trigger] files[i].id == id
}

/// The files by number.
spec fn file_map(files: Seq<FileRecord>) -> Map<i64, FileRow> {
    Map::new(|id: i64| has_id(files, id), |id: i64| files[place(files, id)]@)
}

/// Whether no two rooms have one name.
spec fn distinct(rooms: Seq<Room>) -> bool {
    forall|i: int, j: int| 0 <= i < j < rooms.len() ==> rooms[i].id@ != rooms[j].id@
}

spec fn has_room(rooms: Seq<Room>, id: Seq<char>) -> bool {
    exists|i: int| 0 <= i < rooms.len() && #[trigger] rooms[i].id@ == id
}

spec fn room_place(rooms: Seq<Room>, id: Seq<char>) -> int {
    choose|i: int| 0 <= i < rooms.len() && #[trigger] rooms[i].id@ == id
}

/// The rooms by name.
spec fn room_map(rooms: Seq<Room>) -> Map<Seq<char>, RoomRow> {
    Map::new(|id: Seq<char>| has_room(rooms, id), |id: Seq<char>| rooms[room_place(rooms, id)]@)
}

proof fn lemma_file_map(files: Seq<FileRecord>, i: int)
    requires
        sorted(files),
        0 <= i < files.len(),
    ensures
        file_map(files).contains_key(files[i].id),
        file_map(files)[files[i].id] == files[i]@,
{
    let id = files[i].id;
    assert(has_id(files, id));
    let p = place(files, id);
    assert(files[p].id == id);
    if p < i {
        assert(files[p].id < files[i].id);
    } else if i < p {
        assert(files[i].id < files[p].id);
    }
}

/// What a file does to the files by number when it takes the place of the one
/// with its number, or the place between those with other numbers.
#[verifier::spinoff_prover]
#[verifier::rlimit(60)]
proof fn lemma_put(before: Seq<FileRecord>, after: Seq<FileRecord>, at: int, row: FileRecord)
    requires
        sorted(before),
        0 <= at <= before.len(),
        forall|i: int| 0 <= i < at ==> before[i].id < row.id,
        forall|i: int| at <= i < before.len() ==> row.id <= before[i].id,
        if at < before.len() && before[at].id == row.id {
            after == before.update(at, row)
        } else {
            after == before.insert(at, row)
        },
    ensures
        sorted(after),
        file_map(after) == file_map(before).insert(row.id, row@),
{
    let id = row.id;
    let shift: int = after.len() - before.len();
    assert(sorted(after));
    assert(after[at] == row);
    assert forall|k: i64| has_id(after, k) <==> (has_id(before, k) || k == id) by {
        if has_id(before, k) {
            let i = place(before, k);
            assert(before[i].id == k);
            if i < at {
                assert(after[i].id == k);
            } else {
                assert(after[i + shift].id == k || k == id);
            }
        }
        if has_id(after, k) {
            let i = place(after, k);
            assert(after[i].id == k);
            if i < at {
                assert(before[i].id == k);
            } else if i > at {
                assert(before[i - shift].id == k);
            }
        }
        assert(after[at].id == id);
    }
    assert forall|k: i64| #[trigger] file_map(after).contains_key(k) implies file_map(after)[k]
        == file_map(before).insert(id, row@)[k] by {
        let i = place(after, k);
        assert(after[i].id == k);
        lemma_file_map(after, i);
        if i < at {
            lemma_file_map(before, i);
            assert(after[i].id < after[at].id);
        } else if i > at {
            assert(after[at].id < after[i].id);
            assert(after[i] == before[i - shift]);
            lemma_file_map(before, i - shift);
        }
    }
    assert(file_map(after) =~= file_map(before).insert(id, row@));
}

proof fn lemma_room_map(rooms: Seq<Room>, i: int)
    requires
        distinct(rooms),
        0 <= i < rooms.len(),
    ensures
        room_map(rooms).contains_key(rooms[i].id@),
        room_map(rooms)[rooms[i].id@] == rooms[i]@,
{
    let id = rooms[i].id@;
    assert(has_room(rooms, id));
    let p = room_place(rooms, id);
    assert(rooms[p].id@ == id);
    if p < i {
        assert(rooms[p].id@ != rooms[i].id@);
    } else if i < p {
        assert(rooms[i].id@ != rooms[p].id@);
    }
}

/// The records, in memory.
pub struct Db {
    rooms: Vec<Room>,
    files: Vec<FileRecord>,
    annotations: HashMap<i64, Annotation>,
    last_id: i64,
}

impl View for Db {
    type V = DbView;

    closed spec fn view(&self) -> DbView {
        DbView {
            rooms: room_map(self.rooms@),
            files: file_map(self.files@),
            annotations: self.annotations@.map_values(|a: Annotation| a@),
            last_id: self.last_id,
        }
    }
}

impl Db {
    /// How the rows are kept.
    pub closed spec fn in_order(&self) -> bool {
        &&& sorted(self.files@)
        &&& distinct(self.rooms@)
    }

    /// The invariant of the records.
    pub open spec fn wf(&self) -> bool {
        &&& self.in_order()
        &&& self@.wf()
    }

    /// No records.
    pub fn new() -> (db: Db)
        ensures
            db.wf(),
            db@ == DbView::empty(),
    {
        let db = Db {
            rooms: Vec::new(),
            files: Vec::new(),
            annotations: HashMap::new(),
            last_id: 0,
        };
        proof {
            assert(db@.rooms =~= Map::empty());
            assert(db@.files =~= Map::empty());
            assert(db@.annotations =~= Map::empty());
        }
        db
    }

    /// The place of the first file whose number is not below `id`.
    fn rank(&self, id: i64) -> (at: usize)
        requires
            sorted(self.files@),
        ensures
            at <= self.files.len(),
            forall|i: int| 0 <= i < at ==> self.files@[i].id < id,
            forall|i: int| at <= i < self.files.len() ==> id <= self.files@[i].id,
    {
        let mut low: usize = 0;
        let mut high: usize = self.files.len();
        while low < high
            invariant
                sorted(self.files@),
                low <= high <= self.files.len(),
                forall|i: int| 0 <= i < low ==> self.files@[i].id < id,
                forall|i: int| high <= i < self.files.len() ==> id <= self.files@[i].id,
            decreases high - low,
        {
            let mid: usize = low + (high - low) / 2;
            if self.files[mid].id < id {
                low = mid + 1;
            } else {
                high = mid;
            }
        }
        low
    }

    /// The place of the file `id`.
    fn find(&self, id: i64) -> (at: Option<usize>)
        requires
            sorted(self.files@),
        ensures
            match at {
                Some(i) => i < self.files.len() && self.files@[i as int].id == id
                    && self@.files.contains_key(id) && self@.files[id] == self.files@[i as int]@,
                None => !self@.files.contains_key(id),
            },
    {
        let at = self.rank(id);
        if at < self.files.len() && self.files[at].id == id {
            proof {
                lemma_file_map(self.files@, at as int);
            }
            Some(at)
        } else {
            None
        }
    }

    /// The place of the room `id`.
    fn find_room(&self, id: &str) -> (at: Option<usize>)
        requires
            distinct(self.rooms@),
        ensures
            match at {
                Some(i) => i < self.rooms.len() && self.rooms@[i as int].id@ == id@
                    && self@.rooms.contains_key(id@) && self@.rooms[id@] == self.rooms@[i as int]@,
                None => !self@.rooms.contains_key(id@),
            },
    {
        let mut i: usize = 0;
        while i < self.rooms.len()
            invariant
                distinct(self.rooms@),
                i <= self.rooms.len(),
                forall|j: int| 0 <= j < i ==> self.rooms@[j].id@ != id@,
            decreases self.rooms.len() - i,
        {
            if same_text(&self.rooms[i].id, id) {
                proof {
                    lemma_room_map(self.rooms@, i as int);
                }
                return Some(i);
            }
            i = i + 1;
        }
        None
    }

    fn put_room(&mut self, room: Room)
        requires
            old(self).wf(),
        ensures
            final(self).wf(),
            final(self)@ == old(self)@.apply(ChangeView::PutRoom(room@)),
    {
        let ghost before = self.rooms@;
        let ghost row = room;
        let ghost at: int;
        match self.find_room(&room.id) {
            Some(i) => {
                self.rooms.set(i, room);
                proof {
                    at = i as int;
                }
            },
            None => {
                self.rooms.push(room);
                proof {
                    at = before.len() as int;
                    assert forall|i: int| 0 <= i < before.len() implies before[i].id@ != row.id@ by {
                        lemma_room_map(before, i);
                    }
                }
            },
        }
        proof {
            let after = self.rooms@;
            assert(distinct(after));
            assert forall|id: Seq<char>|
                has_room(after, id) <==> (has_room(before, id) || id == row.id@) by {
                if has_room(before, id) {
                    let i = room_place(before, id);
                    assert(before[i].id@ == id);
                    assert(after[i].id@ == id);
                }
                assert(after[at].id@ == row.id@);
            }
            assert forall|id: Seq<char>| #[trigger] room_map(after).contains_key(id) implies room_map(
                after,
            )[id] == room_map(before).insert(row.id@, row@)[id] by {
                let i = room_place(after, id);
                assert(after[i].id@ == id);
                if i == at {
                    lemma_room_map(after, at);
                } else {
                    lemma_room_map(before, i);
                    lemma_room_map(after, i);
                    lemma_room_map(after, at);
                }
            }
            assert(room_map(after) =~= room_map(before).insert(row.id@, row@));
        }
    }

    fn put_file(&mut self, file: FileRecord)
        requires
            old(self).wf(),
        ensures
            final(self).wf(),
            final(self)@ == old(self)@.apply(ChangeView::PutFile(file@)),
    {
        let ghost before = self.files@;
        let ghost row = file;
        let id = file.id;
        let at = self.rank(id);
        if at < self.files.len() && self.files[at].id == id {
            self.files.set(at, file);
        } else {
            self.files.insert(at, file);
        }
        if id > self.last_id {
            self.last_id = id;
        }
        proof {
            lemma_put(before, self.files@, at as int, row);
            assert(self@ =~= old(self)@.apply(ChangeView::PutFile(row@)));
        }
    }

    /// Makes a change that has been stored.
    pub fn commit(&mut self, change: Change)
        requires
            old(self).wf(),
        ensures
            final(self).wf(),
            final(self)@ == old(self)@.apply(change@),
    {
        match change {
            Change::PutRoom(room) => self.put_room(room),
            Change::PutFile(file) => self.put_file(file),
            Change::PutAnnotation(annotation) => {
                let ghost before = self.annotations@;
                self.annotations.insert(annotation.file_id, annotation);
                proof {
                    assert(self@.annotations =~= old(self)@.annotations.insert(
                        annotation.file_id,
                        annotation@,
                    ));
                }
            },
        }
    }

    /// Makes the first `count` of the changes, in their order.
    pub fn commit_first(&mut self, changes: &Vec<Change>, count: usize)
        requires
            old(self).wf(),
            count <= changes.len(),
        ensures
            final(self).wf(),
            final(self)@ == old(self)@.apply_all(change_views(changes@).take(count as int)),
    {
        let ghost views = change_views(changes@);
        let mut i: usize = 0;
        proof {
            assert(views.take(0).len() == 0);
        }
        while i < count
            invariant
                i <= count <= changes.len(),
                views == change_views(changes@),
                self.wf(),
                self@ == old(self)@.apply_all(views.take(i as int)),
            decreases count - i,
        {
            self.commit(changes[i].clone());
            proof {
                assert(views.take(i + 1).drop_last() =~= views.take(i as int));
                assert(views.take(i + 1).last() == changes@[i as int]@);
            }
            i = i + 1;
        }
    }

    /// The records that were stored: their rows, in any order, and the largest
    /// number that was ever given to a file.
    pub fn open(rows: &Vec<Change>, last_id: i64) -> (db: Db)
        ensures
            db.wf(),
            db@ == (DbView {
                last_id: if last_id > 0 {
                    last_id
                } else {
                    0
                },
                ..DbView::empty()
            }).apply_all(change_views(rows@)),
    {
        let mut db = Db::new();
        if last_id > 0 {
            db.last_id = last_id;
        }
        proof {
            assert(change_views(rows@).take(rows.len() as int) =~= change_views(rows@));
        }
        db.commit_first(rows, rows.len());
        db
    }

    /// Whether there is a room of that name.
    pub fn room_exists(&self, id: &str) -> (found: bool)
        requires
            self.wf(),
        ensures
            found == self@.rooms.contains_key(id@),
    {
        self.find_room(id).is_some()
    }

    /// The row of a new room.
    pub fn create_room(&self, id: &str, owner: &str, now: &str) -> (change: Result<Change, DbError>)
        requires
            self.wf(),
        ensures
            match change {
                Ok(c) => !self@.rooms.contains_key(id@) && c@ == ChangeView::PutRoom(
                    RoomRow { id: id@, name: ""@, owner: owner@, created_at: Some(now@) },
                ),
                Err(e) => self@.rooms.contains_key(id@) && e == DbError::RoomExists,
            },
    {
        if self.room_exists(id) {
            Err(DbError::RoomExists)
        } else {
            Ok(
                Change::PutRoom(
                    Room {
                        id: id.to_owned(),
                        name: "".to_owned(),
                        owner: owner.to_owned(),
                        created_at: Some(now.to_owned()),
                    },
                ),
            )
        }
    }

    /// The largest number that was ever given to a file.
    pub fn last_id(&self) -> (id: i64)
        ensures
            id == self@.last_id,
    {
        self.last_id
    }

    /// The row of a new file. It gets the next number, and counts as uploaded
    /// when it comes with a path.
    pub fn insert_file(
        &self,
        room_id: &str,
        owner: &str,
        name: &str,
        size: i64,
        path: &str,
        duration: Option<u64>,
    ) -> (change: Result<Change, DbError>)
        requires
            self.wf(),
        ensures
            match change {
                Ok(c) => self@.last_id < i64::MAX && c@ == ChangeView::PutFile(
                    new_file_row(
                        (self@.last_id + 1) as i64,
                        room_id@,
                        owner@,
                        name@,
                        size,
                        path@,
                        duration,
                    ),
                ),
                Err(e) => self@.last_id == i64::MAX && e == DbError::Full,
            },
    {
        if self.last_id == i64::MAX {
            return Err(DbError::Full);
        }
        Ok(
            Change::PutFile(
                new_file(self.last_id + 1, room_id, owner, name, size, path, duration),
            ),
        )
    }

    /// The files of a room, in the order of their numbers.
    pub fn list_files_in_room(&self, room_id: &str) -> (files: Vec<FileRecord>)
        requires
            self.wf(),
        ensures
            is_listing(self@.files, room_id@, files@.map_values(|f: FileRecord| f@)),
    {
        let mut found: Vec<FileRecord> = Vec::new();
        let mut i: usize = 0;
        while i < self.files.len()
            invariant
                i <= self.files.len(),
                sorted(self.files@),
                forall|j: int, k: int| 0 <= j < k < found.len() ==> found@[j].id < found@[k].id,
                forall|j: int, k: int|
                    0 <= j < found.len() && i <= k < self.files.len() ==> found@[j].id
                        < self.files@[k].id,
                forall|j: int|
                    #![trigger found@[j]]
                    0 <= j < found.len() ==> has_id(self.files@, found@[j].id)
                        && self@.files[found@[j].id] == found@[j]@ && found@[j].room_id@
                        == room_id@,
                forall|k: int|
                    #![trigger self.files@[k]]
                    0 <= k < i && self.files@[k].room_id@ == room_id@ ==> exists|j: int|
                        0 <= j < found.len() && #[trigger] found@[j] == self.files@[k],
            decreases self.files.len() - i,
        {
            let ghost before = found@;
            if same_text(&self.files[i].room_id, room_id) {
                proof {
                    lemma_file_map(self.files@, i as int);
                }
                found.push(self.files[i].clone());
            }
            proof {
                assert forall|k: int|
                    #![trigger self.files@[k]]
                    0 <= k <= i && self.files@[k].room_id@ == room_id@ implies exists|j: int|
                    0 <= j < found.len() && #[trigger] found@[j] == self.files@[k] by {
                    if k < i {
                        let j = choose|j: int|
                            0 <= j < before.len() && #[trigger] before[j] == self.files@[k];
                        assert(found@[j] == self.files@[k]);
                    } else {
                        assert(found@[found.len() - 1] == self.files@[k]);
                    }
                }
            }
            i = i + 1;
        }
        proof {
            let rows = found@.map_values(|f: FileRecord| f@);
            assert forall|id: i64| #[trigger]
                self@.files.contains_key(id) && self@.files[id].room_id == room_id@ implies exists|
                j: int,
            | 0 <= j < rows.len() && #[trigger] rows[j] == self@.files[id] by {
                let k = place(self.files@, id);
                assert(self.files@[k].id == id);
                let j = choose|j: int|
                    0 <= j < found.len() && #[trigger] found@[j] == self.files@[k];
                assert(rows[j] == self@.files[id]);
            }
        }
        found
    }

    /// The file of that number.
    pub fn get_file(&self, id: i64) -> (file: Option<FileRecord>)
        requires
            self.wf(),
        ensures
            match file {
                Some(f) => self@.file(id) == Some(f@),
                None => self@.file(id) is None,
            },
    {
        match self.find(id) {
            Some(i) => Some(self.files[i].clone()),
            None => None,
        }
    }

    /// Whether a file belongs to a room.
    pub fn file_in_room(&self, id: i64, room_id: &str) -> (inside: bool)
        requires
            self.wf(),
        ensures
            inside == self@.in_room(id, room_id@),
    {
        match self.find(id) {
            Some(i) => same_text(&self.files[i].room_id, room_id),
            None => false,
        }
    }

    /// The row that records that the bytes of a file are stored. There is
    /// nothing to write where there is no such file.
    pub fn mark_uploaded(&self, id: i64, stored_path: &str) -> (change: Option<Change>)
        requires
            self.wf(),
        ensures
            match change {
                Some(c) => match self@.uploaded_file(id, stored_path@) {
                    Some(row) => c@ == ChangeView::PutFile(row),
                    None => false,
                },
                None => self@.file(id) is None,
            },
    {
        match self.find(id) {
            Some(i) => {
                let mut file = self.files[i].clone();
                file.uploaded = true;
                file.path = stored_path.to_owned();
                Some(Change::PutFile(file))
            },
            None => None,
        }
    }

    /// The row that records a new status of a file. There is nothing to write
    /// where there is no such file.
    pub fn set_file_status(
        &self,
        id: i64,
        status: &str,
        annotated_by: Option<&str>,
        now: &str,
    ) -> (change: Option<Change>)
        requires
            self.wf(),
        ensures
            match change {
                Some(c) => match self@.file_with_status(
                    id,
                    status@,
                    match annotated_by {
                        Some(user) => Some(user@),
                        None => None,
                    },
                    now@,
                ) {
                    Some(row) => c@ == ChangeView::PutFile(row),
                    None => false,
                },
                None => self@.file(id) is None,
            },
    {
        match self.find(id) {
            Some(i) => {
                let mut file = self.files[i].clone();
                file.status = status.to_owned();
                file.annotated_by = match annotated_by {
                    Some(user) => Some(user.to_owned()),
                    None => None,
                };
                file.updated_at = Some(now.to_owned());
                Some(Change::PutFile(file))
            },
            None => None,
        }
    }

    /// The annotation of a file.
    pub fn get_annotation(&self, file_id: i64) -> (annotation: Option<Annotation>)
        requires
            self.wf(),
        ensures
            match annotation {
                Some(a) => self@.annotation(file_id) == Some(a@),
                None => self@.annotation(file_id) is None,
            },
    {
        match self.annotations.get(&file_id) {
            Some(a) => Some(a.clone()),
            None => None,
        }
    }

    /// The row of an annotation by `user`. An annotation belongs to a file.
    pub fn upsert_annotation(&self, a: &Annotation, user: &str, now: &str) -> (change: Result<
        Change,
        DbError,
    >)
        requires
            self.wf(),
        ensures
            match change {
                Ok(c) => self@.file(a.file_id) is Some && c@ == ChangeView::PutAnnotation(
                    AnnotationRow { annotated_by: Some(user@), updated_at: Some(now@), ..a@ },
                ),
                Err(e) => self@.file(a.file_id) is None && e == DbError::NoSuchFile,
            },
    {
        if self.find(a.file_id).is_none() {
            return Err(DbError::NoSuchFile);
        }
        let mut annotation = a.clone();
        annotation.annotated_by = Some(user.to_owned());
        annotation.updated_at = Some(now.to_owned());
        Ok(Change::PutAnnotation(annotation))
    }

    /// How many files count.
    fn count(&self, room: Option<&str>, only_done: bool) -> (number: u64)
        requires
            self.wf(),
        ensures
            number == counted(
                self@.files,
                match room {
                    Some(r) => Some(r@),
                    None => None,
                },
                only_done,
            ).len(),
    {
        let ghost wanted: Option<Seq<char>> = match room {
            Some(r) => Some(r@),
            None => None,
        };
        let ghost mut ids: Set<i64> = Set::empty();
        let mut number: u64 = 0;
        let mut i: usize = 0;
        while i < self.files.len()
            invariant
                i <= self.files.len(),
                sorted(self.files@),
                number <= i,
                ids.finite(),
                ids.len() == number,
                wanted == (match room {
                    Some(r) => Some(r@),
                    None => None,
                }),
                forall|id: i64| #[trigger]
                    ids.contains(id) <==> exists|j: int|
                        0 <= j < i && #[trigger] self.files@[j].id == id && counts(
                            self.files@[j]@,
                            wanted,
                            only_done,
                        ),
            decreases self.files.len() - i,
        {
            let ghost before = ids;
            let file = &self.files[i];
            let here = match room {
                Some(r) => same_text(&file.room_id, r),
                None => true,
            };
            let fits = here && (!only_done || same_text(&file.status, "done"));
            proof {
                assert(fits == counts(self.files@[i as int]@, wanted, only_done));
                assert(!ids.contains(self.files@[i as int].id));
            }
            if fits {
                number = number + 1;
                proof {
                    ids = ids.insert(self.files@[i as int].id);
                }
            }
            proof {
                assert forall|id: i64| #[trigger] ids.contains(id) <==> exists|j: int|
                    0 <= j < i + 1 && #[trigger] self.files@[j].id == id && counts(
                        self.files@[j]@,
                        wanted,
                        only_done,
                    ) by {
                    if before.contains(id) {
                        let j = choose|j: int|
                            0 <= j < i && #[trigger] self.files@[j].id == id && counts(
                                self.files@[j]@,
                                wanted,
                                only_done,
                            );
                        assert(self.files@[j].id == id);
                    }
                }
            }
            i = i + 1;
        }
        proof {
            let all = counted(self@.files, wanted, only_done);
            assert forall|id: i64| ids.contains(id) <==> all.contains(id) by {
                if ids.contains(id) {
                    let j = choose|j: int|
                        0 <= j < i && #[trigger] self.files@[j].id == id && counts(
                            self.files@[j]@,
                            wanted,
                            only_done,
                        );
                    lemma_file_map(self.files@, j);
                }
                if all.contains(id) {
                    let j = place(self.files@, id);
                    assert(self.files@[j].id == id);
                }
            }
            assert(ids =~= all);
        }
        number
    }

    /// How many files of a room are labelled, and how many it has.
    pub fn progress_for_room(&self, room_id: &str) -> (counts: (u64, u64))
        requires
            self.wf(),
        ensures
            (counts.0 as nat, counts.1 as nat) == self@.progress(Some(room_id@)),
    {
        (self.count(Some(room_id), true), self.count(Some(room_id), false))
    }

    /// How many files are labelled, and how many there are.
    pub fn progress(&self) -> (counts: (u64, u64))
        requires
            self.wf(),
        ensures
            (counts.0 as nat, counts.1 as nat) == self@.progress(None),
    {
        (self.count(None, true), self.count(None, false))
    }

    /// Whether some file has no room.
    fn has_stray(&self) -> (stray: bool)
        requires
            self.wf(),
        ensures
            stray == self@.has_stray(),
    {
        let mut i: usize = 0;
        while i < self.files.len()
            invariant
                self.wf(),
                i <= self.files.len(),
                forall|j: int| 0 <= j < i ==> #[trigger] self.files@[j].room_id@.len() > 0,
            decreases self.files.len() - i,
        {
            if self.files[i].room_id.as_str().is_empty() {
                proof {
                    lemma_file_map(self.files@, i as int);
                }
                return true;
            }
            i = i + 1;
        }
        proof {
            assert forall|id: i64| #[trigger] self@.files.contains_key(id) implies {
                self@.files[id].room_id.len() > 0
            } by {
                let j = place(self.files@, id);
                assert(self.files@[j].id == id);
                assert(self.files@[j].room_id@.len() > 0);
            }
        }
        false
    }

    /// The rows that bring older records up to date: files with bytes at a path
    /// are uploaded, and files without a room move to the legacy room, which is
    /// made first if it is needed. Rows that are up to date are not written.
    pub fn migrate_columns(&self, now: &str) -> (changes: Vec<Change>)
        requires
            self.wf(),
        ensures
            self@.apply_all(change_views(changes@)) == self@.migrated(now@),
            forall|i: int|
                #![trigger changes@[i]]
                0 <= i < changes.len() ==> match changes@[i]@ {
                    ChangeView::PutRoom(room) => i == 0 && !self@.rooms.contains_key(room.id),
                    ChangeView::PutFile(file) => self@.files.contains_key(file.id) && file
                        != self@.files[file.id],
                    ChangeView::PutAnnotation(_) => false,
                },
    {
        let mut changes: Vec<Change> = Vec::new();
        if self.has_stray() {
            match self.create_room("legacy", "", now) {
                Ok(change) => {
                    changes.push(change);
                    proof {
                        assert(change_views(changes@).drop_last().len() == 0);
                        assert(change_views(changes@).last() == change@);
                        assert(self@.apply_all(change_views(changes@).drop_last()) == self@);
                    }
                },
                Err(_) => {},
            }
        }
        let ghost start = DbView { rooms: self@.migrated(now@).rooms, ..self@ };
        let ghost made = changes.len();
        proof {
            assert(self@.apply_all(change_views(changes@)) == start);
            assert(half_migrated(start, self.files@, 0).files =~= start.files);
        }
        let mut i: usize = 0;
        while i < self.files.len()
            invariant
                self.wf(),
                start == (DbView { rooms: self@.migrated(now@).rooms, ..self@ }),
                start.wf(),
                i <= self.files.len(),
                made <= 1,
                made <= changes.len(),
                self@.apply_all(change_views(changes@)) == half_migrated(
                    start,
                    self.files@,
                    i as int,
                ),
                made == 1 ==> (changes@[0]@ matches ChangeView::PutRoom(room)
                    && !self@.rooms.contains_key(room.id)),
                forall|k: int|
                    #![trigger changes@[k]]
                    made <= k < changes.len() ==> (changes@[k]@ matches ChangeView::PutFile(file)
                        && self@.files.contains_key(file.id) && file != self@.files[file.id]),
            decreases self.files.len() - i,
        {
            let ghost before = changes@;
            let file = &self.files[i];
            let homeless = file.room_id.as_str().is_empty();
            let silent = !file.uploaded && !file.path.as_str().is_empty();
            proof {
                lemma_file_map(self.files@, i as int);
                lemma_half_step(start, self.files@, i as int);
            }
            if homeless || silent {
                let mut new = file.clone();
                if homeless {
                    new.room_id = "legacy".to_owned();
                }
                if silent {
                    new.uploaded = true;
                }
                proof {
                    assert(new@ == migrated_file(file@));
                    reveal_strlit("legacy");
                    assert(homeless ==> new@.room_id != file@.room_id);
                    assert(new@ != file@);
                }
                changes.push(Change::PutFile(new));
                proof {
                    assert(change_views(changes@).drop_last() =~= change_views(before));
                    assert(change_views(changes@).last() == ChangeView::PutFile(new@));
                }
            } else {
                proof {
                    let half = half_migrated(start, self.files@, i as int);
                    assert(migrated_file(file@) == file@);
                    assert(half.files =~= half.files.insert(file.id, file@));
                }
            }
            i = i + 1;
        }
        proof {
            assert forall|id: i64| #[trigger] start.files.contains_key(id) implies has_id(
                self.files@.take(i as int),
                id,
            ) by {
                let j = place(self.files@, id);
                assert(self.files@[j].id == id);
                assert(self.files@.take(i as int)[j].id == id);
            }
            assert(half_migrated(start, self.files@, i as int).files =~= self@.migrated(
                now@,
            ).files);
        }
        changes
    }
}

/// The records when the first `n` files have been migrated.
spec fn half_migrated(start: DbView, files: Seq<FileRecord>, n: int) -> DbView {
    DbView {
        files: Map::new(
            |id: i64| start.files.contains_key(id),
            |id: i64|
                if has_id(files.take(n), id) {
                    migrated_file(start.files[id])
                } else {
                    start.files[id]
                },
        ),
        ..start
    }
}

proof fn lemma_half_step(start: DbView, files: Seq<FileRecord>, n: int)
    requires
        sorted(files),
        start.wf(),
        start.files == file_map(files),
        0 <= n < files.len(),
    ensures
        half_migrated(start, files, n + 1) == half_migrated(start, files, n).apply(
            ChangeView::PutFile(migrated_file(files[n]@)),
        ),
        half_migrated(start, files, n).files.contains_key(files[n].id),
        half_migrated(start, files, n).files[files[n].id] == files[n]@,
{
    lemma_file_map(files, n);
    let id = files[n].id;
    assert(!has_id(files.take(n), id));
    assert forall|k: i64|
        has_id(files.take(n + 1), k) <==> (has_id(files.take(n), k) || k == id) by {
        if has_id(files.take(n), k) {
            let i = place(files.take(n), k);
            assert(files.take(n)[i].id == k);
            assert(files.take(n + 1)[i].id == k);
        }
        if has_id(files.take(n + 1), k) {
            let i = place(files.take(n + 1), k);
            assert(files.take(n + 1)[i].id == k);
            if i < n {
                assert(files.take(n)[i].id == k);
            }
        }
        assert(files.take(n + 1)[n].id == id);
    }
    assert(half_migrated(start, files, n + 1).files =~= half_migrated(start, files, n).files.insert(
        id,
        migrated_file(files[n]@),
    ));
}

/// The duration as the records keep it.
fn keep_duration(duration: Option<u64>) -> (kept: Option<u64>)
    ensures
        kept == kept_duration(duration),
{
    match duration {
        Some(bits) => if bits % 0x8000_0000_0000_0000 > 0x7ff0_0000_0000_0000 {
            None
        } else if bits == 0x8000_0000_0000_0000 {
            Some(0)
        } else {
            Some(bits)
        },
        None => None,
    }
}

/// A new file.
pub fn new_file(
    id: i64,
    room_id: &str,
    owner: &str,
    name: &str,
    size: i64,
    path: &str,
    duration: Option<u64>,
) -> (file: FileRecord)
    ensures
        file@ == new_file_row(id, room_id@, owner@, name@, size, path@, duration),
{
    FileRecord {
        id,
        room_id: room_id.to_owned(),
        name: name.to_owned(),
        path: path.to_owned(),
        size,
        uploaded: !path.is_empty(),
        owner: Some(owner.to_owned()),
        duration: keep_duration(duration),
        status: "pending".to_owned(),
        annotated_by: None,
        updated_at: None,
    }
}

} // verus!
