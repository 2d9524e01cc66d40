//! The rows that the server keeps: rooms, files and annotations.
use vstd::prelude::*;

verus! {

/// The characters of an optional text.
pub open spec fn opt_text(text: Option<String>) -> Option<Seq<char>> {
    match text {
        Some(t) => Some(t@),
        None => None,
    }
}

fn copy_opt(text: &Option<String>) -> (copy: Option<String>)
    ensures
        copy == *text,
{
    match text {
        Some(t) => Some(t.clone()),
        None => None,
    }
}

/// A room.
#[derive(Debug, PartialEq, Eq)]
pub struct Room {
    pub id: String,
    pub name: String,
    pub owner: String,
    pub created_at: Option<String>,
}

/// What a `Room` says.
pub struct RoomRow {
    pub id: Seq<char>,
    pub name: Seq<char>,
    pub owner: Seq<char>,
    pub created_at: Option<Seq<char>>,
}

impl View for Room {
    type V = RoomRow;

    open spec fn view(&self) -> RoomRow {
        RoomRow {
            id: self.id@,
            name: self.name@,
            owner: self.owner@,
            created_at: opt_text(self.created_at),
        }
    }
}

impl Clone for Room {
    fn clone(&self) -> (copy: Self)
        ensures
            copy == *self,
    {
        Room {
            id: self.id.clone(),
            name: self.name.clone(),
            owner: self.owner.clone(),
            created_at: copy_opt(&self.created_at),
        }
    }
}

/// An audio file of a room. `path` is where its bytes are stored, once they
/// are; `duration` holds the bits of a double.
#[derive(Debug, PartialEq, Eq)]
pub struct FileRecord {
    pub id: i64,
    pub room_id: String,
    pub name: String,
    pub path: String,
    pub size: i64,
    pub uploaded: bool,
    pub owner: Option<String>,
    pub duration: Option<u64>,
    pub status: String,
    pub annotated_by: Option<String>,
    pub updated_at: Option<String>,
}

/// What a `FileRecord` says.
pub struct FileRow {
    pub id: i64,
    pub room_id: Seq<char>,
    pub name: Seq<char>,
    pub path: Seq<char>,
    pub size: i64,
    pub uploaded: bool,
    pub owner: Option<Seq<char>>,
    pub duration: Option<u64>,
    pub status: Seq<char>,
    pub annotated_by: Option<Seq<char>>,
    pub updated_at: Option<Seq<char>>,
}

impl View for FileRecord {
    type V = FileRow;

    open spec fn view(&self) -> FileRow {
        FileRow {
            id: self.id,
            room_id: self.room_id@,
            name: self.name@,
            path: self.path@,
            size: self.size,
            uploaded: self.uploaded,
            owner: opt_text(self.owner),
            duration: self.duration,
            status: self.status@,
            annotated_by: opt_text(self.annotated_by),
            updated_at: opt_text(self.updated_at),
        }
    }
}

impl Clone for FileRecord {
    fn clone(&self) -> (copy: Self)
        ensures
            copy == *self,
    {
        FileRecord {
            id: self.id,
            room_id: self.room_id.clone(),
            name: self.name.clone(),
            path: self.path.clone(),
            size: self.size,
            uploaded: self.uploaded,
            owner: copy_opt(&self.owner),
            duration: self.duration,
            status: self.status.clone(),
            annotated_by: copy_opt(&self.annotated_by),
            updated_at: copy_opt(&self.updated_at),
        }
    }
}

/// The label that somebody gave to a file.
#[derive(Debug, PartialEq, Eq)]
pub struct Annotation {
    pub file_id: i64,
    pub is_check: i64,
    pub lab: String,
    pub lab_without_tone: String,
    pub raw_text: String,
    pub annotated_by: Option<String>,
    pub updated_at: Option<String>,
}

/// What an `Annotation` says.
pub struct AnnotationRow {
    pub file_id: i64,
    pub is_check: i64,
    pub lab: Seq<char>,
    pub lab_without_tone: Seq<char>,
    pub raw_text: Seq<char>,
    pub annotated_by: Option<Seq<char>>,
    pub updated_at: Option<Seq<char>>,
}

impl View for Annotation {
    type V = AnnotationRow;

    open spec fn view(&self) -> AnnotationRow {
        AnnotationRow {
            file_id: self.file_id,
            is_check: self.is_check,
            lab: self.lab@,
            lab_without_tone: self.lab_without_tone@,
            raw_text: self.raw_text@,
            annotated_by: opt_text(self.annotated_by),
            updated_at: opt_text(self.updated_at),
        }
    }
}

impl Clone for Annotation {
    fn clone(&self) -> (copy: Self)
        ensures
            copy == *self,
    {
        Annotation {
            file_id: self.file_id,
            is_check: self.is_check,
            lab: self.lab.clone(),
            lab_without_tone: self.lab_without_tone.clone(),
            raw_text: self.raw_text.clone(),
            annotated_by: copy_opt(&self.annotated_by),
            updated_at: copy_opt(&self.updated_at),
        }
    }
}

/// A row to write. It takes the place of the row with the same key.
#[derive(Debug, PartialEq, Eq)]
pub enum Change {
    PutRoom(Room),
    PutFile(FileRecord),
    PutAnnotation(Annotation),
}

/// What a `Change` says.
pub enum ChangeView {
    PutRoom(RoomRow),
    PutFile(FileRow),
    PutAnnotation(AnnotationRow),
}

impl View for Change {
    type V = ChangeView;

    open spec fn view(&self) -> ChangeView {
        match self {
            Change::PutRoom(room) => ChangeView::PutRoom(room@),
            Change::PutFile(file) => ChangeView::PutFile(file@),
            Change::PutAnnotation(annotation) => ChangeView::PutAnnotation(annotation@),
        }
    }
}

impl Clone for Change {
    fn clone(&self) -> (copy: Self)
        ensures
            copy == *self,
    {
        match self {
            Change::PutRoom(room) => Change::PutRoom(room.clone()),
            Change::PutFile(file) => Change::PutFile(file.clone()),
            Change::PutAnnotation(annotation) => Change::PutAnnotation(annotation.clone()),
        }
    }
}

/// What a list of changes says.
pub open spec fn change_views(changes: Seq<Change>) -> Seq<ChangeView> {
    changes.map_values(|c: Change| c@)
}

/// A file, from the columns of its row. The flag for the upload is a number.
pub fn record_from_row(
    id: i64,
    room_id: String,
    name: String,
    path: String,
    size: i64,
    uploaded: i64,
    owner: Option<String>,
    duration: Option<u64>,
    status: String,
    annotated_by: Option<String>,
    updated_at: Option<String>,
) -> (file: FileRecord)
    ensures
        file@ == (FileRow {
            id,
            room_id: room_id@,
            name: name@,
            path: path@,
            size,
            uploaded: uploaded != 0,
            owner: opt_text(owner),
            duration,
            status: status@,
            annotated_by: opt_text(annotated_by),
            updated_at: opt_text(updated_at),
        }),
{
    FileRecord {
        id,
        room_id,
        name,
        path,
        size,
        uploaded: uploaded != 0,
        owner,
        duration,
        status,
        annotated_by,
        updated_at,
    }
}

} // verus!
