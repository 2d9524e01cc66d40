//! The requests over HTTP.
//!
//! A request that changes the records comes in two steps. The first refuses
//! the request or says which rows to write. The application stores them, in
//! their order, up to the first that cannot be stored. The second step is told
//! how many were stored; it makes these changes and answers.
use crate::chance::{is_uuid, random_below, random_uuid};
use crate::db::{new_file, new_file_row, DbView};
use crate::message::{ServerMessage, ServerMessageView};
use crate::record::{
    change_views, opt_text, Annotation, AnnotationRow, Change, ChangeView, FileRecord, FileRow,
    RoomRow,
};
use crate::state::{AppState, StateView};
use crate::text::{
    extension, extension_of, mime_for, mime_of, same_text, trim, trimmed, PathStyle,
};
use vstd::prelude::*;

verus! {

/// Why a request is refused.
#[derive(Debug, Clone, Copy, PartialEq, Eq, Structural)]
pub enum Status {
    BadRequest,
    Forbidden,
    NotFound,
    Conflict,
    InternalServerError,
}

impl Status {
    /// The number of the status.
    pub open spec fn number(self) -> u16 {
        match self {
            Status::BadRequest => 400,
            Status::Forbidden => 403,
            Status::NotFound => 404,
            Status::Conflict => 409,
            Status::InternalServerError => 500,
        }
    }

    /// The number of the status.
    pub fn code(&self) -> (code: u16)
        ensures
            code == self.number(),
    {
        match self {
            Status::BadRequest => 400,
            Status::Forbidden => 403,
            Status::NotFound => 404,
            Status::Conflict => 409,
            Status::InternalServerError => 500,
        }
    }
}

/// The characters of a room code: no `I`, `O`, `0` or `1`.
pub open spec fn room_code_chars() -> Seq<char> {
    "ABCDEFGHJKLMNPQRSTUVWXYZ23456789"@
}

/// The form of a room code.
pub open spec fn is_room_code(code: Seq<char>) -> bool {
    &&& code.len() == 6
    &&& forall|i: int| #![trigger code[i]] 0 <= i < 6 ==> room_code_chars().contains(code[i])
}

/// The code that picks these characters.
pub fn room_code(picks: &Vec<usize>) -> (code: String)
    requires
        forall|i: int| #![trigger picks@[i]] 0 <= i < picks.len() ==> picks@[i] < 32,
    ensures
        code@ == Seq::new(picks@.len(), |i: int| room_code_chars()[picks@[i] as int]),
{
    let chars = "ABCDEFGHJKLMNPQRSTUVWXYZ23456789";
    proof {
        reveal_strlit("ABCDEFGHJKLMNPQRSTUVWXYZ23456789");
    }
    let mut code = String::new();
    let mut i: usize = 0;
    while i < picks.len()
        invariant
            i <= picks.len(),
            chars@ == room_code_chars(),
            chars@.len() == 32,
            forall|i: int| #![trigger picks@[i]] 0 <= i < picks.len() ==> picks@[i] < 32,
            code@ == Seq::new(i as nat, |j: int| room_code_chars()[picks@[j] as int]),
        decreases picks.len() - i,
    {
        let pick = picks[i];
        code.append(chars.substring_char(pick, pick + 1));
        proof {
            assert(code@ =~= Seq::new(
                (i + 1) as nat,
                |j: int| room_code_chars()[picks@[j] as int],
            ));
        }
        i = i + 1;
    }
    code
}

/// A room code, drawn by chance.
pub fn gen_room_code() -> (code: String)
    ensures
        is_room_code(code@),
{
    let mut picks: Vec<usize> = Vec::new();
    while picks.len() < 6
        invariant
            picks.len() <= 6,
            forall|i: int| #![trigger picks@[i]] 0 <= i < picks.len() ==> picks@[i] < 32,
        decreases 6 - picks.len(),
    {
        picks.push(random_below(32));
    }
    let code = room_code(&picks);
    proof {
        reveal_strlit("ABCDEFGHJKLMNPQRSTUVWXYZ23456789");
        assert forall|i: int| #![trigger code@[i]] 0 <= i < 6 implies room_code_chars().contains(
            code@[i],
        ) by {
            assert(code@[i] == room_code_chars()[picks@[i] as int]);
        }
    }
    code
}

/// Eleven room codes, drawn by chance: one, and ten more in case that it is
/// taken.
pub fn draw_room_codes() -> (codes: Vec<String>)
    ensures
        is_draw(code_views(codes@)),
{
    let mut codes: Vec<String> = Vec::new();
    while codes.len() < 11
        invariant
            codes.len() <= 11,
            forall|i: int| #![trigger codes@[i]] 0 <= i < codes.len() ==> is_room_code(codes@[i]@),
        decreases 11 - codes.len(),
    {
        codes.push(gen_room_code());
    }
    codes
}

/// A room to be made.
#[derive(Debug, PartialEq, Eq)]
pub struct NewRoom {
    pub id: String,
    pub changes: Vec<Change>,
}

/// The row of a new room.
pub open spec fn new_room_row(id: Seq<char>, user: Seq<char>, now: Seq<char>) -> RoomRow {
    RoomRow { id, name: ""@, owner: trimmed(user), created_at: Some(now) }
}

/// Whether a room with this code can be made for a user.
pub open spec fn room_plan(
    db: DbView,
    user: Seq<char>,
    code: Seq<char>,
    now: Seq<char>,
    plan: Result<NewRoom, Status>,
) -> bool {
    match plan {
        Ok(p) => trimmed(user).len() > 0 && !db.rooms.contains_key(code) && p.id@ == code
            && change_views(p.changes@) == seq![
            ChangeView::PutRoom(new_room_row(code, user, now)),
        ],
        Err(s) => if trimmed(user).len() == 0 {
            s == Status::BadRequest
        } else {
            db.rooms.contains_key(code) && s == Status::InternalServerError
        },
    }
}

/// Whether the codes are a draw: eleven room codes.
pub open spec fn is_draw(codes: Seq<Seq<char>>) -> bool {
    &&& codes.len() == 11
    &&& forall|i: int| #![trigger codes[i]] 0 <= i < codes.len() ==> is_room_code(codes[i])
}

/// What a list of codes says.
pub open spec fn code_views(codes: Seq<String>) -> Seq<Seq<char>> {
    codes.map_values(|c: String| c@)
}

/// Whether the code at `k` is the first of the first eleven that no room has.
pub open spec fn is_first_free(db: DbView, codes: Seq<Seq<char>>, k: int) -> bool {
    &&& 0 <= k < codes.len()
    &&& k < 11
    &&& !db.rooms.contains_key(codes[k])
    &&& forall|i: int| #![trigger codes[i]] 0 <= i < k ==> db.rooms.contains_key(codes[i])
}

/// Whether every one of the first eleven codes is that of a room.
pub open spec fn all_taken(db: DbView, codes: Seq<Seq<char>>) -> bool {
    forall|i: int|
        #![trigger codes[i]]
        0 <= i < codes.len() && i < 11 ==> db.rooms.contains_key(codes[i])
}

/// Whether `plan` is the room that a user gets from codes that were drawn: it
/// has the first code that is free, and there is none where all are taken.
pub open spec fn draw_plan(
    db: DbView,
    user: Seq<char>,
    codes: Seq<Seq<char>>,
    now: Seq<char>,
    plan: Result<NewRoom, Status>,
) -> bool {
    if trimmed(user).len() == 0 {
        plan is Err && plan->Err_0 == Status::BadRequest
    } else {
        match plan {
            Ok(p) => exists|k: int| #[trigger]
                is_first_free(db, codes, k) && room_plan(db, user, codes[k], now, plan),
            Err(s) => all_taken(db, codes) && s == Status::InternalServerError,
        }
    }
}

/// How many of `len` rows were stored, when the application says `stored`.
pub open spec fn at_most(stored: usize, len: nat) -> int {
    if stored <= len {
        stored as int
    } else {
        len as int
    }
}

fn bounded(stored: usize, len: usize) -> (count: usize)
    ensures
        count == at_most(stored, len as nat),
{
    if stored <= len {
        stored
    } else {
        len
    }
}

impl AppState {
    /// A new room under a given code. It needs somebody who opens it, and a
    /// code that no room has.
    pub fn plan_room(&self, user: &str, code: &str, now: &str) -> (plan: Result<NewRoom, Status>)
        requires
            self.wf(),
        ensures
            room_plan(self@.db, user@, code@, now@, plan),
    {
        let owner = trim(user);
        if owner.is_empty() {
            return Err(Status::BadRequest);
        }
        match self.db().create_room(code, owner, now) {
            Ok(change) => {
                let mut changes: Vec<Change> = Vec::new();
                changes.push(change);
                proof {
                    assert(change_views(changes@) =~= seq![change@]);
                }
                Ok(NewRoom { id: code.to_owned(), changes })
            },
            Err(_) => Err(Status::InternalServerError),
        }
    }

    /// A new room under the first of the codes that no room has. No more than
    /// eleven are tried.
    pub fn plan_from_draws(&self, user: &str, codes: &Vec<String>, now: &str) -> (plan: Result<
        NewRoom,
        Status,
    >)
        requires
            self.wf(),
        ensures
            draw_plan(self@.db, user@, code_views(codes@), now@, plan),
    {
        let ghost views = code_views(codes@);
        if trim(user).is_empty() {
            return Err(Status::BadRequest);
        }
        let mut i: usize = 0;
        while i < codes.len() && i < 11
            invariant
                self.wf(),
                views == code_views(codes@),
                trimmed(user@).len() > 0,
                i <= codes.len(),
                i <= 11,
                forall|j: int| #![trigger views[j]] 0 <= j < i ==> self@.db.rooms.contains_key(
                    views[j],
                ),
            decreases codes.len() - i,
        {
            if !self.db().room_exists(&codes[i]) {
                proof {
                    assert(views[i as int] == codes@[i as int]@);
                    assert(is_first_free(self@.db, views, i as int));
                }
                return self.plan_room(user, &codes[i], now);
            }
            proof {
                assert(views[i as int] == codes@[i as int]@);
            }
            i = i + 1;
        }
        Err(Status::InternalServerError)
    }

    /// A new room under a code drawn by chance.
    pub fn create_room(&self, user: &str, now: &str) -> (plan: Result<NewRoom, Status>)
        requires
            self.wf(),
        ensures
            trimmed(user@).len() == 0 ==> plan == Err::<NewRoom, Status>(Status::BadRequest),
            exists|codes: Seq<Seq<char>>| #[trigger]
                is_draw(codes) && draw_plan(self@.db, user@, codes, now@, plan),
    {
        let codes = draw_room_codes();
        self.plan_from_draws(user, &codes, now)
    }

    /// Makes a room whose row was stored. The answer is its code.
    pub fn finish_room(&mut self, plan: NewRoom, stored: usize) -> (answer: Result<String, Status>)
        requires
            old(self).wf(),
        ensures
            final(self).wf(),
            final(self)@ == old(self)@.changed(
                change_views(plan.changes@).take(at_most(stored, plan.changes@.len())),
            ),
            match answer {
                Ok(id) => stored >= plan.changes@.len() && id@ == plan.id@,
                Err(s) => stored < plan.changes@.len() && s == Status::InternalServerError,
            },
    {
        self.commit_first(&plan.changes, bounded(stored, plan.changes.len()));
        if stored < plan.changes.len() {
            return Err(Status::InternalServerError);
        }
        Ok(plan.id)
    }
}

/// A file that somebody has and wants to have labelled.
#[derive(Debug, PartialEq, Eq)]
pub struct NewFile {
    pub name: String,
    pub size: i64,
}

impl View for NewFile {
    type V = (Seq<char>, i64);

    open spec fn view(&self) -> (Seq<char>, i64) {
        (self.name@, self.size)
    }
}

/// A file that has been registered.
#[derive(Debug, PartialEq, Eq)]
pub struct RegisteredFile {
    pub id: i64,
    pub name: String,
    pub size: i64,
}

/// What a `RegisteredFile` says.
pub struct RegisteredFileView {
    pub id: i64,
    pub name: Seq<char>,
    pub size: i64,
}

impl View for RegisteredFile {
    type V = RegisteredFileView;

    open spec fn view(&self) -> RegisteredFileView {
        RegisteredFileView { id: self.id, name: self.name@, size: self.size }
    }
}

/// What a list of registered files says.
pub open spec fn registered_views(files: Seq<RegisteredFile>) -> Seq<RegisteredFileView> {
    files.map_values(|f: RegisteredFile| f@)
}

/// Files to be registered in a room. Where there are not numbers enough for
/// all of them, the registration is not complete.
#[derive(Debug, PartialEq, Eq)]
pub struct Registration {
    pub room: String,
    pub changes: Vec<Change>,
    pub files: Vec<RegisteredFile>,
    pub complete: bool,
}

/// The files that have a name, under their trimmed names.
pub open spec fn named(files: Seq<(Seq<char>, i64)>) -> Seq<(Seq<char>, i64)>
    decreases files.len(),
{
    if files.len() == 0 {
        seq![]
    } else {
        let before = named(files.drop_last());
        let name = trimmed(files.last().0);
        if name.len() == 0 {
            before
        } else {
            before.push((name, files.last().1))
        }
    }
}

/// How many of `n` files get a number.
pub open spec fn numbered(last_id: i64, n: nat) -> nat {
    if n <= i64::MAX - last_id {
        n
    } else {
        (i64::MAX - last_id) as nat
    }
}

/// The row of the `k`th of the files that are registered together.
pub open spec fn registered_row(
    last_id: i64,
    room: Seq<char>,
    owner: Seq<char>,
    files: Seq<(Seq<char>, i64)>,
    k: int,
) -> FileRow {
    new_file_row((last_id + 1 + k) as i64, room, owner, files[k].0, files[k].1, ""@, None)
}

/// The rows of the files that are registered together.
pub open spec fn registered_rows(
    last_id: i64,
    room: Seq<char>,
    owner: Seq<char>,
    files: Seq<(Seq<char>, i64)>,
) -> Seq<ChangeView> {
    Seq::new(
        numbered(last_id, files.len()),
        |k: int| ChangeView::PutFile(registered_row(last_id, room, owner, files, k)),
    )
}

/// What is answered for the files that are registered together.
pub open spec fn registered_answer(last_id: i64, files: Seq<(Seq<char>, i64)>) -> Seq<
    RegisteredFileView,
> {
    Seq::new(
        numbered(last_id, files.len()),
        |k: int|
            RegisteredFileView {
                id: (last_id + 1 + k) as i64,
                name: files[k].0,
                size: files[k].1,
            },
    )
}

impl AppState {
    /// Files for a room: their names and sizes, not their bytes. The room must
    /// be there, and somebody must own the files. Files without a name are
    /// passed over.
    pub fn register_files(&self, room: &str, user: &str, files: &Vec<NewFile>) -> (plan: Result<
        Registration,
        Status,
    >)
        requires
            self.wf(),
        ensures
            match plan {
                Ok(p) => {
                    let wanted = named(files@.map_values(|f: NewFile| f@));
                    let last_id = self@.db.last_id;
                    &&& self@.db.rooms.contains_key(room@)
                    &&& trimmed(user@).len() > 0
                    &&& p.room@ == room@
                    &&& change_views(p.changes@) == registered_rows(
                        last_id,
                        room@,
                        trimmed(user@),
                        wanted,
                    )
                    &&& registered_views(p.files@) == registered_answer(
                        last_id,
                        wanted,
                    )
                    &&& p.complete == (wanted.len() <= i64::MAX - last_id)
                },
                Err(s) => if !self@.db.rooms.contains_key(room@) {
                    s == Status::NotFound
                } else {
                    trimmed(user@).len() == 0 && s == Status::BadRequest
                },
            },
    {
        if !self.db().room_exists(room) {
            return Err(Status::NotFound);
        }
        let owner = trim(user);
        if owner.is_empty() {
            return Err(Status::BadRequest);
        }
        let last_id = self.db().last_id();
        let ghost all = files@.map_values(|f: NewFile| f@);
        let mut changes: Vec<Change> = Vec::new();
        let mut answer: Vec<RegisteredFile> = Vec::new();
        let mut complete = true;
        let mut next: i64 = last_id;
        let mut i: usize = 0;
        proof {
            assert(all.take(0) =~= seq![]);
            assert(change_views(changes@) =~= registered_rows(
                last_id,
                room@,
                owner@,
                named(all.take(0)),
            ));
            assert(registered_views(answer@) =~= registered_answer(
                last_id,
                named(all.take(0)),
            ));
        }
        while i < files.len()
            invariant
                i <= files.len(),
                all == files@.map_values(|f: NewFile| f@),
                0 <= last_id <= next,
                next - last_id == numbered(last_id, named(all.take(i as int)).len()),
                complete == (named(all.take(i as int)).len() <= i64::MAX - last_id),
                change_views(changes@) == registered_rows(
                    last_id,
                    room@,
                    owner@,
                    named(all.take(i as int)),
                ),
                registered_views(answer@) == registered_answer(
                    last_id,
                    named(all.take(i as int)),
                ),
            decreases files.len() - i,
        {
            let ghost before = named(all.take(i as int));
            let ghost old_changes = changes@;
            let ghost old_answer = answer@;
            let name = trim(&files[i].name);
            proof {
                assert(all.take(i + 1).drop_last() =~= all.take(i as int));
                assert(all.take(i + 1).last() == files@[i as int]@);
            }
            if !name.is_empty() {
                let ghost after = named(all.take(i + 1));
                proof {
                    assert(after == before.push((name@, files@[i as int].size)));
                }
                if next == i64::MAX {
                    complete = false;
                } else {
                    next = next + 1;
                    changes.push(
                        Change::PutFile(new_file(next, room, owner, name, files[i].size, "", None)),
                    );
                    answer.push(
                        RegisteredFile { id: next, name: name.to_owned(), size: files[i].size },
                    );
                }
                proof {
                    let rows = registered_rows(last_id, room@, owner@, before);
                    let new_rows = registered_rows(last_id, room@, owner@, after);
                    let files_before = registered_answer(last_id, before);
                    let files_after = registered_answer(last_id, after);
                    assert(registered_views(old_answer) == files_before);
                    assert(change_views(old_changes) == rows);
                    assert(old_answer.len() == files_before.len());
                    assert(old_changes.len() == rows.len());
                    assert(forall|k: int| 0 <= k < before.len() ==> after[k] == before[k]);
                    assert(forall|k: int| 0 <= k < rows.len() ==> new_rows[k] == rows[k]);
                    assert(forall|k: int|
                        0 <= k < rows.len() ==> files_after[k] == files_before[k]);
                    assert(forall|k: int|
                        0 <= k < rows.len() ==> change_views(changes@)[k] == change_views(
                            old_changes,
                        )[k]);
                    assert(forall|k: int|
                        0 <= k < rows.len() ==> registered_views(answer@)[k]
                            == registered_views(old_answer)[k]);
                    assert(change_views(changes@) =~= new_rows);
                    assert(registered_views(answer@) =~= files_after);
                }
            }
            i = i + 1;
        }
        proof {
            assert(all.take(i as int) =~= all);
        }
        Ok(Registration { room: room.to_owned(), changes, files: answer, complete })
    }

    /// Registers the files whose rows were stored. When these are all, the room
    /// is told how far it is, and the answer lists the files.
    pub fn finish_registration(&mut self, plan: Registration, stored: usize) -> (answer: Result<
        Vec<RegisteredFile>,
        Status,
    >)
        requires
            old(self).wf(),
        ensures
            final(self).wf(),
            ({
                let after = old(self)@.changed(
                    change_views(plan.changes@).take(at_most(stored, plan.changes@.len())),
                );
                match answer {
                    Ok(files) => stored >= plan.changes@.len() && plan.complete && files
                        == plan.files && final(self)@ == after.broadcast(
                        plan.room@,
                        after.progress_message(plan.room@).text(),
                    ),
                    Err(s) => !(stored >= plan.changes@.len() && plan.complete) && s
                        == Status::InternalServerError && final(self)@ == after,
                }
            }),
    {
        self.commit_first(&plan.changes, bounded(stored, plan.changes.len()));
        if stored < plan.changes.len() || !plan.complete {
            return Err(Status::InternalServerError);
        }
        let progress = self.progress_of(&plan.room);
        self.announce(&plan.room, &progress);
        Ok(plan.files)
    }
}

/// A file of a room as it is shown, with the user who labels it at the moment.
/// Where its bytes are stored is not shown.
#[derive(Debug, PartialEq, Eq)]
pub struct ListedFile {
    pub id: i64,
    pub name: String,
    pub size: i64,
    pub uploaded: bool,
    pub owner: Option<String>,
    pub duration: Option<u64>,
    pub status: String,
    pub annotated_by: Option<String>,
    pub updated_at: Option<String>,
    pub annotating_by: Option<String>,
}

/// What a `ListedFile` says.
pub struct ListedFileView {
    pub id: i64,
    pub name: Seq<char>,
    pub size: i64,
    pub uploaded: bool,
    pub owner: Option<Seq<char>>,
    pub duration: Option<u64>,
    pub status: Seq<char>,
    pub annotated_by: Option<Seq<char>>,
    pub updated_at: Option<Seq<char>>,
    pub annotating_by: Option<Seq<char>>,
}

impl View for ListedFile {
    type V = ListedFileView;

    open spec fn view(&self) -> ListedFileView {
        ListedFileView {
            id: self.id,
            name: self.name@,
            size: self.size,
            uploaded: self.uploaded,
            owner: opt_text(self.owner),
            duration: self.duration,
            status: self.status@,
            annotated_by: opt_text(self.annotated_by),
            updated_at: opt_text(self.updated_at),
            annotating_by: opt_text(self.annotating_by),
        }
    }
}

/// What a list of files says.
pub open spec fn listed_views(listed: Seq<ListedFile>) -> Seq<ListedFileView> {
    listed.map_values(|l: ListedFile| l@)
}

/// A file as it is shown.
pub open spec fn shown(file: FileRow, annotating_by: Option<Seq<char>>) -> ListedFileView {
    ListedFileView {
        id: file.id,
        name: file.name,
        size: file.size,
        uploaded: file.uploaded,
        owner: file.owner,
        duration: file.duration,
        status: file.status,
        annotated_by: file.annotated_by,
        updated_at: file.updated_at,
        annotating_by,
    }
}

/// Whether `listed` shows the files of a room, each once, in the order of their
/// numbers.
pub open spec fn shows_room(
    state: StateView,
    room: Seq<char>,
    listed: Seq<ListedFileView>,
) -> bool {
    &&& forall|i: int, j: int| 0 <= i < j < listed.len() ==> listed[i].id < listed[j].id
    &&& forall|i: int|
        #![trigger listed[i]]
        0 <= i < listed.len() ==> state.db.in_room(listed[i].id, room) && listed[i] == shown(
            state.db.files[listed[i].id],
            state.claimant(listed[i].id),
        )
    &&& forall|id: i64| #[trigger]
        state.db.in_room(id, room) ==> exists|i: int|
            0 <= i < listed.len() && (#[trigger] listed[i]).id == id
}

impl AppState {
    /// The files of a room, in the order of their numbers, each with the user
    /// who labels it at the moment.
    pub fn list_room_files(&self, room: &str) -> (listed: Vec<ListedFile>)
        requires
            self.wf(),
        ensures
            shows_room(self@, room@, listed_views(listed@)),
    {
        let files = self.db().list_files_in_room(room);
        let ghost rows = files@.map_values(|f: FileRecord| f@);
        let mut listed: Vec<ListedFile> = Vec::new();
        let mut i: usize = 0;
        while i < files.len()
            invariant
                self.wf(),
                i <= files.len(),
                listed.len() == i,
                forall|j: int|
                    #![trigger listed@[j]]
                    0 <= j < i ==> listed@[j]@ == shown(
                        files@[j]@,
                        self@.claimant(files@[j].id),
                    ),
            decreases files.len() - i,
        {
            let annotating_by = self.claim_owner(files[i].id);
            let file = files[i].clone();
            listed.push(
                ListedFile {
                    id: file.id,
                    name: file.name,
                    size: file.size,
                    uploaded: file.uploaded,
                    owner: file.owner,
                    duration: file.duration,
                    status: file.status,
                    annotated_by: file.annotated_by,
                    updated_at: file.updated_at,
                    annotating_by,
                },
            );
            i = i + 1;
        }
        proof {
            let views = listed_views(listed@);
            assert forall|k: int| #![trigger views[k]] 0 <= k < views.len() implies {
                views[k] == shown(rows[k], self@.claimant(rows[k].id)) && self@.db.in_room(
                    views[k].id,
                    room@,
                ) && self@.db.files[views[k].id] == rows[k]
            } by {
                assert(views[k] == listed@[k]@);
                assert(rows[k] == files@[k]@);
            }
            assert forall|j: int, k: int| 0 <= j < k < views.len() implies views[j].id
                < views[k].id by {
                assert(rows[j].id < rows[k].id);
            }
            assert forall|id: i64| #[trigger] self@.db.in_room(id, room@) implies exists|k: int|
                0 <= k < views.len() && (#[trigger] views[k]).id == id by {
                assert(self@.db.files.contains_key(id));
                let k = choose|k: int|
                    0 <= k < rows.len() && #[trigger] rows[k] == self@.db.files[id];
                assert(views[k].id == id);
            }
        }
        listed
    }
}

/// What a part of an upload is for, by its name.
#[derive(Debug, Clone, Copy, PartialEq, Eq, Structural)]
pub enum FormField {
    User,
    File,
    Other,
}

/// What a part of an upload is for.
pub fn form_field(name: Option<&str>) -> (field: FormField)
    ensures
        field == match name {
            Some(n) => if n@ == "user"@ {
                FormField::User
            } else if n@ == "file"@ {
                FormField::File
            } else {
                FormField::Other
            },
            None => FormField::Other,
        },
{
    match name {
        Some(n) => if same_text(n, "user") {
            FormField::User
        } else if same_text(n, "file") {
            FormField::File
        } else {
            FormField::Other
        },
        None => FormField::Other,
    }
}

/// The parts of an upload that have arrived. A later part takes the place of
/// an earlier one for the same purpose.
#[derive(Debug, PartialEq, Eq)]
pub struct UploadForm {
    pub user: Option<String>,
    pub data: Option<Vec<u8>>,
}

impl UploadForm {
    /// No part has arrived.
    pub fn new() -> (form: UploadForm)
        ensures
            form.user is None,
            form.data is None,
    {
        UploadForm { user: None, data: None }
    }

    /// The name of whoever uploads has arrived.
    pub fn set_user(&mut self, user: String)
        ensures
            *final(self) == (UploadForm { user: Some(user), data: old(self).data }),
    {
        self.user = Some(user);
    }

    /// The bytes have arrived.
    pub fn set_data(&mut self, data: Vec<u8>)
        ensures
            *final(self) == (UploadForm { user: old(self).user, data: Some(data) }),
    {
        self.data = Some(data);
    }

    /// Both parts, once the upload has ended.
    pub fn complete(self) -> (parts: Result<(String, Vec<u8>), Status>)
        ensures
            match parts {
                Ok((user, data)) => self.user == Some(user) && self.data == Some(data),
                Err(s) => (self.user is None || self.data is None) && s == Status::BadRequest,
            },
    {
        match (self.user, self.data) {
            (Some(user), Some(data)) => Ok((user, data)),
            _ => Err(Status::BadRequest),
        }
    }
}

/// The name under which the bytes of a file are stored: a random identifier
/// with the extension of the file.
pub open spec fn stored_name(uuid: Seq<char>, name: Seq<char>, style: PathStyle) -> Seq<char> {
    uuid + "."@ + match extension_of(name, style) {
        Some(e) => e,
        None => "bin"@,
    }
}

/// Why an upload is refused, if it is: the file must be in the room, whoever
/// uploads must own it, and it must not have been uploaded before.
pub open spec fn upload_refusal(
    db: DbView,
    room: Seq<char>,
    id: i64,
    user: Seq<char>,
) -> Option<Status> {
    match db.file(id) {
        None => Some(Status::NotFound),
        Some(f) => if f.room_id != room {
            Some(Status::NotFound)
        } else if f.owner != Some(user) {
            Some(Status::Forbidden)
        } else if f.uploaded {
            Some(Status::Conflict)
        } else {
            None
        },
    }
}

/// An upload that has been let in: the bytes go to `stored`.
#[derive(Debug, PartialEq, Eq)]
pub struct Upload {
    pub room: String,
    pub id: i64,
    pub stored: String,
}

/// An upload whose bytes have been written.
#[derive(Debug, PartialEq, Eq)]
pub struct WrittenUpload {
    pub room: String,
    pub id: i64,
    pub changes: Vec<Change>,
}

impl AppState {
    /// Lets an upload in, or refuses it. The bytes are to be stored under the
    /// given identifier.
    pub fn plan_upload(
        &self,
        room: &str,
        id: i64,
        user: &str,
        uuid: &str,
        style: PathStyle,
    ) -> (plan: Result<Upload, Status>)
        requires
            self.wf(),
        ensures
            match plan {
                Ok(u) => upload_refusal(self@.db, room@, id, user@) is None && u.room@ == room@
                    && u.id == id && u.stored@ == stored_name(
                    uuid@,
                    self@.db.files[id].name,
                    style,
                ),
                Err(s) => upload_refusal(self@.db, room@, id, user@) == Some(s),
            },
    {
        let file = match self.db().get_file(id) {
            Some(f) => f,
            None => {
                return Err(Status::NotFound);
            },
        };
        if !same_text(&file.room_id, room) {
            return Err(Status::NotFound);
        }
        let owned = match &file.owner {
            Some(owner) => same_text(owner, user),
            None => false,
        };
        if !owned {
            return Err(Status::Forbidden);
        }
        if file.uploaded {
            return Err(Status::Conflict);
        }
        let mut stored = uuid.to_owned();
        stored.append(".");
        match extension(&file.name, style) {
            Some(e) => stored.append(&e),
            None => stored.append("bin"),
        }
        Ok(Upload { room: room.to_owned(), id, stored })
    }

    /// Lets an upload in, or refuses it. The bytes are to be stored under a
    /// random identifier.
    pub fn upload_room_audio(
        &self,
        room: &str,
        id: i64,
        user: &str,
        style: PathStyle,
    ) -> (plan: Result<Upload, Status>)
        requires
            self.wf(),
        ensures
            match plan {
                Ok(u) => upload_refusal(self@.db, room@, id, user@) is None && u.room@ == room@
                    && u.id == id && exists|uuid: Seq<char>| #[trigger]
                    is_uuid(uuid) && u.stored@ == stored_name(
                    uuid,
                    self@.db.files[id].name,
                    style,
                ),
                Err(s) => upload_refusal(self@.db, room@, id, user@) == Some(s),
            },
    {
        let uuid = random_uuid();
        self.plan_upload(room, id, user, &uuid, style)
    }

    /// The row to write once the application has tried to write the bytes.
    pub fn record_upload(&self, upload: Upload, written: bool) -> (plan: Result<
        WrittenUpload,
        Status,
    >)
        requires
            self.wf(),
        ensures
            match plan {
                Ok(w) => written && w.room@ == upload.room@ && w.id == upload.id && change_views(
                    w.changes@,
                ) == match self@.db.uploaded_file(upload.id, upload.stored@) {
                    Some(row) => seq![ChangeView::PutFile(row)],
                    None => seq![],
                },
                Err(s) => !written && s == Status::InternalServerError,
            },
    {
        if !written {
            return Err(Status::InternalServerError);
        }
        let mut changes: Vec<Change> = Vec::new();
        match self.db().mark_uploaded(upload.id, &upload.stored) {
            Some(change) => {
                changes.push(change);
                proof {
                    assert(change_views(changes@) =~= seq![change@]);
                }
            },
            None => {
                proof {
                    assert(change_views(changes@) =~= seq![]);
                }
            },
        }
        Ok(WrittenUpload { room: upload.room, id: upload.id, changes })
    }

    /// Records an upload whose row was stored, and tells the room. The answer
    /// is the number of the file.
    pub fn finish_upload(&mut self, upload: WrittenUpload, stored: usize) -> (answer: Result<
        i64,
        Status,
    >)
        requires
            old(self).wf(),
        ensures
            final(self).wf(),
            ({
                let after = old(self)@.changed(
                    change_views(upload.changes@).take(at_most(stored, upload.changes@.len())),
                );
                match answer {
                    Ok(id) => stored >= upload.changes@.len() && id == upload.id && final(self)@
                        == after.broadcast(
                        upload.room@,
                        (ServerMessageView::FileUploaded { file_id: upload.id }).text(),
                    ),
                    Err(s) => stored < upload.changes@.len() && s == Status::InternalServerError
                        && final(self)@ == after,
                }
            }),
    {
        self.commit_first(&upload.changes, bounded(stored, upload.changes.len()));
        if stored < upload.changes.len() {
            return Err(Status::InternalServerError);
        }
        self.announce(&upload.room, &ServerMessage::FileUploaded { file_id: upload.id });
        Ok(upload.id)
    }
}

/// The texts that can be the value of a header: no control characters but the
/// tabulator.
pub open spec fn is_header_text(text: Seq<char>) -> bool {
    forall|i: int|
        #![trigger text[i]]
        0 <= i < text.len() ==> text[i] == '\t' || (text[i] >= ' ' && text[i] != '\u{7f}')
}

/// Calls `HeaderValue::from_str` of the crate `http`, which `axum` passes on:
/// it takes a text whose bytes are all from 32 on but 127, or a tabulator. The
/// bytes of a character outside ASCII are all from 128 on.
#[verifier::external_body]
fn header_accepts(text: &str) -> (accepts: bool)
    ensures
        accepts == is_header_text(text@),
{
    axum::http::HeaderValue::from_str(text).is_ok()
}

/// How a browser is told to save a file of this name.
pub open spec fn disposition_of(name: Seq<char>) -> Seq<char> {
    "attachment; filename=\""@ + name + "\""@
}

/// A download that has been let in: the bytes are at `path`.
#[derive(Debug, PartialEq, Eq)]
pub struct Download {
    pub path: String,
    pub name: String,
}

/// The headers of a download.
#[derive(Debug, PartialEq, Eq)]
pub struct DownloadHead {
    pub content_type: &'static str,
    pub content_disposition: String,
}

impl AppState {
    /// Where the bytes of a file are, if they have been uploaded.
    pub fn download_audio(&self, id: i64) -> (plan: Result<Download, Status>)
        requires
            self.wf(),
        ensures
            match plan {
                Ok(d) => match self@.db.file(id) {
                    Some(f) => f.uploaded && d.path@ == f.path && d.name@ == f.name,
                    None => false,
                },
                Err(s) => s == Status::NotFound && match self@.db.file(id) {
                    Some(f) => !f.uploaded,
                    None => true,
                },
            },
    {
        match self.db().get_file(id) {
            Some(file) => if file.uploaded {
                Ok(Download { path: file.path, name: file.name })
            } else {
                Err(Status::NotFound)
            },
            None => Err(Status::NotFound),
        }
    }
}

/// The headers of a download, once the application has tried to read the bytes.
pub fn finish_download(download: &Download, read: bool, style: PathStyle) -> (head: Result<
    DownloadHead,
    Status,
>)
    ensures
        match head {
            Ok(h) => read && is_header_text(disposition_of(download.name@)) && h.content_type@
                == mime_of(extension_of(download.name@, style)) && h.content_disposition@
                == disposition_of(download.name@),
            Err(s) => if !read {
                s == Status::NotFound
            } else {
                !is_header_text(disposition_of(download.name@)) && s == Status::InternalServerError
            },
        },
{
    if !read {
        return Err(Status::NotFound);
    }
    let content_type = mime_for(&download.name, style);
    let mut content_disposition = "attachment; filename=\"".to_owned();
    content_disposition.append(&download.name);
    content_disposition.append("\"");
    if !header_accepts(&content_disposition) {
        return Err(Status::InternalServerError);
    }
    Ok(DownloadHead { content_type, content_disposition })
}

/// A label that somebody gives to a file.
#[derive(Debug, PartialEq, Eq)]
pub struct Label {
    pub is_check: i64,
    pub lab: String,
    pub lab_without_tone: String,
    pub raw_text: String,
    pub user: String,
}

/// The row of a label.
pub open spec fn label_row(id: i64, label: Label, now: Seq<char>) -> AnnotationRow {
    AnnotationRow {
        file_id: id,
        is_check: label.is_check,
        lab: label.lab@,
        lab_without_tone: label.lab_without_tone@,
        raw_text: label.raw_text@,
        annotated_by: Some(label.user@),
        updated_at: Some(now),
    }
}

/// The rows that a label of a file writes: the label, and the file as
/// labelled.
pub open spec fn label_rows(db: DbView, id: i64, label: Label, now: Seq<char>) -> Seq<ChangeView> {
    seq![
        ChangeView::PutAnnotation(label_row(id, label, now)),
        ChangeView::PutFile(
            FileRow {
                status: "done"@,
                annotated_by: Some(label.user@),
                updated_at: Some(now),
                ..db.files[id]
            },
        ),
    ]
}

/// The message about a label.
pub open spec fn label_message(id: i64, label: Label) -> ServerMessageView {
    ServerMessageView::Annotated {
        user: label.user@,
        file_id: id,
        is_check: label.is_check,
        lab: label.lab@,
        lab_without_tone: label.lab_without_tone@,
        raw_text: label.raw_text@,
    }
}

/// A label to be recorded, and the room that is to hear of it.
#[derive(Debug, PartialEq, Eq)]
pub struct LabelPlan {
    pub room: String,
    pub id: i64,
    pub label: Label,
    pub changes: Vec<Change>,
}

/// The state when a label has been recorded: whoever gave it no longer holds
/// the file, and a room hears of the label and of how far it is.
pub open spec fn labelled(state: StateView, room: Seq<char>, id: i64, label: Label) -> StateView {
    let free = state.released(id, label.user@);
    free.broadcast(room, label_message(id, label).text()).broadcast(
        room,
        free.progress_message(room).text(),
    )
}

/// The annotation that a file has without a label.
pub open spec fn no_label(id: i64) -> AnnotationRow {
    AnnotationRow {
        file_id: id,
        is_check: 0,
        lab: ""@,
        lab_without_tone: ""@,
        raw_text: ""@,
        annotated_by: None,
        updated_at: None,
    }
}

impl AppState {
    /// The annotation of a file.
    pub fn get_annotation(&self, id: i64) -> (annotation: Annotation)
        requires
            self.wf(),
        ensures
            annotation@ == match self@.db.annotation(id) {
                Some(a) => a,
                None => no_label(id),
            },
    {
        match self.db().get_annotation(id) {
            Some(a) => a,
            None => Annotation {
                file_id: id,
                is_check: 0,
                lab: "".to_owned(),
                lab_without_tone: "".to_owned(),
                raw_text: "".to_owned(),
                annotated_by: None,
                updated_at: None,
            },
        }
    }

    /// The rows that a label writes. The file must be in the room.
    pub(crate) fn plan_label(&self, room: &str, id: i64, label: Label, now: &str) -> (plan: Option<
        LabelPlan,
    >)
        requires
            self.wf(),
        ensures
            match plan {
                Some(p) => self@.db.in_room(id, room@) && p.room@ == room@ && p.id == id
                    && p.label == label && change_views(p.changes@) == label_rows(
                    self@.db,
                    id,
                    label,
                    now@,
                ),
                None => !self@.db.in_room(id, room@),
            },
    {
        if !self.db().file_in_room(id, room) {
            return None;
        }
        let annotation = Annotation {
            file_id: id,
            is_check: label.is_check,
            lab: label.lab.clone(),
            lab_without_tone: label.lab_without_tone.clone(),
            raw_text: label.raw_text.clone(),
            annotated_by: Some(label.user.clone()),
            updated_at: None,
        };
        let first = match self.db().upsert_annotation(&annotation, &label.user, now) {
            Ok(change) => change,
            Err(_) => {
                return None;
            },
        };
        let second = match self.db().set_file_status(id, "done", Some(label.user.as_str()), now) {
            Some(change) => change,
            None => {
                return None;
            },
        };
        let mut changes: Vec<Change> = Vec::new();
        changes.push(first);
        changes.push(second);
        proof {
            assert(change_views(changes@) =~= label_rows(self@.db, id, label, now@));
        }
        Some(LabelPlan { room: room.to_owned(), id, label, changes })
    }

    /// Tells a room of a label, after whoever gave it has let go of the file.
    pub(crate) fn announce_label(&mut self, room: &str, id: i64, label: Label)
        requires
            old(self).wf(),
        ensures
            final(self).wf(),
            final(self)@ == labelled(old(self)@, room@, id, label),
    {
        self.release_file(id, &label.user);
        let progress = self.progress_of(room);
        self.announce(
            room,
            &ServerMessage::Annotated {
                user: label.user,
                file_id: id,
                is_check: label.is_check,
                lab: label.lab,
                lab_without_tone: label.lab_without_tone,
                raw_text: label.raw_text,
            },
        );
        self.announce(room, &progress);
    }

    /// A label for a file, of which the room of the file is to hear.
    pub fn save_annotation(&self, id: i64, label: Label, now: &str) -> (plan: Result<
        LabelPlan,
        Status,
    >)
        requires
            self.wf(),
        ensures
            match plan {
                Ok(p) => self@.db.file(id) is Some && p.room@ == self@.db.files[id].room_id && p.id
                    == id && p.label == label && change_views(p.changes@) == label_rows(
                    self@.db,
                    id,
                    label,
                    now@,
                ),
                Err(s) => self@.db.file(id) is None && s == Status::NotFound,
            },
    {
        let file = match self.db().get_file(id) {
            Some(f) => f,
            None => {
                return Err(Status::NotFound);
            },
        };
        match self.plan_label(&file.room_id, id, label, now) {
            Some(plan) => Ok(plan),
            None => Err(Status::NotFound),
        }
    }

    /// Records a label whose rows were stored. When both were, the room hears
    /// of it.
    pub fn finish_annotation(&mut self, plan: LabelPlan, stored: usize) -> (answer: Result<
        (),
        Status,
    >)
        requires
            old(self).wf(),
        ensures
            final(self).wf(),
            ({
                let after = old(self)@.changed(
                    change_views(plan.changes@).take(at_most(stored, plan.changes@.len())),
                );
                match answer {
                    Ok(_) => stored >= plan.changes@.len() && final(self)@ == labelled(
                        after,
                        plan.room@,
                        plan.id,
                        plan.label,
                    ),
                    Err(s) => stored < plan.changes@.len() && s == Status::InternalServerError
                        && final(self)@ == after,
                }
            }),
    {
        self.commit_first(&plan.changes, bounded(stored, plan.changes.len()));
        if stored < plan.changes.len() {
            return Err(Status::InternalServerError);
        }
        self.announce_label(&plan.room, plan.id, plan.label);
        Ok(())
    }

    /// How many files are labelled, and how many there are, in all rooms.
    pub fn get_progress(&self) -> (counts: (u64, u64))
        requires
            self.wf(),
        ensures
            (counts.0 as nat, counts.1 as nat) == self@.db.progress(None),
    {
        self.db().progress()
    }
}

} // verus!
