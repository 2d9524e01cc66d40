//! Every call can be made on a state that is in order, whatever its arguments.
use crate::columns::missing_columns;
use crate::db::Db;
use crate::http::{
    draw_room_codes, finish_download, form_field, gen_room_code, room_code, Download, Label,
    LabelPlan, NewFile, NewRoom, Registration, Status, Upload, UploadForm, WrittenUpload,
};
use crate::message::{
    interpret, parse_message, read_fields, ClientMessage, MessageFields, ServerMessage,
};
use crate::record::{Annotation, Change};
use crate::state::AppState;
use crate::text::{extension, is_whitespace, mime_for, same_text, trim, PathStyle};
use crate::ws::Frame;
use serde_json::Value;
use vstd::prelude::*;

verus! {

/// The records can be asked and changed with any arguments.
pub proof fn law_records_can_be_called(
    db: Db,
    changed: &mut Db,
    id: i64,
    text: &str,
    other: &str,
    third: &str,
    size: i64,
    duration: Option<u64>,
    by: Option<&str>,
    annotation: Annotation,
    change: Change,
    changes: &Vec<Change>,
    count: usize,
    names: &Vec<String>,
)
    requires
        db.wf(),
        old(changed).wf(),
        count <= changes@.len(),
    ensures
        call_requires(Db::new, ()),
        call_requires(Db::open, (changes, id)),
        call_requires(Db::commit, (changed, change)),
        call_requires(Db::commit_first, (changed, changes, count)),
        call_requires(Db::room_exists, (&db, text)),
        call_requires(Db::create_room, (&db, text, other, third)),
        call_requires(Db::last_id, (&db,)),
        call_requires(Db::insert_file, (&db, text, other, third, size, text, duration)),
        call_requires(Db::list_files_in_room, (&db, text)),
        call_requires(Db::get_file, (&db, id)),
        call_requires(Db::file_in_room, (&db, id, text)),
        call_requires(Db::mark_uploaded, (&db, id, text)),
        call_requires(Db::set_file_status, (&db, id, text, by, other)),
        call_requires(Db::get_annotation, (&db, id)),
        call_requires(Db::upsert_annotation, (&db, &annotation, text, other)),
        call_requires(Db::progress_for_room, (&db, text)),
        call_requires(Db::progress, (&db,)),
        call_requires(Db::migrate_columns, (&db, text)),
        call_requires(missing_columns, (names,)),
{
}

/// Every request can be made and finished, whatever it says.
pub proof fn law_requests_can_be_made(
    state: AppState,
    changed: &mut AppState,
    text: &str,
    other: &str,
    third: &str,
    fourth: &str,
    id: i64,
    files: &Vec<NewFile>,
    codes: &Vec<String>,
    picks: &Vec<usize>,
    style: PathStyle,
    yes: bool,
    stored: usize,
    status: Status,
    room: NewRoom,
    registration: Registration,
    upload: Upload,
    written: WrittenUpload,
    download: Download,
    label: Label,
    plan: LabelPlan,
    field: Option<&str>,
    form: &mut UploadForm,
    data: Vec<u8>,
    user: String,
    whole: UploadForm,
)
    requires
        state.wf(),
        old(changed).wf(),
        forall|i: int| #![trigger picks@[i]] 0 <= i < picks@.len() ==> picks@[i] < 32,
    ensures
        call_requires(Status::code, (&status,)),
        call_requires(room_code, (picks,)),
        call_requires(gen_room_code, ()),
        call_requires(draw_room_codes, ()),
        call_requires(AppState::plan_room, (&state, text, other, third)),
        call_requires(AppState::plan_from_draws, (&state, text, codes, other)),
        call_requires(AppState::create_room, (&state, text, other)),
        call_requires(AppState::finish_room, (changed, room, stored)),
        call_requires(AppState::register_files, (&state, text, other, files)),
        call_requires(AppState::finish_registration, (changed, registration, stored)),
        call_requires(AppState::list_room_files, (&state, text)),
        call_requires(form_field, (field,)),
        call_requires(UploadForm::new, ()),
        call_requires(UploadForm::set_user, (form, user)),
        call_requires(UploadForm::set_data, (form, data)),
        call_requires(UploadForm::complete, (whole,)),
        call_requires(AppState::plan_upload, (&state, text, id, other, third, style)),
        call_requires(AppState::upload_room_audio, (&state, text, id, other, style)),
        call_requires(AppState::record_upload, (&state, upload, yes)),
        call_requires(AppState::finish_upload, (changed, written, stored)),
        call_requires(AppState::download_audio, (&state, id)),
        call_requires(finish_download, (&download, yes, style)),
        call_requires(AppState::get_annotation, (&state, id)),
        call_requires(AppState::save_annotation, (&state, id, label, text)),
        call_requires(AppState::finish_annotation, (changed, plan, stored)),
        call_requires(AppState::get_progress, (&state,)),
{
}

/// Every connection can be made, heard and ended, whatever comes over it.
pub proof fn law_connections_can_be_made(
    state: AppState,
    changed: &mut AppState,
    db: Db,
    changes: &Vec<Change>,
    count: usize,
    room: &str,
    user: &str,
    text: &str,
    now: &str,
    conn: u64,
    id: i64,
    message: ServerMessage,
    heard: ClientMessage,
    frame: Frame,
    plan: LabelPlan,
    stored: usize,
)
    requires
        db.wf(),
        state.wf(),
        old(changed).wf(),
        count <= changes@.len(),
    ensures
        call_requires(AppState::new, (db,)),
        call_requires(AppState::db, (&state,)),
        call_requires(AppState::commit_first, (changed, changes, count)),
        call_requires(AppState::room_channel, (changed, room)),
        call_requires(AppState::broadcast_to, (changed, room, text)),
        call_requires(AppState::send_to, (changed, conn, text)),
        call_requires(AppState::take_outbox, (changed,)),
        call_requires(AppState::claim_file, (changed, room, id, user)),
        call_requires(AppState::release_file, (changed, id, user)),
        call_requires(AppState::release_all, (changed, user)),
        call_requires(AppState::claim_owner, (&state, id)),
        call_requires(AppState::announce, (changed, room, &message)),
        call_requires(AppState::tell, (changed, conn, &message)),
        call_requires(AppState::progress_of, (&state, room)),
        call_requires(AppState::client_of, (&state, room, user)),
        call_requires(AppState::join, (changed, room, user, conn)),
        call_requires(AppState::leave, (changed, room, user)),
        call_requires(AppState::ws_handler, (&state, user, room)),
        call_requires(AppState::connect, (changed, room, user, conn)),
        call_requires(AppState::handle_file_request, (changed, room, user, conn, id)),
        call_requires(AppState::handle_message, (changed, room, user, conn, heard, now)),
        call_requires(AppState::handle_client_message, (changed, room, user, conn, text, now)),
        call_requires(AppState::hear, (changed, room, user, conn, frame, now)),
        call_requires(AppState::finish_label, (changed, plan, stored)),
        call_requires(AppState::disconnect, (changed, room, user)),
{
}

/// Every text can be read, compared, trimmed and taken apart.
pub proof fn law_texts_can_be_read(
    text: &str,
    other: &str,
    c: char,
    style: PathStyle,
    value: Value,
    fields: MessageFields,
    message: ServerMessage,
)
    ensures
        call_requires(is_whitespace, (c,)),
        call_requires(same_text, (text, other)),
        call_requires(trim, (text,)),
        call_requires(extension, (text, style)),
        call_requires(mime_for, (text, style)),
        call_requires(ServerMessage::to_json, (&message,)),
        call_requires(ServerMessage::to_text, (&message,)),
        call_requires(read_fields, (&value,)),
        call_requires(interpret, (fields,)),
        call_requires(parse_message, (text,)),
{
}

} // verus!
