//! The connections over WebSocket.
use crate::http::{at_most, label_rows, labelled, Label, LabelPlan, Status};
use crate::json::json_parse;
use crate::message::{
    parse_message, read_message, ClientMessage, ClientMessageView, ServerMessage, ServerMessageView,
};
use crate::record::change_views;
use crate::state::{AppState, StateView};
use crate::text::{same_text, trim, trimmed};
use vstd::prelude::*;

verus! {

/// Somebody who may come into a room.
#[derive(Debug, PartialEq, Eq)]
pub struct Visitor {
    pub user: String,
    pub room: String,
}

/// What has come over a connection.
#[derive(Debug, PartialEq, Eq)]
pub enum Frame {
    Text(String),
    Binary,
    Ping,
    Pong,
    Close,
}

/// What to do when something has come over a connection.
#[derive(Debug, PartialEq, Eq)]
pub enum Heard {
    /// Wait for more.
    Listen,
    /// Store a label, record it, and wait for more.
    Record(LabelPlan),
    /// End the connection.
    End,
}

/// The state when a claim has been heard: everybody in the room learns of one
/// that is granted, and whoever made it of one that is not.
pub open spec fn after_claim(
    state: StateView,
    room: Seq<char>,
    user: Seq<char>,
    conn: u64,
    file_id: i64,
) -> StateView {
    if state.may_claim(room, file_id, user) {
        state.claimed(file_id, user).broadcast(
            room,
            (ServerMessageView::Presence { user, file_id }).text(),
        )
    } else {
        state.send(
            conn,
            (ServerMessageView::ClaimRejected { file_id, owner: state.claimant(file_id) }).text(),
        )
    }
}

/// The state when the room of a file has been told that a user labels it no
/// longer.
pub open spec fn release_announced(state: StateView, user: Seq<char>, file_id: i64) -> StateView {
    match state.db.file(file_id) {
        Some(file) => state.broadcast(
            file.room_id,
            (ServerMessageView::Release { user, file_id }).text(),
        ),
        None => state,
    }
}

/// The state when a release has been heard: everybody in the room of the file
/// learns of it, if the user held the file.
pub open spec fn after_release(state: StateView, user: Seq<char>, file_id: i64) -> StateView {
    if state.claimant(file_id) == Some(user) {
        release_announced(state.released(file_id, user), user, file_id)
    } else {
        state
    }
}

/// The state when somebody has asked for the bytes of a file. Where they are
/// there, they are told so. Otherwise the owner is asked for them, unless the
/// owner is the one who asks. An owner who is not connected, or unknown, cannot
/// be asked. Files of other rooms are passed over.
pub open spec fn after_request(
    state: StateView,
    room: Seq<char>,
    user: Seq<char>,
    conn: u64,
    file_id: i64,
) -> StateView {
    if !state.db.in_room(file_id, room) {
        state
    } else {
        let file = state.db.files[file_id];
        if file.uploaded {
            state.send(conn, (ServerMessageView::FileReady { file_id }).text())
        } else {
            match file.owner {
                None => state.send(conn, (ServerMessageView::FileUnavailable { file_id }).text()),
                Some(owner) => if owner == user {
                    state
                } else {
                    match state.client(room, owner) {
                        Some(owner_conn) => state.send(
                            owner_conn,
                            (ServerMessageView::FileRequested { file_id }).text(),
                        ),
                        None => state.send(
                            conn,
                            (ServerMessageView::FileUnavailable { file_id }).text(),
                        ),
                    }
                },
            }
        }
    }
}

/// The state when a message has been heard. A label is recorded later, when its
/// rows have been stored.
pub open spec fn after_message(
    state: StateView,
    room: Seq<char>,
    user: Seq<char>,
    conn: u64,
    message: Option<ClientMessageView>,
) -> StateView {
    match message {
        Some(ClientMessageView::Claim { file_id }) => after_claim(state, room, user, conn, file_id),
        Some(ClientMessageView::Release { file_id }) => after_release(state, user, file_id),
        Some(ClientMessageView::RequestFile { file_id }) => after_request(
            state,
            room,
            user,
            conn,
            file_id,
        ),
        Some(ClientMessageView::Annotate { .. }) => state,
        None => state,
    }
}

/// Whether `plan` is the label that a message asks to record: it asks for one
/// when it labels a file of the room. Files of other rooms are passed over.
pub open spec fn asks_label(
    state: StateView,
    room: Seq<char>,
    user: Seq<char>,
    now: Seq<char>,
    message: Option<ClientMessageView>,
    plan: Option<LabelPlan>,
) -> bool {
    match message {
        Some(
            ClientMessageView::Annotate { file_id, is_check, lab, lab_without_tone, raw_text },
        ) => match plan {
            Some(p) => {
                &&& state.db.in_room(file_id, room)
                &&& p.room@ == room
                &&& p.id == file_id
                &&& p.label.is_check == is_check
                &&& p.label.lab@ == lab
                &&& p.label.lab_without_tone@ == lab_without_tone
                &&& p.label.raw_text@ == raw_text
                &&& p.label.user@ == user
                &&& change_views(p.changes@) == label_rows(state.db, file_id, p.label, now)
            },
            None => !state.db.in_room(file_id, room),
        },
        _ => plan is None,
    }
}

/// The state when the rooms of some files have been told, file by file, that a
/// user labels them no longer.
pub open spec fn release_told(state: StateView, user: Seq<char>, files: Seq<i64>) -> StateView
    decreases files.len(),
{
    if files.len() == 0 {
        state
    } else {
        release_announced(release_told(state, user, files.drop_last()), user, files.last())
    }
}

impl AppState {
    /// Lets somebody into a room, under their trimmed name. The room must be
    /// there under the name as it was given.
    pub fn ws_handler(&self, user: &str, room: &str) -> (visitor: Result<Visitor, Status>)
        requires
            self.wf(),
        ensures
            match visitor {
                Ok(v) => trimmed(user@).len() > 0 && trimmed(room@).len() > 0
                    && self@.db.rooms.contains_key(room@) && v.user@ == trimmed(user@) && v.room@
                    == trimmed(room@),
                Err(s) => if trimmed(user@).len() == 0 || trimmed(room@).len() == 0 {
                    s == Status::BadRequest
                } else {
                    !self@.db.rooms.contains_key(room@) && s == Status::NotFound
                },
            },
    {
        let user_name = trim(user);
        let room_name = trim(room);
        if user_name.is_empty() || room_name.is_empty() {
            return Err(Status::BadRequest);
        }
        if !self.db().room_exists(room) {
            return Err(Status::NotFound);
        }
        Ok(Visitor { user: user_name.to_owned(), room: room_name.to_owned() })
    }

    /// Somebody has come into a room over a connection, which learns how far
    /// the room is. The answer is the channel that the connection is to hear.
    pub fn connect(&mut self, room: &str, user: &str, conn: u64) -> (channel: usize)
        requires
            old(self).wf(),
        ensures
            final(self).wf(),
            final(self)@ == old(self)@.joined(room@, user@, conn).with_channel(room@).send(
                conn,
                old(self)@.progress_message(room@).text(),
            ),
            channel == final(self)@.channel_of(room@),
            channel < final(self)@.channels.len(),
            final(self)@.channels[channel as int] == room@,
    {
        self.join(room, user, conn);
        let channel = self.room_channel(room);
        let progress = self.progress_of(room);
        self.tell(conn, &progress);
        channel
    }

    /// Somebody asks for the bytes of a file.
    pub fn handle_file_request(&mut self, room: &str, user: &str, conn: u64, file_id: i64)
        requires
            old(self).wf(),
        ensures
            final(self).wf(),
            final(self)@ == after_request(old(self)@, room@, user@, conn, file_id),
    {
        let file = match self.db().get_file(file_id) {
            Some(f) => f,
            None => {
                return ;
            },
        };
        if !same_text(&file.room_id, room) {
            return ;
        }
        if file.uploaded {
            self.tell(conn, &ServerMessage::FileReady { file_id });
            return ;
        }
        let owner = match file.owner {
            Some(o) => o,
            None => {
                self.tell(conn, &ServerMessage::FileUnavailable { file_id });
                return ;
            },
        };
        if same_text(&owner, user) {
            return ;
        }
        match self.client_of(room, &owner) {
            Some(owner_conn) => self.tell(owner_conn, &ServerMessage::FileRequested { file_id }),
            None => self.tell(conn, &ServerMessage::FileUnavailable { file_id }),
        }
    }

    /// Tells the room of a file that a user labels it no longer.
    fn announce_release(&mut self, user: &str, file_id: i64)
        requires
            old(self).wf(),
        ensures
            final(self).wf(),
            final(self)@ == release_announced(old(self)@, user@, file_id),
    {
        match self.db().get_file(file_id) {
            Some(file) => self.announce(
                &file.room_id,
                &ServerMessage::Release { user: user.to_owned(), file_id },
            ),
            None => {},
        }
    }

    /// Hears a message that has been read. Where it is a label, the answer is
    /// what to store.
    pub fn handle_message(
        &mut self,
        room: &str,
        user: &str,
        conn: u64,
        message: ClientMessage,
        now: &str,
    ) -> (plan: Option<LabelPlan>)
        requires
            old(self).wf(),
        ensures
            final(self).wf(),
            final(self)@ == after_message(old(self)@, room@, user@, conn, Some(message@)),
            asks_label(old(self)@, room@, user@, now@, Some(message@), plan),
    {
        match message {
            ClientMessage::Claim { file_id } => {
                if self.claim_file(room, file_id, user) {
                    self.announce(
                        room,
                        &ServerMessage::Presence { user: user.to_owned(), file_id },
                    );
                } else {
                    let owner = self.claim_owner(file_id);
                    self.tell(conn, &ServerMessage::ClaimRejected { file_id, owner });
                }
                None
            },
            ClientMessage::Release { file_id } => {
                if self.release_file(file_id, user) {
                    self.announce_release(user, file_id);
                }
                None
            },
            ClientMessage::RequestFile { file_id } => {
                self.handle_file_request(room, user, conn, file_id);
                None
            },
            ClientMessage::Annotate { file_id, is_check, lab, lab_without_tone, raw_text } => {
                let label = Label {
                    is_check,
                    lab,
                    lab_without_tone,
                    raw_text,
                    user: user.to_owned(),
                };
                self.plan_label(room, file_id, label, now)
            },
        }
    }

    /// Hears a text. What is no message is passed over. Where it is a label,
    /// the answer is what to store.
    pub fn handle_client_message(
        &mut self,
        room: &str,
        user: &str,
        conn: u64,
        text: &str,
        now: &str,
    ) -> (plan: Option<LabelPlan>)
        requires
            old(self).wf(),
        ensures
            final(self).wf(),
            final(self)@ == after_message(
                old(self)@,
                room@,
                user@,
                conn,
                read_message(json_parse(text@)),
            ),
            asks_label(old(self)@, room@, user@, now@, read_message(json_parse(text@)), plan),
    {
        match parse_message(text) {
            Some(message) => self.handle_message(room, user, conn, message, now),
            None => None,
        }
    }

    /// Hears what has come over a connection: texts are heard, the other frames
    /// are passed over, but for the one that ends the connection.
    pub fn hear(&mut self, room: &str, user: &str, conn: u64, frame: Frame, now: &str) -> (heard:
        Heard)
        requires
            old(self).wf(),
        ensures
            final(self).wf(),
            match frame {
                Frame::Text(text) => {
                    let message = read_message(json_parse(text@));
                    &&& final(self)@ == after_message(old(self)@, room@, user@, conn, message)
                    &&& match heard {
                        Heard::Listen => asks_label(
                            old(self)@,
                            room@,
                            user@,
                            now@,
                            message,
                            None,
                        ),
                        Heard::Record(plan) => asks_label(
                            old(self)@,
                            room@,
                            user@,
                            now@,
                            message,
                            Some(plan),
                        ),
                        Heard::End => false,
                    }
                },
                Frame::Close => final(self)@ == old(self)@ && heard == Heard::End,
                _ => final(self)@ == old(self)@ && heard == Heard::Listen,
            },
    {
        match frame {
            Frame::Text(text) => match self.handle_client_message(room, user, conn, &text, now) {
                Some(plan) => Heard::Record(plan),
                None => Heard::Listen,
            },
            Frame::Close => Heard::End,
            _ => Heard::Listen,
        }
    }

    /// Records a label that came over a connection, when at least its first row
    /// was stored. That the file counts as labelled may have got lost.
    pub fn finish_label(&mut self, plan: LabelPlan, stored: usize)
        requires
            old(self).wf(),
        ensures
            final(self).wf(),
            final(self)@ == if at_most(stored, plan.changes@.len()) == 0 {
                old(self)@
            } else {
                labelled(
                    old(self)@.changed(
                        change_views(plan.changes@).take(at_most(stored, plan.changes@.len())),
                    ),
                    plan.room@,
                    plan.id,
                    plan.label,
                )
            },
    {
        let count: usize = if stored <= plan.changes.len() {
            stored
        } else {
            plan.changes.len()
        };
        if count == 0 {
            return ;
        }
        self.commit_first(&plan.changes, count);
        self.announce_label(&plan.room, plan.id, plan.label);
    }

    /// Somebody's connection to a room has ended: they hold no file any longer,
    /// and of each that they held its own room is told. The answer lists these.
    pub fn disconnect(&mut self, room: &str, user: &str) -> (released: Vec<i64>)
        requires
            old(self).wf(),
        ensures
            final(self).wf(),
            released@.no_duplicates(),
            forall|id: i64| #[trigger]
                released@.contains(id) <==> old(self)@.claimant(id) == Some(user@),
            final(self)@ == release_told(
                old(self)@.all_released(user@),
                user@,
                released@,
            ).left(room@, user@),
    {
        let released = self.release_all(user);
        let ghost free = self@;
        let mut i: usize = 0;
        proof {
            assert(released@.take(0).len() == 0);
        }
        while i < released.len()
            invariant
                self.wf(),
                i <= released.len(),
                self@ == release_told(free, user@, released@.take(i as int)),
            decreases released.len() - i,
        {
            self.announce_release(user, released[i]);
            proof {
                assert(released@.take(i + 1).drop_last() =~= released@.take(i as int));
                assert(released@.take(i + 1).last() == released@[i as int]);
            }
            i = i + 1;
        }
        proof {
            assert(released@.take(i as int) =~= released@);
        }
        self.leave(room, user);
        released
    }
}

} // verus!
