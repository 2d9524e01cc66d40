//! What the server knows at a moment: the records, who labels which file, who
//! is connected, and what is still to be sent.
use crate::db::{Db, DbView};
use crate::laws::records::law_nothing_is_removed;
use crate::message::{ServerMessage, ServerMessageView};
use crate::record::{change_views, opt_text, Change, ChangeView};
use crate::text::same_text;
use std::collections::HashMap;
use vstd::prelude::*;

verus! {

broadcast use vstd::std_specs::hash::group_hash_axioms;

/// Whom a message is for: everybody on a channel, or one connection.
#[derive(Debug, Clone, Copy, PartialEq, Eq)]
pub enum Target {
    Room(usize),
    Client(u64),
}

/// A message to send.
#[derive(Debug, PartialEq, Eq)]
pub struct Delivery {
    pub to: Target,
    pub text: String,
}

/// What a `Target` says.
pub enum TargetView {
    Room(int),
    Client(u64),
}

/// What a `Delivery` says.
pub struct DeliveryView {
    pub to: TargetView,
    pub text: Seq<char>,
}

impl View for Target {
    type V = TargetView;

    open spec fn view(&self) -> TargetView {
        match self {
            Target::Room(channel) => TargetView::Room(*channel as int),
            Target::Client(conn) => TargetView::Client(*conn),
        }
    }
}

impl View for Delivery {
    type V = DeliveryView;

    open spec fn view(&self) -> DeliveryView {
        DeliveryView { to: self.to@, text: self.text@ }
    }
}

/// Somebody who is connected to a room, and their connection.
struct Client {
    room: String,
    user: String,
    conn: u64,
}

/// The state of the server.
#[verifier::ext_equal]
pub struct StateView {
    pub db: DbView,
    /// Who labels a file.
    pub claims: Map<i64, Seq<char>>,
    /// The connection of a user in a room.
    pub clients: Map<(Seq<char>, Seq<char>), u64>,
    /// The rooms that have a channel. A channel is known by its place here.
    pub channels: Seq<Seq<char>>,
    /// What is to be sent, in this order.
    pub outbox: Seq<DeliveryView>,
}

impl StateView {
    /// A server to which nobody has talked yet.
    pub open spec fn start(db: DbView) -> StateView {
        StateView {
            db,
            claims: Map::empty(),
            clients: Map::empty(),
            channels: Seq::empty(),
            outbox: Seq::empty(),
        }
    }

    /// The records are in order, every file that somebody holds is there, and
    /// no two channels are of one room.
    pub open spec fn wf(self) -> bool {
        &&& self.db.wf()
        &&& forall|id: i64| #[trigger]
            self.claims.contains_key(id) ==> self.db.files.contains_key(id)
        &&& self.channels.no_duplicates()
    }

    /// The channel of a room that has one.
    pub open spec fn channel_of(self, room: Seq<char>) -> int {
        self.channels.index_of(room)
    }

    /// The state once a room has a channel.
    pub open spec fn with_channel(self, room: Seq<char>) -> StateView {
        if self.channels.contains(room) {
            self
        } else {
            StateView { channels: self.channels.push(room), ..self }
        }
    }

    /// The state when a message for a room is to be sent.
    pub open spec fn broadcast(self, room: Seq<char>, text: Seq<char>) -> StateView {
        let open = self.with_channel(room);
        StateView {
            outbox: open.outbox.push(
                DeliveryView { to: TargetView::Room(open.channel_of(room)), text },
            ),
            ..open
        }
    }

    /// The state when a message for one connection is to be sent.
    pub open spec fn send(self, conn: u64, text: Seq<char>) -> StateView {
        StateView {
            outbox: self.outbox.push(DeliveryView { to: TargetView::Client(conn), text }),
            ..self
        }
    }

    /// Who labels a file, if anybody does.
    pub open spec fn claimant(self, file_id: i64) -> Option<Seq<char>> {
        if self.claims.contains_key(file_id) {
            Some(self.claims[file_id])
        } else {
            None
        }
    }

    /// Whether a user in a room can claim a file: it belongs to the room, and
    /// nobody else holds it.
    pub open spec fn may_claim(self, room: Seq<char>, file_id: i64, user: Seq<char>) -> bool {
        self.db.in_room(file_id, room) && (self.claimant(file_id) is None || self.claimant(file_id)
            == Some(user))
    }

    /// The state when a user holds a file.
    pub open spec fn claimed(self, file_id: i64, user: Seq<char>) -> StateView {
        StateView { claims: self.claims.insert(file_id, user), ..self }
    }

    /// The state when a user does not hold a file.
    pub open spec fn released(self, file_id: i64, user: Seq<char>) -> StateView {
        if self.claimant(file_id) == Some(user) {
            StateView { claims: self.claims.remove(file_id), ..self }
        } else {
            self
        }
    }

    /// The state when a user holds no file.
    pub open spec fn all_released(self, user: Seq<char>) -> StateView {
        StateView {
            claims: Map::new(
                |id: i64| self.claims.contains_key(id) && self.claims[id] != user,
                |id: i64| self.claims[id],
            ),
            ..self
        }
    }

    /// The connection of a user in a room, if they are connected.
    pub open spec fn client(self, room: Seq<char>, user: Seq<char>) -> Option<u64> {
        if self.clients.contains_key((room, user)) {
            Some(self.clients[(room, user)])
        } else {
            None
        }
    }

    /// The state when a user has come into a room.
    pub open spec fn joined(self, room: Seq<char>, user: Seq<char>, conn: u64) -> StateView {
        StateView { clients: self.clients.insert((room, user), conn), ..self }
    }

    /// The state when a user has left a room.
    pub open spec fn left(self, room: Seq<char>, user: Seq<char>) -> StateView {
        StateView { clients: self.clients.remove((room, user)), ..self }
    }

    /// The state after the changes of some rows.
    pub open spec fn changed(self, changes: Seq<ChangeView>) -> StateView {
        StateView { db: self.db.apply_all(changes), ..self }
    }

    /// How far a room is, as a message.
    pub open spec fn progress_message(self, room: Seq<char>) -> ServerMessageView {
        let counts = self.db.progress(Some(room));
        ServerMessageView::Progress { done: counts.0, total: counts.1 }
    }
}

/// Whether no two entries are of one user in one room.
spec fn separate(clients: Seq<Client>) -> bool {
    forall|i: int, j: int|
        0 <= i < j < clients.len() ==> (clients[i].room@, clients[i].user@) != (
            clients[j].room@,
            clients[j].user@,
        )
}

spec fn has_client(clients: Seq<Client>, key: (Seq<char>, Seq<char>)) -> bool {
    exists|i: int|
        #![trigger clients[i]]
        0 <= i < clients.len() && (clients[i].room@, clients[i].user@) == key
}

spec fn client_place(clients: Seq<Client>, key: (Seq<char>, Seq<char>)) -> int {
    choose|i: int|
        #![trigger clients[i]]
        0 <= i < clients.len() && (clients[i].room@, clients[i].user@) == key
}

/// The connections by room and user.
spec fn client_map(clients: Seq<Client>) -> Map<(Seq<char>, Seq<char>), u64> {
    Map::new(
        |key: (Seq<char>, Seq<char>)| has_client(clients, key),
        |key: (Seq<char>, Seq<char>)| clients[client_place(clients, key)].conn,
    )
}

proof fn lemma_client_map(clients: Seq<Client>, i: int)
    requires
        separate(clients),
        0 <= i < clients.len(),
    ensures
        client_map(clients).contains_key((clients[i].room@, clients[i].user@)),
        client_map(clients)[(clients[i].room@, clients[i].user@)] == clients[i].conn,
{
    let key = (clients[i].room@, clients[i].user@);
    assert(has_client(clients, key));
    let p = client_place(clients, key);
    assert((clients[p].room@, clients[p].user@) == key);
    if p < i {
        assert((clients[p].room@, clients[p].user@) != (clients[i].room@, clients[i].user@));
    } else if i < p {
        assert((clients[i].room@, clients[i].user@) != (clients[p].room@, clients[p].user@));
    }
}

/// The state of the server.
pub struct AppState {
    db: Db,
    claims: HashMap<i64, String>,
    clients: Vec<Client>,
    room_tx: Vec<String>,
    outbox: Vec<Delivery>,
}

impl View for AppState {
    type V = StateView;

    closed spec fn view(&self) -> StateView {
        StateView {
            db: self.db@,
            claims: self.claims@.map_values(|user: String| user@),
            clients: client_map(self.clients@),
            channels: self.room_tx@.map_values(|room: String| room@),
            outbox: self.outbox@.map_values(|d: Delivery| d@),
        }
    }
}

impl AppState {
    /// How the parts are kept.
    pub closed spec fn in_order(&self) -> bool {
        &&& self.db.wf()
        &&& separate(self.clients@)
    }

    /// The invariant of the state.
    pub open spec fn wf(&self) -> bool {
        &&& self.in_order()
        &&& self@.wf()
    }

    /// A server to which nobody has talked yet.
    pub fn new(db: Db) -> (state: AppState)
        requires
            db.wf(),
        ensures
            state.wf(),
            state@ == StateView::start(db@),
    {
        let state = AppState {
            db,
            claims: HashMap::new(),
            clients: Vec::new(),
            room_tx: Vec::new(),
            outbox: Vec::new(),
        };
        proof {
            assert(state@ =~= StateView::start(db@));
        }
        state
    }

    /// The records.
    pub fn db(&self) -> (db: &Db)
        requires
            self.wf(),
        ensures
            db.wf(),
            db@ == self@.db,
    {
        &self.db
    }

    /// Makes the first `count` of the changes, in their order.
    pub fn commit_first(&mut self, changes: &Vec<Change>, count: usize)
        requires
            old(self).wf(),
            count <= changes.len(),
        ensures
            final(self).wf(),
            final(self)@ == old(self)@.changed(change_views(changes@).take(count as int)),
    {
        proof {
            let views = change_views(changes@).take(count as int);
            law_nothing_is_removed(self@.db, views);
            assert forall|id: i64| #[trigger] self@.claims.contains_key(id) implies {
                self@.changed(views).db.files.contains_key(id)
            } by {
                assert(self@.db.files.dom().contains(id));
            }
        }
        self.db.commit_first(changes, count);
        proof {
            assert(self@.claims == old(self)@.claims);
        }
    }

    /// The channel of a room, which is made when it is first asked for.
    pub fn room_channel(&mut self, room: &str) -> (channel: usize)
        requires
            old(self).wf(),
        ensures
            final(self).wf(),
            final(self)@ == old(self)@.with_channel(room@),
            channel == final(self)@.channel_of(room@),
            channel < final(self)@.channels.len(),
            final(self)@.channels[channel as int] == room@,
    {
        let ghost names = self@.channels;
        let mut i: usize = 0;
        while i < self.room_tx.len()
            invariant
                *self == *old(self),
                self.wf(),
                names == self@.channels,
                i <= self.room_tx.len(),
                forall|j: int| 0 <= j < i ==> names[j] != room@,
            decreases self.room_tx.len() - i,
        {
            if same_text(&self.room_tx[i], room) {
                proof {
                    assert(names[i as int] == room@);
                    assert(names.contains(room@));
                    assert(names[names.index_of(room@)] == room@);
                }
                return i;
            }
            i = i + 1;
        }
        self.room_tx.push(room.to_owned());
        proof {
            assert(self@.channels =~= names.push(room@));
            assert(!names.contains(room@));
            assert(self@.channels[i as int] == room@);
            assert(self@.channels[self@.channels.index_of(room@)] == room@);
            assert(self@ =~= old(self)@.with_channel(room@));
        }
        i
    }

    /// Sends a text to everybody in a room.
    pub fn broadcast_to(&mut self, room: &str, msg: &str)
        requires
            old(self).wf(),
        ensures
            final(self).wf(),
            final(self)@ == old(self)@.broadcast(room@, msg@),
    {
        let channel = self.room_channel(room);
        let ghost open = self@;
        self.outbox.push(Delivery { to: Target::Room(channel), text: msg.to_owned() });
        proof {
            assert(self@.outbox =~= open.outbox.push(
                DeliveryView { to: TargetView::Room(open.channel_of(room@)), text: msg@ },
            ));
        }
    }

    /// Sends a text to one connection.
    pub fn send_to(&mut self, conn: u64, msg: &str)
        requires
            old(self).wf(),
        ensures
            final(self).wf(),
            final(self)@ == old(self)@.send(conn, msg@),
    {
        self.outbox.push(Delivery { to: Target::Client(conn), text: msg.to_owned() });
        proof {
            assert(self@.outbox =~= old(self)@.send(conn, msg@).outbox);
        }
    }

    /// Hands out what is to be sent, in this order.
    pub fn take_outbox(&mut self) -> (deliveries: Vec<Delivery>)
        requires
            old(self).wf(),
        ensures
            final(self).wf(),
            final(self)@ == (StateView { outbox: Seq::empty(), ..old(self)@ }),
            deliveries@.map_values(|d: Delivery| d@) == old(self)@.outbox,
    {
        let mut deliveries: Vec<Delivery> = Vec::new();
        std::mem::swap(&mut deliveries, &mut self.outbox);
        proof {
            assert(self@.outbox =~= Seq::empty());
        }
        deliveries
    }

    /// Gives a file to a user to label, if it belongs to the room and nobody
    /// else holds it.
    pub fn claim_file(&mut self, room: &str, file_id: i64, user: &str) -> (granted: bool)
        requires
            old(self).wf(),
        ensures
            final(self).wf(),
            granted == old(self)@.may_claim(room@, file_id, user@),
            final(self)@ == if granted {
                old(self)@.claimed(file_id, user@)
            } else {
                old(self)@
            },
    {
        if !self.db.file_in_room(file_id, room) {
            return false;
        }
        match self.claims.get(&file_id) {
            Some(owner) => {
                if !same_text(owner, user) {
                    return false;
                }
            },
            None => {},
        }
        self.claims.insert(file_id, user.to_owned());
        proof {
            assert(self@.claims =~= old(self)@.claims.insert(file_id, user@));
        }
        true
    }

    /// Takes a file from a user who holds it.
    pub fn release_file(&mut self, file_id: i64, user: &str) -> (released: bool)
        requires
            old(self).wf(),
        ensures
            final(self).wf(),
            released == (old(self)@.claimant(file_id) == Some(user@)),
            final(self)@ == old(self)@.released(file_id, user@),
    {
        let held = match self.claims.get(&file_id) {
            Some(owner) => same_text(owner, user),
            None => false,
        };
        if held {
            self.claims.remove(&file_id);
            proof {
                assert(self@.claims =~= old(self)@.claims.remove(file_id));
            }
        }
        held
    }

    /// Takes from a user every file they hold, and says which these were, in
    /// some order.
    pub fn release_all(&mut self, user: &str) -> (released: Vec<i64>)
        requires
            old(self).wf(),
        ensures
            final(self).wf(),
            final(self)@ == old(self)@.all_released(user@),
            released@.no_duplicates(),
            forall|id: i64| #[trigger]
                released@.contains(id) <==> old(self)@.claimant(id) == Some(user@),
    {
        let mut released: Vec<i64> = Vec::new();
        let files = self.claimed_files();
        let mut i: usize = 0;
        while i < files.len()
            invariant
                *self == *old(self),
                i <= files.len(),
                files@.no_duplicates(),
                released@.no_duplicates(),
                forall|id: i64| #[trigger]
                    released@.contains(id) <==> self@.claimant(id) == Some(user@) && exists|j: int|
                        0 <= j < i && #[trigger] files@[j] == id,
            decreases files.len() - i,
        {
            let ghost before = released@;
            let id = files[i];
            let held = match self.claims.get(&id) {
                Some(owner) => same_text(owner, user),
                None => false,
            };
            proof {
                assert(!before.contains(id));
            }
            if held {
                released.push(id);
                proof {
                    assert(released@[before.len() as int] == id);
                    assert forall|k: i64| #[trigger]
                        released@.contains(k) <==> (before.contains(k) || k == id) by {
                        if before.contains(k) {
                            let j = choose|j: int| 0 <= j < before.len() && before[j] == k;
                            assert(released@[j] == k);
                        }
                    }
                }
            }
            proof {
                assert(files@[i as int] == id);
            }
            i = i + 1;
        }
        proof {
            assert forall|id: i64| #[trigger] released@.contains(id) <==> self@.claimant(id) == Some(
                user@,
            ) by {
                if self@.claimant(id) == Some(user@) {
                    assert(files@.contains(id));
                    let j = choose|j: int| 0 <= j < files.len() && files@[j] == id;
                    assert(files@[j] == id);
                }
            }
        }
        let ghost start = self@;
        let ghost held = released@;
        let mut n: usize = 0;
        while n < released.len()
            invariant
                n <= released.len(),
                held == released@,
                start == old(self)@,
                self.in_order(),
                self@ == (StateView { claims: self@.claims, ..start }),
                forall|id: i64| #[trigger]
                    self@.claims.contains_key(id) <==> start.claims.contains_key(id) && !held.take(
                        n as int,
                    ).contains(id),
                forall|id: i64| #[trigger]
                    self@.claims.contains_key(id) ==> self@.claims[id] == start.claims[id],
            decreases released.len() - n,
        {
            let ghost before = self@;
            self.claims.remove(&released[n]);
            proof {
                let gone = held[n as int];
                assert(self@.claims =~= before.claims.remove(gone));
                assert forall|id: i64|
                    held.take(n + 1).contains(id) <==> (held.take(n as int).contains(id) || id
                        == gone) by {
                    assert(held.take(n + 1) =~= held.take(n as int).push(gone));
                    if held.take(n as int).contains(id) {
                        let j = choose|j: int| 0 <= j < n && held.take(n as int)[j] == id;
                        assert(held.take(n + 1)[j] == id);
                    }
                    assert(held.take(n + 1)[n as int] == gone);
                }
            }
            n = n + 1;
        }
        proof {
            assert(held.take(n as int) =~= held);
            assert(self@.claims =~= start.all_released(user@).claims);
        }
        released
    }

    /// The files that somebody holds, in some order.
    fn claimed_files(&self) -> (files: Vec<i64>)
        ensures
            files@.no_duplicates(),
            forall|id: i64| #[trigger] files@.contains(id) <==> self.claims@.contains_key(id),
    {
        let mut files: Vec<i64> = Vec::new();
        for id in it: self.claims.keys()
            invariant
                files@ == it.seq().unref().take(it.index()),
                it.seq().unref().to_set() == self.claims@.dom(),
                it.seq().no_duplicates(),
                it.index() == it.seq().len() ==> files@ == it.seq().unref(),
        {
            files.push(*id);
        }
        proof {
            assert(files@.to_set() == self.claims@.dom());
        }
        files
    }

    /// Who labels a file, if anybody does.
    pub fn claim_owner(&self, file_id: i64) -> (owner: Option<String>)
        requires
            self.wf(),
        ensures
            opt_text(owner) == self@.claimant(file_id),
    {
        match self.claims.get(&file_id) {
            Some(user) => Some(user.clone()),
            None => None,
        }
    }

    /// Sends a message to everybody in a room.
    pub fn announce(&mut self, room: &str, message: &ServerMessage)
        requires
            old(self).wf(),
        ensures
            final(self).wf(),
            final(self)@ == old(self)@.broadcast(room@, message@.text()),
    {
        let text = message.to_text();
        self.broadcast_to(room, &text);
    }

    /// Sends a message to one connection.
    pub fn tell(&mut self, conn: u64, message: &ServerMessage)
        requires
            old(self).wf(),
        ensures
            final(self).wf(),
            final(self)@ == old(self)@.send(conn, message@.text()),
    {
        let text = message.to_text();
        self.send_to(conn, &text);
    }

    /// How far a room is, as a message.
    pub fn progress_of(&self, room: &str) -> (message: ServerMessage)
        requires
            self.wf(),
        ensures
            message@ == self@.progress_message(room@),
    {
        let (done, total) = self.db.progress_for_room(room);
        ServerMessage::Progress { done, total }
    }

    /// The place of a user in a room.
    fn find_client(&self, room: &str, user: &str) -> (at: Option<usize>)
        requires
            separate(self.clients@),
        ensures
            match at {
                Some(i) => i < self.clients.len() && (
                    self.clients@[i as int].room@,
                    self.clients@[i as int].user@,
                ) == (room@, user@) && self@.client(room@, user@) == Some(
                    self.clients@[i as int].conn,
                ),
                None => self@.client(room@, user@) is None,
            },
    {
        let mut i: usize = 0;
        while i < self.clients.len()
            invariant
                separate(self.clients@),
                i <= self.clients.len(),
                forall|j: int|
                    #![trigger self.clients@[j]]
                    0 <= j < i ==> (self.clients@[j].room@, self.clients@[j].user@) != (
                        room@,
                        user@,
                    ),
            decreases self.clients.len() - i,
        {
            if same_text(&self.clients[i].room, room) && same_text(&self.clients[i].user, user) {
                proof {
                    lemma_client_map(self.clients@, i as int);
                }
                return Some(i);
            }
            i = i + 1;
        }
        None
    }

    /// The connection of a user in a room, if they are connected.
    pub fn client_of(&self, room: &str, user: &str) -> (conn: Option<u64>)
        requires
            self.wf(),
        ensures
            conn == self@.client(room@, user@),
    {
        match self.find_client(room, user) {
            Some(i) => Some(self.clients[i].conn),
            None => None,
        }
    }

    /// Notes the connection of a user in a room. It takes the place of an
    /// earlier one.
    pub fn join(&mut self, room: &str, user: &str, conn: u64)
        requires
            old(self).wf(),
        ensures
            final(self).wf(),
            final(self)@ == old(self)@.joined(room@, user@, conn),
    {
        let ghost before = self.clients@;
        let ghost at: int;
        let client = Client { room: room.to_owned(), user: user.to_owned(), conn };
        match self.find_client(room, user) {
            Some(i) => {
                self.clients.set(i, client);
                proof {
                    at = i as int;
                }
            },
            None => {
                self.clients.push(client);
                proof {
                    at = before.len() as int;
                    assert forall|i: int| #![trigger before[i]] 0 <= i < before.len() implies (
                        before[i].room@,
                        before[i].user@,
                    ) != (room@, user@) by {
                        lemma_client_map(before, i);
                    }
                }
            },
        }
        proof {
            let after = self.clients@;
            let key = (room@, user@);
            assert(separate(after));
            lemma_client_map(after, at);
            assert forall|k: (Seq<char>, Seq<char>)|
                has_client(after, k) <==> (has_client(before, k) || k == key) by {
                if has_client(before, k) {
                    let i = client_place(before, k);
                    assert((before[i].room@, before[i].user@) == k);
                    assert((after[i].room@, after[i].user@) == k);
                }
                if has_client(after, k) {
                    let i = client_place(after, k);
                    assert((after[i].room@, after[i].user@) == k);
                    if i != at {
                        assert((before[i].room@, before[i].user@) == k);
                    }
                }
            }
            assert forall|k: (Seq<char>, Seq<char>)| #[trigger]
                client_map(after).contains_key(k) implies client_map(after)[k] == client_map(
                before,
            ).insert(key, conn)[k] by {
                let i = client_place(after, k);
                assert((after[i].room@, after[i].user@) == k);
                lemma_client_map(after, i);
                if i != at {
                    lemma_client_map(before, i);
                }
            }
            assert(self@.clients =~= old(self)@.clients.insert(key, conn));
            assert(self@.claims == old(self)@.claims);
        }
    }

    /// Forgets the connection of a user in a room.
    pub fn leave(&mut self, room: &str, user: &str)
        requires
            old(self).wf(),
        ensures
            final(self).wf(),
            final(self)@ == old(self)@.left(room@, user@),
    {
        let ghost before = self.clients@;
        match self.find_client(room, user) {
            Some(at) => {
                self.clients.remove(at);
                proof {
                    let after = self.clients@;
                    let key = (room@, user@);
                    assert(forall|i: int|
                        #![trigger after[i]]
                        0 <= i < after.len() ==> after[i] == before[if i < at {
                            i
                        } else {
                            i + 1
                        }]);
                    assert(separate(after));
                    assert forall|k: (Seq<char>, Seq<char>)|
                        has_client(after, k) <==> (has_client(before, k) && k != key) by {
                        if has_client(before, k) && k != key {
                            let i = client_place(before, k);
                            assert((before[i].room@, before[i].user@) == k);
                            let j = if i < at {
                                i
                            } else {
                                i - 1
                            };
                            assert((after[j].room@, after[j].user@) == k);
                        }
                        if has_client(after, k) {
                            let i = client_place(after, k);
                            assert((after[i].room@, after[i].user@) == k);
                            let j = if i < at {
                                i
                            } else {
                                i + 1
                            };
                            assert((before[j].room@, before[j].user@) == k);
                            lemma_client_map(before, j);
                        }
                    }
                    assert forall|k: (Seq<char>, Seq<char>)| #[trigger]
                        client_map(after).contains_key(k) implies client_map(after)[k]
                        == client_map(before)[k] by {
                        let i = client_place(after, k);
                        assert((after[i].room@, after[i].user@) == k);
                        lemma_client_map(after, i);
                        lemma_client_map(
                            before,
                            if i < at {
                                i
                            } else {
                                i + 1
                            },
                        );
                    }
                    assert(self@.clients =~= old(self)@.clients.remove(key));
                }
            },
            None => {
                proof {
                    assert(self@.clients =~= old(self)@.clients.remove((room@, user@)));
                }
            },
        }
        proof {
            assert(self@.claims == old(self)@.claims);
        }
    }
}

} // verus!
