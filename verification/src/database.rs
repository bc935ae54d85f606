//! The shared tables: users, rooms, messages and the sweep's schedule.
//!
//! A [`Database`] keeps its rows in vectors. Contracts speak of its view, in
//! which every table is a map from primary key to row.

use crate::table::{
    by_key, distinct_keys, holds_key, lemma_count, lemma_finite, lemma_row_found, lemma_row_pushed,
    lemma_row_replaced, position,
};
use crate::types::{
    ClearMessagesSchedule, Identity, Message, MessageView, Room, RoomView, ScheduleAt, Timestamp,
    User, UserView, LOBBY,
};
use vstd::prelude::*;

verus! {

/// The tables as mathematical values, with the next id each one will hand out.
pub struct DatabaseView {
    pub users: Map<Identity, UserView>,
    pub rooms: Map<u64, RoomView>,
    pub messages: Map<u64, MessageView>,
    pub schedule: Map<u64, ClearMessagesSchedule>,
    pub next_room_id: u64,
    pub next_message_id: u64,
    pub next_schedule_id: u64,
}

impl DatabaseView {
    /// No rows; every table hands out id 1 first.
    pub open spec fn empty() -> DatabaseView {
        DatabaseView {
            users: Map::empty(),
            rooms: Map::empty(),
            messages: Map::empty(),
            schedule: Map::empty(),
            next_room_id: 1,
            next_message_id: 1,
            next_schedule_id: 1,
        }
    }

    /// Every row stands under its own key, assigned ids are below the next
    /// one and never the lobby's, and no two rooms share a join code.
    pub open spec fn wf(self) -> bool {
        &&& self.users.dom().finite()
        &&& self.rooms.dom().finite()
        &&& self.messages.dom().finite()
        &&& self.schedule.dom().finite()
        &&& forall|id: Identity| #[trigger]
            self.users.contains_key(id) ==> self.users[id].identity == id
        &&& forall|r: u64| #[trigger]
            self.rooms.contains_key(r) ==> self.rooms[r].id == r && LOBBY < r < self.next_room_id
        &&& forall|r1: u64, r2: u64|
            #![trigger self.rooms[r1], self.rooms[r2]]
            self.rooms.contains_key(r1) && self.rooms.contains_key(r2) && self.rooms[r1].key
                == self.rooms[r2].key ==> r1 == r2
        &&& forall|m: u64| #[trigger]
            self.messages.contains_key(m) ==> self.messages[m].id == m && 0 < m
                < self.next_message_id
        &&& forall|s: u64| #[trigger]
            self.schedule.contains_key(s) ==> self.schedule[s].scheduled_id == s && 0 < s
                < self.next_schedule_id
        &&& 0 < self.next_room_id
        &&& 0 < self.next_message_id
        &&& 0 < self.next_schedule_id
    }

    /// Some room has join code `key`.
    pub open spec fn has_room_key(self, key: Seq<char>) -> bool {
        exists|r: u64| self.rooms.contains_key(r) && (#[trigger] self.rooms[r]).key == key
    }

    /// The id of a room with join code `key`, where there is one.
    pub open spec fn room_id_of(self, key: Seq<char>) -> u64 {
        choose|r: u64| self.rooms.contains_key(r) && (#[trigger] self.rooms[r]).key == key
    }

    /// The room with join code `key`, if there is one.
    pub open spec fn room_with_key(self, key: Seq<char>) -> Option<RoomView> {
        if self.has_room_key(key) {
            Some(self.rooms[self.room_id_of(key)])
        } else {
            None
        }
    }

    /// The tables after `user` was stored under its identity.
    pub open spec fn with_user(self, user: UserView) -> DatabaseView {
        DatabaseView { users: self.users.insert(user.identity, user), ..self }
    }

    /// The tables after a room with join code `key` got the next room id.
    pub open spec fn with_room(self, key: Seq<char>) -> DatabaseView {
        DatabaseView {
            rooms: self.rooms.insert(self.next_room_id, RoomView { id: self.next_room_id, key }),
            next_room_id: (self.next_room_id + 1) as u64,
            ..self
        }
    }

    /// The tables after `message` got the next message id.
    pub open spec fn with_message(self, message: MessageView) -> DatabaseView {
        DatabaseView {
            messages: self.messages.insert(
                self.next_message_id,
                MessageView { id: self.next_message_id, ..message },
            ),
            next_message_id: (self.next_message_id + 1) as u64,
            ..self
        }
    }

    /// The tables after a schedule row for `at` got the next schedule id.
    pub open spec fn with_schedule(self, at: ScheduleAt) -> DatabaseView {
        DatabaseView {
            schedule: self.schedule.insert(
                self.next_schedule_id,
                ClearMessagesSchedule { scheduled_id: self.next_schedule_id, scheduled_at: at },
            ),
            next_schedule_id: (self.next_schedule_id + 1) as u64,
            ..self
        }
    }

    /// The tables without the messages sent before `bound`, a count of
    /// microseconds since the epoch.
    pub open spec fn without_messages_before(self, bound: int) -> DatabaseView {
        DatabaseView {
            messages: Map::new(
                |m: u64| self.messages.contains_key(m) && self.messages[m].sent.micros >= bound,
                |m: u64| self.messages[m],
            ),
            ..self
        }
    }
}

/// The user rows, each under its identity.
pub open spec fn user_rows(users: Seq<User>) -> Seq<(Identity, UserView)> {
    Seq::new(users.len(), |i: int| (users[i].identity, users[i]@))
}

/// The room rows, each under its id.
pub open spec fn room_rows(rooms: Seq<Room>) -> Seq<(u64, RoomView)> {
    Seq::new(rooms.len(), |i: int| (rooms[i].id, rooms[i]@))
}

/// The message rows, each under its id.
pub open spec fn message_rows(messages: Seq<Message>) -> Seq<(u64, MessageView)> {
    Seq::new(messages.len(), |i: int| (messages[i].id, messages[i]@))
}

/// The schedule rows, each under its id.
pub open spec fn schedule_rows(schedule: Seq<ClearMessagesSchedule>) -> Seq<
    (u64, ClearMessagesSchedule),
> {
    Seq::new(schedule.len(), |i: int| (schedule[i].scheduled_id, schedule[i]))
}

/// The module's tables.
pub struct Database {
    users: Vec<User>,
    rooms: Vec<Room>,
    messages: Vec<Message>,
    schedule: Vec<ClearMessagesSchedule>,
    next_room_id: u64,
    next_message_id: u64,
    next_schedule_id: u64,
}

impl View for Database {
    type V = DatabaseView;

    closed spec fn view(&self) -> DatabaseView {
        DatabaseView {
            users: by_key(user_rows(self.users@)),
            rooms: by_key(room_rows(self.rooms@)),
            messages: by_key(message_rows(self.messages@)),
            schedule: by_key(schedule_rows(self.schedule@)),
            next_room_id: self.next_room_id,
            next_message_id: self.next_message_id,
            next_schedule_id: self.next_schedule_id,
        }
    }
}

impl Database {
    /// The uniqueness constraints hold: one user per identity, one row per
    /// id, one room per join code; and each table's next id is above every
    /// id it has assigned.
    pub closed spec fn wf(&self) -> bool {
        &&& distinct_keys(user_rows(self.users@))
        &&& distinct_keys(room_rows(self.rooms@))
        &&& distinct_keys(message_rows(self.messages@))
        &&& distinct_keys(schedule_rows(self.schedule@))
        &&& forall|i: int, j: int|
            0 <= i < j < self.rooms.len() ==> (#[trigger] self.rooms[i]).key@ != (
            #[trigger] self.rooms[j]).key@
        &&& forall|i: int|
            0 <= i < self.rooms.len() ==> 0 < (#[trigger] self.rooms[i]).id < self.next_room_id
        &&& forall|i: int|
            0 <= i < self.messages.len() ==> 0 < (#[trigger] self.messages[i]).id
                < self.next_message_id
        &&& forall|i: int|
            0 <= i < self.schedule.len() ==> 0 < (#[trigger] self.schedule[i]).scheduled_id
                < self.next_schedule_id
        &&& 0 < self.next_room_id
        &&& 0 < self.next_message_id
        &&& 0 < self.next_schedule_id
    }

    /// What the constraints mean for the tables read as maps.
    pub proof fn lemma_view_wf(&self)
        requires
            self.wf(),
        ensures
            self@.wf(),
    {
        let v = self@;
        lemma_finite(user_rows(self.users@));
        lemma_finite(room_rows(self.rooms@));
        lemma_finite(message_rows(self.messages@));
        lemma_finite(schedule_rows(self.schedule@));
        assert forall|id: Identity| #[trigger] v.users.contains_key(id) implies v.users[id].identity
            == id by {
            let p = position(user_rows(self.users@), id);
            lemma_row_found(user_rows(self.users@), p);
        }
        assert forall|r: u64| #[trigger] v.rooms.contains_key(r) implies v.rooms[r].id == r && LOBBY
            < r < v.next_room_id by {
            let p = position(room_rows(self.rooms@), r);
            lemma_row_found(room_rows(self.rooms@), p);
            assert(0 < self.rooms[p].id < self.next_room_id);
        }
        assert forall|r1: u64, r2: u64|
            #![trigger v.rooms[r1], v.rooms[r2]]
            v.rooms.contains_key(r1) && v.rooms.contains_key(r2) && v.rooms[r1].key
                == v.rooms[r2].key implies r1 == r2 by {
            let first = position(room_rows(self.rooms@), r1);
            let second = position(room_rows(self.rooms@), r2);
            lemma_row_found(room_rows(self.rooms@), first);
            lemma_row_found(room_rows(self.rooms@), second);
            if first < second {
                assert(self.rooms[first].key@ != self.rooms[second].key@);
            } else if second < first {
                assert(self.rooms[second].key@ != self.rooms[first].key@);
            }
        }
        assert forall|m: u64| #[trigger] v.messages.contains_key(m) implies v.messages[m].id == m
            && 0 < m < v.next_message_id by {
            let p = position(message_rows(self.messages@), m);
            lemma_row_found(message_rows(self.messages@), p);
            assert(0 < self.messages[p].id < self.next_message_id);
        }
        assert forall|s: u64| #[trigger] v.schedule.contains_key(s) implies v.schedule[s].scheduled_id
            == s && 0 < s < v.next_schedule_id by {
            let p = position(schedule_rows(self.schedule@), s);
            lemma_row_found(schedule_rows(self.schedule@), p);
            assert(0 < self.schedule[p].scheduled_id < self.next_schedule_id);
        }
    }

    /// Tables without rows.
    pub fn new() -> (db: Database)
        ensures
            db.wf(),
            db@ == DatabaseView::empty(),
    {
        let db = Database {
            users: Vec::new(),
            rooms: Vec::new(),
            messages: Vec::new(),
            schedule: Vec::new(),
            next_room_id: 1,
            next_message_id: 1,
            next_schedule_id: 1,
        };
        assert(db@.users =~= Map::empty());
        assert(db@.rooms =~= Map::empty());
        assert(db@.messages =~= Map::empty());
        assert(db@.schedule =~= Map::empty());
        db
    }

    /// Where the row of `identity` stands among the user rows.
    fn user_position(&self, identity: Identity) -> (at: Option<usize>)
        ensures
            match at {
                Some(i) => i < self.users.len() && self.users[i as int].identity == identity,
                None => !holds_key(user_rows(self.users@), identity),
            },
    {
        let mut i: usize = 0;
        while i < self.users.len()
            invariant
                i <= self.users.len(),
                forall|j: int| 0 <= j < i ==> (#[trigger] self.users[j]).identity != identity,
            decreases self.users.len() - i,
        {
            if self.users[i].identity == identity {
                return Some(i);
            }
            i += 1;
        }
        assert(!holds_key(user_rows(self.users@), identity)) by {
            if holds_key(user_rows(self.users@), identity) {
                let p = position(user_rows(self.users@), identity);
                assert(self.users[p].identity == identity);
            }
        }
        None
    }

    /// The row of `identity`, if there is one.
    pub fn find_user(&self, identity: Identity) -> (found: Option<User>)
        requires
            self.wf(),
        ensures
            match found {
                Some(user) => self@.users.contains_key(identity) && self@.users[identity]
                    == user@,
                None => !self@.users.contains_key(identity),
            },
    {
        match self.user_position(identity) {
            Some(i) => {
                proof {
                    lemma_row_found(user_rows(self.users@), i as int);
                }
                Some(self.users[i].clone())
            },
            None => None,
        }
    }

    /// Stores `user` unless its identity already has a row; says whether it did.
    pub fn try_insert_user(&mut self, user: User) -> (inserted: bool)
        requires
            old(self).wf(),
        ensures
            final(self).wf(),
            inserted == !old(self)@.users.contains_key(user.identity),
            inserted ==> final(self)@ == old(self)@.with_user(user@),
            !inserted ==> final(self)@ == old(self)@,
    {
        match self.user_position(user.identity) {
            Some(i) => {
                proof {
                    lemma_row_found(user_rows(self.users@), i as int);
                }
                false
            },
            None => {
                proof {
                    lemma_row_pushed(user_rows(self.users@), user.identity, user@);
                    assert(user_rows(self.users@.push(user)) =~= user_rows(self.users@).push(
                        (user.identity, user@),
                    ));
                }
                self.users.push(user);
                true
            },
        }
    }

    /// Overwrites the row that has `user`'s identity.
    pub fn update_user(&mut self, user: User)
        requires
            old(self).wf(),
            old(self)@.users.contains_key(user.identity),
        ensures
            final(self).wf(),
            final(self)@ == old(self)@.with_user(user@),
    {
        match self.user_position(user.identity) {
            Some(i) => {
                proof {
                    lemma_row_replaced(user_rows(self.users@), i as int, user@);
                    assert(user_rows(self.users@.update(i as int, user)) =~= user_rows(
                        self.users@,
                    ).update(i as int, (user.identity, user@)));
                }
                self.users.set(i, user);
            },
            None => {},
        }
    }

    /// How many users are known.
    pub fn user_count(&self) -> (n: usize)
        requires
            self.wf(),
        ensures
            n == self@.users.dom().len(),
    {
        proof {
            lemma_count(user_rows(self.users@));
        }
        self.users.len()
    }

    /// Where the room with join code `key` stands among the room rows.
    fn room_position(&self, key: &String) -> (at: Option<usize>)
        ensures
            match at {
                Some(i) => i < self.rooms.len() && self.rooms[i as int].key@ == key@,
                None => forall|j: int|
                    0 <= j < self.rooms.len() ==> (#[trigger] self.rooms[j]).key@ != key@,
            },
    {
        let mut i: usize = 0;
        while i < self.rooms.len()
            invariant
                i <= self.rooms.len(),
                forall|j: int| 0 <= j < i ==> (#[trigger] self.rooms[j]).key@ != key@,
            decreases self.rooms.len() - i,
        {
            if self.rooms[i].key == *key {
                return Some(i);
            }
            i += 1;
        }
        None
    }

    /// No room row carries `key`, so the room table has no such join code.
    proof fn lemma_key_unused(&self, key: Seq<char>)
        requires
            self.wf(),
            forall|j: int| 0 <= j < self.rooms.len() ==> (#[trigger] self.rooms[j]).key@ != key,
        ensures
            !self@.has_room_key(key),
    {
        if self@.has_room_key(key) {
            let r = self@.room_id_of(key);
            let p = position(room_rows(self.rooms@), r);
            lemma_row_found(room_rows(self.rooms@), p);
            assert(self.rooms[p].key@ == key);
        }
    }

    /// The room with join code `key`, if there is one.
    pub fn find_room_by_key(&self, key: &String) -> (found: Option<Room>)
        requires
            self.wf(),
        ensures
            match found {
                Some(room) => self@.room_with_key(key@) == Some(room@) && room.key@ == key@
                    && self@.rooms.contains_key(room.id),
                None => self@.room_with_key(key@).is_none(),
            },
    {
        match self.room_position(key) {
            Some(i) => {
                proof {
                    lemma_row_found(room_rows(self.rooms@), i as int);
                    self.lemma_view_wf();
                    let id = self.rooms[i as int].id;
                    assert(self@.rooms[id].key == key@);
                    let chosen = self@.room_id_of(key@);
                    assert(self@.rooms.contains_key(chosen) && self@.rooms[chosen].key == key@);
                    assert(chosen == id);
                }
                Some(self.rooms[i].clone())
            },
            None => {
                proof {
                    self.lemma_key_unused(key@);
                }
                None
            },
        }
    }

    /// Stores a room with join code `key` under the next room id, unless the
    /// code is taken; returns the new row.
    pub fn try_insert_room(&mut self, key: String) -> (inserted: Option<Room>)
        requires
            old(self).wf(),
            old(self)@.next_room_id < u64::MAX,
        ensures
            final(self).wf(),
            match inserted {
                Some(room) => !old(self)@.has_room_key(key@) && room@ == (RoomView {
                    id: old(self)@.next_room_id,
                    key: key@,
                }) && final(self)@ == old(self)@.with_room(key@),
                None => old(self)@.has_room_key(key@) && final(self)@ == old(self)@,
            },
    {
        match self.room_position(&key) {
            Some(i) => {
                proof {
                    lemma_row_found(room_rows(self.rooms@), i as int);
                    assert(self@.rooms[self.rooms[i as int].id].key == key@);
                }
                None
            },
            None => {
                let id = self.next_room_id;
                let room = Room { id, key };
                let copy = room.clone();
                proof {
                    self.lemma_key_unused(key@);
                    assert(!holds_key(room_rows(self.rooms@), id)) by {
                        if holds_key(room_rows(self.rooms@), id) {
                            let p = position(room_rows(self.rooms@), id);
                            assert(self.rooms[p].id < self.next_room_id);
                        }
                    }
                    lemma_row_pushed(room_rows(self.rooms@), id, room@);
                    assert(room_rows(self.rooms@.push(room)) =~= room_rows(self.rooms@).push(
                        (id, room@),
                    ));
                }
                self.rooms.push(room);
                self.next_room_id = id + 1;
                Some(copy)
            },
        }
    }

    /// The room `id`, if it exists.
    pub fn find_room(&self, id: u64) -> (found: Option<Room>)
        requires
            self.wf(),
        ensures
            match found {
                Some(room) => self@.rooms.contains_key(id) && self@.rooms[id] == room@,
                None => !self@.rooms.contains_key(id),
            },
    {
        let mut i: usize = 0;
        while i < self.rooms.len()
            invariant
                self.wf(),
                i <= self.rooms.len(),
                forall|j: int| 0 <= j < i ==> (#[trigger] self.rooms[j]).id != id,
            decreases self.rooms.len() - i,
        {
            if self.rooms[i].id == id {
                proof {
                    lemma_row_found(room_rows(self.rooms@), i as int);
                }
                return Some(self.rooms[i].clone());
            }
            i += 1;
        }
        assert(!holds_key(room_rows(self.rooms@), id)) by {
            if holds_key(room_rows(self.rooms@), id) {
                let p = position(room_rows(self.rooms@), id);
                assert(self.rooms[p].id == id);
            }
        }
        None
    }

    /// How many rooms exist.
    pub fn room_count(&self) -> (n: usize)
        requires
            self.wf(),
        ensures
            n == self@.rooms.dom().len(),
    {
        proof {
            lemma_count(room_rows(self.rooms@));
        }
        self.rooms.len()
    }

    /// Stores `message` under the next message id, whatever id it carried,
    /// and returns that id.
    pub fn insert_message(&mut self, message: Message) -> (id: u64)
        requires
            old(self).wf(),
            old(self)@.next_message_id < u64::MAX,
        ensures
            final(self).wf(),
            id == old(self)@.next_message_id,
            final(self)@ == old(self)@.with_message(message@),
    {
        let id = self.next_message_id;
        let row = Message {
            id,
            sender: message.sender,
            room: message.room,
            sent: message.sent,
            kind: message.kind,
            data: message.data,
        };
        proof {
            assert(row@ == (MessageView { id, ..message@ }));
            assert(!holds_key(message_rows(self.messages@), id)) by {
                if holds_key(message_rows(self.messages@), id) {
                    let p = position(message_rows(self.messages@), id);
                    assert(self.messages[p].id < self.next_message_id);
                }
            }
            lemma_row_pushed(message_rows(self.messages@), id, row@);
            assert(message_rows(self.messages@.push(row)) =~= message_rows(self.messages@).push(
                (id, row@),
            ));
        }
        self.messages.push(row);
        self.next_message_id = id + 1;
        id
    }

    /// Where the message `id` stands among the message rows.
    fn message_position(&self, id: u64) -> (at: Option<usize>)
        ensures
            match at {
                Some(i) => i < self.messages.len() && self.messages[i as int].id == id,
                None => !holds_key(message_rows(self.messages@), id),
            },
    {
        let mut i: usize = 0;
        while i < self.messages.len()
            invariant
                i <= self.messages.len(),
                forall|j: int| 0 <= j < i ==> (#[trigger] self.messages[j]).id != id,
            decreases self.messages.len() - i,
        {
            if self.messages[i].id == id {
                return Some(i);
            }
            i += 1;
        }
        assert(!holds_key(message_rows(self.messages@), id)) by {
            if holds_key(message_rows(self.messages@), id) {
                let p = position(message_rows(self.messages@), id);
                assert(self.messages[p].id == id);
            }
        }
        None
    }

    /// The message `id`, if it exists.
    pub fn find_message(&self, id: u64) -> (found: Option<Message>)
        requires
            self.wf(),
        ensures
            match found {
                Some(message) => self@.messages.contains_key(id) && self@.messages[id]
                    == message@,
                None => !self@.messages.contains_key(id),
            },
    {
        match self.message_position(id) {
            Some(i) => {
                proof {
                    lemma_row_found(message_rows(self.messages@), i as int);
                }
                Some(self.messages[i].clone())
            },
            None => None,
        }
    }

    /// How many messages exist.
    pub fn message_count(&self) -> (n: usize)
        requires
            self.wf(),
        ensures
            n == self@.messages.dom().len(),
    {
        proof {
            lemma_count(message_rows(self.messages@));
        }
        self.messages.len()
    }

    /// Deletes every message sent before `bound` and keeps the others as
    /// they are.
    pub fn delete_messages_sent_before(&mut self, bound: Timestamp)
        requires
            old(self).wf(),
        ensures
            final(self).wf(),
            final(self)@ == old(self)@.without_messages_before(bound.micros as int),
    {
        let ghost before = self.messages@;
        let mut i: usize = 0;
        assert forall|a: int, b: int| 0 <= a < b < before.len() implies (#[trigger] before[a]).id != (
        #[trigger] before[b]).id by {
            assert(message_rows(before)[a].0 != message_rows(before)[b].0);
        }
        while i < self.messages.len()
            invariant
                i <= self.messages.len(),
                self.users == old(self).users,
                self.rooms == old(self).rooms,
                self.schedule == old(self).schedule,
                self.next_room_id == old(self).next_room_id,
                self.next_message_id == old(self).next_message_id,
                self.next_schedule_id == old(self).next_schedule_id,
                before == old(self).messages@,
                old(self).wf(),
                forall|a: int, b: int|
                    0 <= a < b < self.messages.len() ==> (#[trigger] self.messages[a]).id != (
                    #[trigger] self.messages[b]).id,
                forall|j: int|
                    0 <= j < self.messages.len() ==> before.contains(#[trigger] self.messages[j]),
                forall|p: int|
                    0 <= p < before.len() && (#[trigger] before[p]).sent.micros >= bound.micros
                        ==> self.messages@.contains(before[p]),
                forall|j: int|
                    0 <= j < i ==> (#[trigger] self.messages[j]).sent.micros >= bound.micros,
            decreases self.messages.len() - i,
        {
            if self.messages[i].sent.micros < bound.micros {
                let ghost rows = self.messages@;
                self.messages.swap_remove(i);
                proof {
                    let kept = self.messages@;
                    let last = rows.len() - 1;
                    assert forall|a: int, b: int| 0 <= a < b < kept.len() implies (
                    #[trigger] kept[a]).id != (#[trigger] kept[b]).id by {
                        let ra = if a == i { last } else { a };
                        let rb = if b == i { last } else { b };
                        assert(kept[a] == rows[ra] && kept[b] == rows[rb]);
                        if ra < rb {
                            assert(rows[ra].id != rows[rb].id);
                        } else {
                            assert(rows[rb].id != rows[ra].id);
                        }
                    }
                    assert forall|j: int| 0 <= j < kept.len() implies before.contains(
                        #[trigger] kept[j],
                    ) by {
                        let rj = if j == i { last } else { j };
                        assert(kept[j] == rows[rj]);
                    }
                    assert forall|p: int|
                        0 <= p < before.len() && (#[trigger] before[p]).sent.micros
                            >= bound.micros implies kept.contains(before[p]) by {
                        let j = rows.index_of(before[p]);
                        assert(0 <= j < rows.len() && rows[j] == before[p]);
                        if j == last {
                            assert(kept[i as int] == before[p]);
                        } else {
                            assert(kept[j] == before[p]);
                        }
                    }
                    assert forall|j: int| 0 <= j < i implies (#[trigger] kept[j]).sent.micros
                        >= bound.micros by {
                        assert(kept[j] == rows[j]);
                    }
                }
            } else {
                i += 1;
            }
        }
        proof {
            let kept = self.messages@;
            let old_rows = message_rows(before);
            let new_rows = message_rows(kept);
            let goal = old(self)@.without_messages_before(bound.micros as int).messages;
            assert forall|a: int, b: int| 0 <= a < b < new_rows.len() implies (
            #[trigger] new_rows[a]).0 != (#[trigger] new_rows[b]).0 by {
                assert(kept[a].id != kept[b].id);
            }
            assert forall|j: int| 0 <= j < kept.len() implies 0 < (#[trigger] kept[j]).id
                < self.next_message_id by {
                let p = before.index_of(kept[j]);
                assert(0 < before[p].id < old(self).next_message_id);
            }
            assert forall|m: u64| #[trigger] by_key(new_rows).contains_key(m) implies goal.contains_key(
                m,
            ) && goal[m] == by_key(new_rows)[m] by {
                let j = position(new_rows, m);
                lemma_row_found(new_rows, j);
                let p = before.index_of(kept[j]);
                assert(before[p] == kept[j]);
                assert(old_rows[p].0 == m);
                lemma_row_found(old_rows, p);
                assert(kept[j].sent.micros >= bound.micros);
            }
            assert forall|m: u64| #[trigger] goal.contains_key(m) implies by_key(
                new_rows,
            ).contains_key(m) by {
                let p = position(old_rows, m);
                lemma_row_found(old_rows, p);
                assert(before[p].sent.micros >= bound.micros);
                let j = kept.index_of(before[p]);
                assert(kept[j] == before[p]);
                assert(new_rows[j].0 == m);
                lemma_row_found(new_rows, j);
            }
            assert(by_key(new_rows) =~= goal);
        }
    }

    /// Stores a schedule row for `at` under the next schedule id and returns
    /// that id.
    pub fn insert_schedule(&mut self, at: ScheduleAt) -> (id: u64)
        requires
            old(self).wf(),
            old(self)@.next_schedule_id < u64::MAX,
        ensures
            final(self).wf(),
            id == old(self)@.next_schedule_id,
            final(self)@ == old(self)@.with_schedule(at),
    {
        let id = self.next_schedule_id;
        let row = ClearMessagesSchedule { scheduled_id: id, scheduled_at: at };
        proof {
            assert(!holds_key(schedule_rows(self.schedule@), id)) by {
                if holds_key(schedule_rows(self.schedule@), id) {
                    let p = position(schedule_rows(self.schedule@), id);
                    assert(self.schedule[p].scheduled_id < self.next_schedule_id);
                }
            }
            lemma_row_pushed(schedule_rows(self.schedule@), id, row);
            assert(schedule_rows(self.schedule@.push(row)) =~= schedule_rows(self.schedule@).push(
                (id, row),
            ));
        }
        self.schedule.push(row);
        self.next_schedule_id = id + 1;
        id
    }

    /// The schedule row `id`, if it exists.
    pub fn find_schedule(&self, id: u64) -> (found: Option<ClearMessagesSchedule>)
        requires
            self.wf(),
        ensures
            match found {
                Some(row) => self@.schedule.contains_key(id) && self@.schedule[id] == row,
                None => !self@.schedule.contains_key(id),
            },
    {
        let mut i: usize = 0;
        while i < self.schedule.len()
            invariant
                self.wf(),
                i <= self.schedule.len(),
                forall|j: int| 0 <= j < i ==> (#[trigger] self.schedule[j]).scheduled_id != id,
            decreases self.schedule.len() - i,
        {
            if self.schedule[i].scheduled_id == id {
                proof {
                    lemma_row_found(schedule_rows(self.schedule@), i as int);
                }
                return Some(self.schedule[i]);
            }
            i += 1;
        }
        assert(!holds_key(schedule_rows(self.schedule@), id)) by {
            if holds_key(schedule_rows(self.schedule@), id) {
                let p = position(schedule_rows(self.schedule@), id);
                assert(self.schedule[p].scheduled_id == id);
            }
        }
        None
    }

    /// How many schedule rows exist.
    pub fn schedule_count(&self) -> (n: usize)
        requires
            self.wf(),
        ensures
            n == self@.schedule.dom().len(),
    {
        proof {
            lemma_count(schedule_rows(self.schedule@));
        }
        self.schedule.len()
    }
}

} // verus!
