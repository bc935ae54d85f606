//! Plain data of the module: credentials, instants, rows and failure kinds.

use vstd::prelude::*;

verus! {

/// Room reference given to every caller on connect: no real room has it.
pub const LOBBY: u64 = 0;

/// Age, in microseconds, after which a message may be swept; also the sweep period.
pub const RETENTION_MICROS: i64 = 60_000_000;

/// Number of characters in a room's join code.
pub const ROOM_KEY_LEN: usize = 8;

/// How many candidate join codes one room creation draws before it gives up.
pub const KEY_ATTEMPTS: u32 = 256;

/// A caller's durable credential: a 256-bit number held as two halves.
#[derive(Clone, Copy, Debug, PartialEq, Eq, Hash, Structural)]
pub struct Identity {
    pub hi: u128,
    pub lo: u128,
}

impl Identity {
    /// The identity whose upper half is `hi` and whose lower half is `lo`.
    pub fn from_words(hi: u128, lo: u128) -> (id: Identity)
        ensures
            id == (Identity { hi, lo }),
    {
        Identity { hi, lo }
    }
}

/// An instant, in microseconds since the Unix epoch.
#[derive(Clone, Copy, Debug, PartialEq, Eq, Hash, Structural)]
pub struct Timestamp {
    pub micros: i64,
}

impl Timestamp {
    /// The instant `micros` microseconds after the epoch (before it, if negative).
    pub fn from_micros_since_unix_epoch(micros: i64) -> (t: Timestamp)
        ensures
            t.micros == micros,
    {
        Timestamp { micros }
    }

    /// Microseconds between the epoch and this instant.
    pub fn to_micros_since_unix_epoch(self) -> (micros: i64)
        ensures
            micros == self.micros,
    {
        self.micros
    }
}

/// What every handler is told about the call it serves.
#[derive(Clone, Copy, Debug, PartialEq, Eq, Structural)]
pub struct ReducerContext {
    /// Who makes the call.
    pub sender: Identity,
    /// When the call started.
    pub timestamp: Timestamp,
    /// The platform's own identity, under which scheduled calls arrive.
    pub module: Identity,
}

impl ReducerContext {
    /// The context of a call made by `sender` at `timestamp` on the module
    /// whose own identity is `module`.
    pub fn new(sender: Identity, timestamp: Timestamp, module: Identity) -> (ctx: ReducerContext)
        ensures
            ctx == (ReducerContext { sender, timestamp, module }),
    {
        ReducerContext { sender, timestamp, module }
    }

    /// The platform's own identity.
    pub fn identity(&self) -> (id: Identity)
        ensures
            id == self.module,
    {
        self.module
    }
}

/// Why a handler refused a call. A refused call changes no table.
#[derive(Clone, Copy, Debug, PartialEq, Eq, Structural)]
pub enum ChatError {
    /// The caller has no user row.
    UnknownUser,
    /// No room has the join code that was given.
    InvalidRoomKey,
    /// The display name that was given is empty.
    EmptyName,
    /// The caller's room reference is absent.
    NotInRoom,
    /// A scheduled handler was invoked by someone other than the platform.
    Unauthorized,
    /// Every join code drawn for a new room was already taken.
    KeysExhausted,
}

impl ChatError {
    /// The text of [`ChatError::message`].
    pub open spec fn message_text(self) -> Seq<char> {
        match self {
            ChatError::UnknownUser => "Unknown user"@,
            ChatError::InvalidRoomKey => "Room key is not valid"@,
            ChatError::EmptyName => "Names cannot be empty"@,
            ChatError::NotInRoom => "User not in a room"@,
            ChatError::Unauthorized => "Reducer `clear_messages` may not be invoked by clients"@,
            ChatError::KeysExhausted => "No unused room key was found"@,
        }
    }

    /// What the caller is told.
    pub fn message(&self) -> (text: String)
        ensures
            text@ == self.message_text(),
    {
        match self {
            ChatError::UnknownUser => "Unknown user".to_owned(),
            ChatError::InvalidRoomKey => "Room key is not valid".to_owned(),
            ChatError::EmptyName => "Names cannot be empty".to_owned(),
            ChatError::NotInRoom => "User not in a room".to_owned(),
            ChatError::Unauthorized => "Reducer `clear_messages` may not be invoked by clients".to_owned(),
            ChatError::KeysExhausted => "No unused room key was found".to_owned(),
        }
    }
}

/// One known caller.
#[derive(Debug)]
pub struct User {
    pub identity: Identity,
    pub name: Option<String>,
    pub room: Option<u64>,
    pub online: bool,
}

/// A [`User`] row as a mathematical value.
pub struct UserView {
    pub identity: Identity,
    pub name: Option<Seq<char>>,
    pub room: Option<u64>,
    pub online: bool,
}

impl View for User {
    type V = UserView;

    open spec fn view(&self) -> UserView {
        UserView {
            identity: self.identity,
            name: match self.name {
                Some(n) => Some(n@),
                None => None,
            },
            room: self.room,
            online: self.online,
        }
    }
}

impl Clone for User {
    fn clone(&self) -> (copy: User)
        ensures
            copy == *self,
    {
        User {
            identity: self.identity,
            name: match &self.name {
                Some(n) => Some(n.clone()),
                None => None,
            },
            room: self.room,
            online: self.online,
        }
    }
}

/// One chat room.
#[derive(Debug)]
pub struct Room {
    pub id: u64,
    pub key: String,
}

/// A [`Room`] row as a mathematical value.
pub struct RoomView {
    pub id: u64,
    pub key: Seq<char>,
}

impl View for Room {
    type V = RoomView;

    open spec fn view(&self) -> RoomView {
        RoomView { id: self.id, key: self.key@ }
    }
}

impl Clone for Room {
    fn clone(&self) -> (copy: Room)
        ensures
            copy == *self,
    {
        Room { id: self.id, key: self.key.clone() }
    }
}

/// One posted message. Each payload number is kept as the 64 bits of its
/// IEEE 754 encoding, so that it passes through unchanged.
#[derive(Debug)]
pub struct Message {
    pub id: u64,
    pub sender: Identity,
    pub room: u64,
    pub sent: Timestamp,
    pub kind: String,
    pub data: Option<Vec<u64>>,
}

/// A [`Message`] row as a mathematical value.
pub struct MessageView {
    pub id: u64,
    pub sender: Identity,
    pub room: u64,
    pub sent: Timestamp,
    pub kind: Seq<char>,
    pub data: Option<Seq<u64>>,
}

impl View for Message {
    type V = MessageView;

    open spec fn view(&self) -> MessageView {
        MessageView {
            id: self.id,
            sender: self.sender,
            room: self.room,
            sent: self.sent,
            kind: self.kind@,
            data: match self.data {
                Some(d) => Some(d@),
                None => None,
            },
        }
    }
}

impl Clone for Message {
    fn clone(&self) -> (copy: Message)
        ensures
            copy@ == self@,
    {
        Message {
            id: self.id,
            sender: self.sender,
            room: self.room,
            sent: self.sent,
            kind: self.kind.clone(),
            data: match &self.data {
                Some(d) => Some(d.clone()),
                None => None,
            },
        }
    }
}

/// When a scheduled handler runs.
#[derive(Clone, Copy, Debug, PartialEq, Eq, Structural)]
pub enum ScheduleAt {
    /// Again and again, this many microseconds apart.
    Interval(i64),
    /// Once, at this instant.
    Time(Timestamp),
}

/// The row that asks the platform to run the sweep.
#[derive(Clone, Copy, Debug, PartialEq, Eq, Structural)]
pub struct ClearMessagesSchedule {
    pub scheduled_id: u64,
    pub scheduled_at: ScheduleAt,
}

} // verus!
