//! What each call decides, row by row: which row to write, or why to refuse.
//!
//! These functions touch no table. A handler reads the rows they ask for,
//! and writes the row they hand back.

use crate::platform::instant_before;
use crate::types::{
    ChatError, Identity, Message, MessageView, ReducerContext, Room, RoomView, Timestamp, User,
    UserView, LOBBY, RETENTION_MICROS,
};
use vstd::prelude::*;

verus! {

/// The row of a caller who has just connected: online and in the lobby, with
/// the name kept from `existing`, or nameless if the caller is new.
pub open spec fn connected(existing: Option<UserView>, sender: Identity) -> UserView {
    match existing {
        Some(user) => UserView { room: Some(LOBBY), online: true, ..user },
        None => UserView { identity: sender, name: None, room: Some(LOBBY), online: true },
    }
}

/// The row of a caller who has just disconnected, if the caller is known.
pub open spec fn disconnected(existing: Option<UserView>) -> Option<UserView> {
    match existing {
        Some(user) => Some(UserView { online: false, ..user }),
        None => None,
    }
}

/// The caller's row, or the refusal of an unknown caller.
pub open spec fn known(existing: Option<UserView>) -> Result<UserView, ChatError> {
    match existing {
        Some(user) => Ok(user),
        None => Err(ChatError::UnknownUser),
    }
}

/// The caller's row under the display name `name`. An empty name is refused
/// before the caller is looked at.
pub open spec fn renamed(existing: Option<UserView>, name: Seq<char>) -> Result<
    UserView,
    ChatError,
> {
    if name.len() == 0 {
        Err(ChatError::EmptyName)
    } else {
        match existing {
            Some(user) => Ok(UserView { name: Some(name), ..user }),
            None => Err(ChatError::UnknownUser),
        }
    }
}

/// The row `user` once placed in room `room`.
pub open spec fn placed(user: UserView, room: u64) -> UserView {
    UserView { room: Some(room), ..user }
}

/// The caller's row once placed in `room`, the room that the join code named.
pub open spec fn entered(existing: Option<UserView>, room: Option<RoomView>) -> Result<
    UserView,
    ChatError,
> {
    match existing {
        Some(user) => match room {
            Some(r) => Ok(placed(user, r.id)),
            None => Err(ChatError::InvalidRoomKey),
        },
        None => Err(ChatError::UnknownUser),
    }
}

/// The payload as a mathematical value.
pub open spec fn payload(data: Option<Vec<u64>>) -> Option<Seq<u64>> {
    match data {
        Some(numbers) => Some(numbers@),
        None => None,
    }
}

/// The message that the caller posts at `now`, addressed to the caller's
/// current room. Its id is still to be assigned.
pub open spec fn composed(
    existing: Option<UserView>,
    sender: Identity,
    now: Timestamp,
    kind: Seq<char>,
    data: Option<Seq<u64>>,
) -> Result<MessageView, ChatError> {
    match existing {
        Some(user) => match user.room {
            Some(room) => Ok(MessageView { id: 0, sender, room, sent: now, kind, data }),
            None => Err(ChatError::NotInRoom),
        },
        None => Err(ChatError::UnknownUser),
    }
}

/// Only the platform itself may run the sweep.
pub open spec fn sweep_allowed(ctx: ReducerContext) -> bool {
    ctx.sender == ctx.module
}

/// The count of microseconds before which a message is stale at `now`.
pub open spec fn stale_before(now: Timestamp) -> int {
    now.micros - RETENTION_MICROS
}

/// A message sent at `sent` has outlived the retention window at `now`.
pub open spec fn expired(sent: Timestamp, now: Timestamp) -> bool {
    sent.micros < stale_before(now)
}

/// Decides what a connect writes.
pub fn connect(existing: Option<User>, sender: Identity) -> (row: User)
    ensures
        row@ == connected(rows_view(existing), sender),
{
    match existing {
        Some(user) => User { room: Some(LOBBY), online: true, ..user },
        None => User { identity: sender, name: None, room: Some(LOBBY), online: true },
    }
}

/// Decides what a disconnect writes; `None` for a caller nobody tracks.
pub fn disconnect(existing: Option<User>) -> (row: Option<User>)
    ensures
        rows_view(row) == disconnected(rows_view(existing)),
{
    match existing {
        Some(user) => Some(User { online: false, ..user }),
        None => None,
    }
}

/// Refuses a caller without a row.
pub fn require_known(existing: Option<User>) -> (outcome: Result<User, ChatError>)
    ensures
        outcome_view(outcome) == known(rows_view(existing)),
{
    match existing {
        Some(user) => Ok(user),
        None => Err(ChatError::UnknownUser),
    }
}

/// Decides what a change of name writes.
pub fn rename(existing: Option<User>, name: String) -> (outcome: Result<User, ChatError>)
    ensures
        outcome_view(outcome) == renamed(rows_view(existing), name@),
{
    if name.as_str().is_empty() {
        Err(ChatError::EmptyName)
    } else {
        match existing {
            Some(user) => Ok(User { name: Some(name), ..user }),
            None => Err(ChatError::UnknownUser),
        }
    }
}

/// Places `user` in room `room`.
pub fn place(user: User, room: u64) -> (row: User)
    ensures
        row@ == placed(user@, room),
{
    User { room: Some(room), ..user }
}

/// Decides what joining writes, given the room that the join code resolved to.
pub fn enter(existing: Option<User>, room: Option<Room>) -> (outcome: Result<User, ChatError>)
    ensures
        outcome_view(outcome) == entered(
            rows_view(existing),
            match room {
                Some(r) => Some(r@),
                None => None,
            },
        ),
{
    match existing {
        Some(user) => match room {
            Some(r) => Ok(place(user, r.id)),
            None => Err(ChatError::InvalidRoomKey),
        },
        None => Err(ChatError::UnknownUser),
    }
}

/// Decides what posting writes.
pub fn compose(
    existing: Option<User>,
    sender: Identity,
    now: Timestamp,
    kind: String,
    data: Option<Vec<u64>>,
) -> (outcome: Result<Message, ChatError>)
    ensures
        match outcome {
            Ok(message) => composed(rows_view(existing), sender, now, kind@, payload(data)) == Ok::<
                MessageView,
                ChatError,
            >(message@),
            Err(e) => composed(rows_view(existing), sender, now, kind@, payload(data)) == Err::<
                MessageView,
                ChatError,
            >(e),
        },
{
    match existing {
        Some(user) => match user.room {
            Some(room) => Ok(Message { id: 0, sender, room, sent: now, kind, data }),
            None => Err(ChatError::NotInRoom),
        },
        None => Err(ChatError::UnknownUser),
    }
}

/// Refuses a sweep that the platform did not start.
pub fn authorize_sweep(ctx: &ReducerContext) -> (outcome: Result<(), ChatError>)
    ensures
        sweep_allowed(*ctx) ==> outcome == Ok::<(), ChatError>(()),
        !sweep_allowed(*ctx) ==> outcome == Err::<(), ChatError>(ChatError::Unauthorized),
{
    if ctx.sender == ctx.identity() {
        Ok(())
    } else {
        Err(ChatError::Unauthorized)
    }
}

/// The instant before which a message is stale at `now`; `None` when that
/// instant lies before every instant that can be held, so that nothing is stale.
pub fn sweep_bound(now: Timestamp) -> (bound: Option<Timestamp>)
    ensures
        match bound {
            Some(b) => b.micros == stale_before(now),
            None => stale_before(now) < i64::MIN,
        },
{
    match instant_before(now.micros, RETENTION_MICROS) {
        Some(micros) => Some(Timestamp { micros }),
        None => None,
    }
}

/// Whether a message sent at `sent` is stale at `now`.
pub fn is_expired(sent: Timestamp, now: Timestamp) -> (stale: bool)
    ensures
        stale == expired(sent, now),
{
    match sweep_bound(now) {
        Some(bound) => sent.micros < bound.micros,
        None => false,
    }
}

/// An optional row as a mathematical value.
pub open spec fn rows_view(row: Option<User>) -> Option<UserView> {
    match row {
        Some(user) => Some(user@),
        None => None,
    }
}

/// A decision on a user row as a mathematical value.
pub open spec fn outcome_view(outcome: Result<User, ChatError>) -> Result<UserView, ChatError> {
    match outcome {
        Ok(user) => Ok(user@),
        Err(e) => Err(e),
    }
}

} // verus!
