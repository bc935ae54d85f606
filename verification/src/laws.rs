//! What holds of the handlers on every input, proved from their outcomes.

use crate::database::DatabaseView;
use crate::reducers::{
    after, after_clear_messages, after_connect, after_disconnect, after_join_room,
    after_room_attempt, after_send_message, after_set_name, Request,
};
use crate::rules::{expired, sweep_allowed};
use crate::types::{
    ChatError, Identity, MessageView, ReducerContext, Timestamp, UserView, LOBBY,
};
use vstd::prelude::*;
use vstd::set_lib::lemma_len_subset;

verus! {

/// A room that was opened carries a join code that no other room has, and
/// the room table still has one room per code.
pub proof fn lemma_new_room_key_is_unique(before: DatabaseView, sender: Identity, key: Seq<char>)
    requires
        before.wf(),
        before.next_room_id < u64::MAX,
        after_room_attempt(before, sender, key).0 == Ok::<Option<u64>, ChatError>(
            Some(before.next_room_id),
        ),
    ensures
        ({
            let after = after_room_attempt(before, sender, key).1;
            &&& after.wf()
            &&& after.rooms.contains_key(before.next_room_id)
            &&& after.rooms[before.next_room_id].key == key
            &&& after.users[sender].room == Some(before.next_room_id)
            &&& forall|r: u64|
                after.rooms.contains_key(r) && r != before.next_room_id ==> (
                #[trigger] after.rooms[r]).key != key
        }),
{
    let after = after_room_attempt(before, sender, key).1;
    let id = before.next_room_id;
    assert(before.users.contains_key(sender));
    assert(!before.has_room_key(key));
    assert(!before.rooms.contains_key(id));
    assert forall|r: u64| after.rooms.contains_key(r) && r != id implies (
    #[trigger] after.rooms[r]).key != key by {
        assert(before.rooms.contains_key(r));
        assert(before.rooms[r].key != key);
    }
    assert forall|r1: u64, r2: u64|
        #![trigger after.rooms[r1], after.rooms[r2]]
        after.rooms.contains_key(r1) && after.rooms.contains_key(r2) && after.rooms[r1].key
            == after.rooms[r2].key implies r1 == r2 by {
        if r1 != id && r2 != id {
            assert(before.rooms[r1].key == before.rooms[r2].key);
        } else if r1 != id {
            assert(after.rooms[r1].key != key);
        } else if r2 != id {
            assert(after.rooms[r2].key != key);
        }
    }
}

/// A caller without a user row is refused as unknown by every request, and
/// no table changes. (An empty display name is refused as such first.)
pub proof fn lemma_unknown_caller_is_refused(
    before: DatabaseView,
    sender: Identity,
    name: Seq<char>,
    key: Seq<char>,
    now: Timestamp,
    kind: Seq<char>,
    data: Option<Seq<u64>>,
)
    requires
        !before.users.contains_key(sender),
        name.len() > 0,
    ensures
        after_room_attempt(before, sender, key) == (
            Err::<Option<u64>, ChatError>(ChatError::UnknownUser),
            before,
        ),
        after_join_room(before, sender, key) == (
            Err::<(), ChatError>(ChatError::UnknownUser),
            before,
        ),
        after_set_name(before, sender, name) == (
            Err::<(), ChatError>(ChatError::UnknownUser),
            before,
        ),
        after_send_message(before, sender, now, kind, data) == (
            Err::<(), ChatError>(ChatError::UnknownUser),
            before,
        ),
{
}

/// An empty display name is refused, whoever asks, and no table changes.
pub proof fn lemma_empty_name_is_refused(before: DatabaseView, sender: Identity, name: Seq<char>)
    requires
        name.len() == 0,
    ensures
        after_set_name(before, sender, name) == (
            Err::<(), ChatError>(ChatError::EmptyName),
            before,
        ),
{
}

/// A known caller gets exactly the name asked for; the rest of the row and
/// every other row stay.
pub proof fn lemma_name_is_set(before: DatabaseView, sender: Identity, name: Seq<char>)
    requires
        before.users.contains_key(sender),
        name.len() > 0,
    ensures
        after_set_name(before, sender, name).0 == Ok::<(), ChatError>(()),
        after_set_name(before, sender, name).1 == before.with_user(
            UserView { name: Some(name), ..before.users[sender] },
        ),
{
}

/// A known caller who gives a join code that no room has is refused, and no
/// table changes.
pub proof fn lemma_bad_room_key_is_refused(before: DatabaseView, sender: Identity, key: Seq<char>)
    requires
        before.users.contains_key(sender),
        !before.has_room_key(key),
    ensures
        after_join_room(before, sender, key) == (
            Err::<(), ChatError>(ChatError::InvalidRoomKey),
            before,
        ),
{
}

/// A known caller who gives the join code of room `room` ends up in exactly
/// that room; nothing else changes.
pub proof fn lemma_join_sets_room(
    before: DatabaseView,
    sender: Identity,
    key: Seq<char>,
    room: u64,
)
    requires
        before.wf(),
        before.users.contains_key(sender),
        before.rooms.contains_key(room),
        before.rooms[room].key == key,
    ensures
        after_join_room(before, sender, key).0 == Ok::<(), ChatError>(()),
        after_join_room(before, sender, key).1 == before.with_user(
            UserView { room: Some(room), ..before.users[sender] },
        ),
        after_join_room(before, sender, key).1.users[sender].room == Some(room),
{
    assert(before.has_room_key(key));
    let chosen = before.room_id_of(key);
    assert(before.rooms.contains_key(chosen) && before.rooms[chosen].key == key);
    assert(chosen == room);
}

/// A known caller whose room reference is absent cannot post, and no table
/// changes.
pub proof fn lemma_roomless_caller_cannot_post(
    before: DatabaseView,
    sender: Identity,
    now: Timestamp,
    kind: Seq<char>,
    data: Option<Seq<u64>>,
)
    requires
        before.users.contains_key(sender),
        before.users[sender].room.is_none(),
    ensures
        after_send_message(before, sender, now, kind, data) == (
            Err::<(), ChatError>(ChatError::NotInRoom),
            before,
        ),
{
}

/// A message that was posted is a new row, sent at the time of the call to
/// the room the caller was in at the call, with kind and payload as given;
/// every other row stays.
pub proof fn lemma_posted_message(
    before: DatabaseView,
    sender: Identity,
    now: Timestamp,
    kind: Seq<char>,
    data: Option<Seq<u64>>,
)
    requires
        before.wf(),
        after_send_message(before, sender, now, kind, data).0 is Ok,
    ensures
        ({
            let after = after_send_message(before, sender, now, kind, data).1;
            let id = before.next_message_id;
            &&& before.users.contains_key(sender)
            &&& !before.messages.contains_key(id)
            &&& after.messages.contains_key(id)
            &&& after.messages[id] == (MessageView {
                id,
                sender,
                room: before.users[sender].room->0,
                sent: now,
                kind,
                data,
            })
            &&& after.messages.remove(id) == before.messages
            &&& after.users == before.users
            &&& after.rooms == before.rooms
        }),
{
    let after = after_send_message(before, sender, now, kind, data).1;
    let id = before.next_message_id;
    assert(!before.messages.contains_key(id));
    assert(after.messages.remove(id) =~= before.messages);
}

/// After a sweep no message is older than the retention window, every
/// message within the window is as it was, and no other table changes.
pub proof fn lemma_sweep_removes_exactly_the_stale(before: DatabaseView, ctx: ReducerContext)
    requires
        sweep_allowed(ctx),
    ensures
        ({
            let after = after_clear_messages(before, ctx).1;
            &&& after_clear_messages(before, ctx).0 == Ok::<(), ChatError>(())
            &&& forall|m: u64| #[trigger]
                after.messages.contains_key(m) ==> before.messages.contains_key(m) && !expired(
                    after.messages[m].sent,
                    ctx.timestamp,
                )
            &&& forall|m: u64| #[trigger]
                before.messages.contains_key(m) && !expired(before.messages[m].sent, ctx.timestamp)
                    ==> after.messages.contains_key(m) && after.messages[m] == before.messages[m]
            &&& after.users == before.users
            &&& after.rooms == before.rooms
            &&& after.schedule == before.schedule
        }),
{
}

/// A sweep asked for by anyone but the platform is refused, and no message
/// is deleted.
pub proof fn lemma_sweep_of_a_client_is_refused(before: DatabaseView, ctx: ReducerContext)
    requires
        ctx.sender != ctx.module,
    ensures
        after_clear_messages(before, ctx) == (
            Err::<(), ChatError>(ChatError::Unauthorized),
            before,
        ),
{
}

/// Connecting leaves the caller online in the lobby, whatever room the
/// caller was in, and keeps the caller's name.
pub proof fn lemma_connect_resets_room(before: DatabaseView, sender: Identity)
    requires
        before.wf(),
    ensures
        ({
            let after = after_connect(before, sender);
            &&& after.users.contains_key(sender)
            &&& after.users[sender].identity == sender
            &&& after.users[sender].room == Some(LOBBY)
            &&& after.users[sender].online
            &&& after.users[sender].name == if before.users.contains_key(sender) {
                before.users[sender].name
            } else {
                None
            }
            &&& after.users.remove(sender) == before.users.remove(sender)
        }),
{
    let after = after_connect(before, sender);
    assert(after.users.remove(sender) =~= before.users.remove(sender));
}

/// Disconnecting marks a known caller offline and changes nothing else; for
/// an unknown caller it changes nothing at all.
pub proof fn lemma_disconnect_marks_offline(before: DatabaseView, sender: Identity)
    requires
        before.wf(),
    ensures
        before.users.contains_key(sender) ==> after_disconnect(before, sender)
            == before.with_user(UserView { online: false, ..before.users[sender] }),
        !before.users.contains_key(sender) ==> after_disconnect(before, sender) == before,
{
}

/// Whatever is asked, by whomever and whenever, the tables keep their
/// constraints: one user per identity, one room per join code, one row per
/// id, and the lobby is no room. Only a table whose ids have run out is
/// left aside.
pub proof fn lemma_every_call_keeps_the_constraints(
    before: DatabaseView,
    ctx: ReducerContext,
    request: Request,
)
    requires
        before.wf(),
        before.next_room_id < u64::MAX,
        before.next_message_id < u64::MAX,
        before.next_schedule_id < u64::MAX,
    ensures
        after(before, ctx, request).wf(),
{
    let next = after(before, ctx, request);
    match request {
        Request::CreateRoom { key } => {
            if after_room_attempt(before, ctx.sender, key).0 == Ok::<Option<u64>, ChatError>(
                Some(before.next_room_id),
            ) {
                lemma_new_room_key_is_unique(before, ctx.sender, key);
            }
        },
        Request::JoinRoom { key } => {},
        Request::ClearMessages => {
            assert(next.messages.dom().subset_of(before.messages.dom()));
            lemma_len_subset(next.messages.dom(), before.messages.dom());
        },
        _ => {},
    }
}

/// No call deletes a user or a room, changes a room, changes the row of
/// anyone but the caller, or adds a row for anyone but the caller.
pub proof fn lemma_users_and_rooms_outlive_every_call(
    before: DatabaseView,
    ctx: ReducerContext,
    request: Request,
)
    requires
        before.wf(),
    ensures
        ({
            let next = after(before, ctx, request);
            &&& forall|id: Identity| #[trigger]
                before.users.contains_key(id) ==> next.users.contains_key(id)
                    && next.users[id].identity == id
            &&& forall|id: Identity|
                id != ctx.sender ==> (#[trigger] next.users.contains_key(id)
                    <==> before.users.contains_key(id))
            &&& forall|id: Identity|
                id != ctx.sender && before.users.contains_key(id) ==> #[trigger] next.users[id]
                    == before.users[id]
            &&& forall|r: u64| #[trigger]
                before.rooms.contains_key(r) ==> next.rooms.contains_key(r) && next.rooms[r]
                    == before.rooms[r]
        }),
{
}

/// A message, once posted, is never changed, and nothing but a sweep
/// deletes it.
pub proof fn lemma_messages_change_only_by_sweep(
    before: DatabaseView,
    ctx: ReducerContext,
    request: Request,
)
    requires
        before.wf(),
    ensures
        ({
            let next = after(before, ctx, request);
            &&& forall|m: u64|
                before.messages.contains_key(m) && #[trigger] next.messages.contains_key(m)
                    ==> next.messages[m] == before.messages[m]
            &&& !(request is ClearMessages) ==> forall|m: u64| #[trigger]
                before.messages.contains_key(m) ==> next.messages.contains_key(m)
        }),
{
}

} // verus!
